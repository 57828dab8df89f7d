//! What holds of gauges, reports and scopes whatever is done with them.
use crate::aggregation::{Aggregation, Sum};
use crate::allocator::{MetricsAllocator, MetricsRef};
use crate::gauge::{DimensionsView, Gauge, GaugeState};
use crate::metrics::{DistributionView, MetricsBehavior};
use crate::metrics_factory::MetricsFactory;
use crate::pipeline::{AggregatedMetricsMap, GaugeKey, Sink, StreamSink};
use crate::types::Name;
use crate::{aggregation, gauge_group, linear_map, metrics, pipeline};
use std::sync::Arc;
use vstd::prelude::*;

verus! {

/// The sum of `values`.
pub open spec fn total(values: Seq<i64>) -> int
    decreases values.len(),
{
    if values.len() == 0 {
        0
    } else {
        total(values.drop_last()) + values.last()
    }
}

/// It makes no difference whether a part of a sum was wrapped around before.
proof fn lemma_wrapped_again(x: int, y: int)
    ensures
        aggregation::wrapped(aggregation::wrapped(x) + y) == aggregation::wrapped(x + y),
{
    let m = aggregation::modulus();
    let low = i64::MIN as int;
    vstd::arithmetic::div_mod::lemma_add_mod_noop((x - low), y, m);
    vstd::arithmetic::div_mod::lemma_add_mod_noop((x - low) % m, y, m);
    vstd::arithmetic::div_mod::lemma_mod_twice(x - low, m);
    assert(aggregation::wrapped(x) == (x - low) % m + low);
    assert(aggregation::wrapped(x) + y - low == (x - low) % m + y);
    assert(((x - low) % m + y) % m == (x - low + y) % m);
}

/// A gauge that observed nothing but `values` since its last reset has their least and greatest
/// value, their sum wrapped around, and their number.
pub proof fn law_statistic_set(values: Seq<i64>)
    requires
        values.len() > 0,
    ensures
        GaugeState::StatisticSet(None).observed_all(values) matches GaugeState::StatisticSet(
            Some(set),
        ) && {
            &&& values.contains(set.min)
            &&& values.contains(set.max)
            &&& forall|i: int| 0 <= i < values.len() ==> set.min <= #[trigger] values[i] <= set.max
            &&& set.sum == aggregation::wrapped(total(values))
            &&& set.count == aggregation::wrapped_count(values.len() as int)
        },
    decreases values.len(),
{
    let fewer = values.drop_last();
    let last = values.last();
    let none = GaugeState::StatisticSet(None);
    assert(values[values.len() - 1] == last);
    assert(none.observed_all(values) == none.observed_all(fewer).observed(last));
    assert(total(values) == total(fewer) + last);
    if fewer.len() > 0 {
        law_statistic_set(fewer);
        let set = none.observed_all(fewer)->StatisticSet_0->0;
        let next = none.observed_all(values)->StatisticSet_0->0;
        assert(next.sum == aggregation::wrapped(total(values))) by {
            lemma_wrapped_again(total(fewer), last as int);
        }
        assert(next.count == aggregation::wrapped_count(values.len() as int)) by {
            vstd::arithmetic::div_mod::lemma_add_mod_noop(
                fewer.len() as int,
                1,
                aggregation::modulus(),
            );
        }
        assert(values.contains(next.min)) by {
            let i = choose|i: int| 0 <= i < fewer.len() && fewer[i] == set.min;
            assert(values[i] == set.min);
        }
        assert(values.contains(next.max)) by {
            let i = choose|i: int| 0 <= i < fewer.len() && fewer[i] == set.max;
            assert(values[i] == set.max);
        }
        assert forall|i: int| 0 <= i < values.len() implies next.min <= #[trigger] values[i]
            <= next.max by {
            if i < fewer.len() {
                assert(fewer[i] == values[i]);
            }
        }
    } else {
        assert(none.observed_all(fewer) == none);
    }
}

/// A gauge that observed nothing but `values` since its last reset has their sum wrapped around.
pub proof fn law_sum(values: Seq<i64>)
    requires
        values.len() > 0,
    ensures
        GaugeState::Sum(None).observed_all(values) == GaugeState::Sum(
            Some(Sum { sum: aggregation::wrapped(total(values)) }),
        ),
    decreases values.len(),
{
    let fewer = values.drop_last();
    reveal_with_fuel(total, 2);
    reveal_with_fuel(GaugeState::observed_all, 2);
    if fewer.len() > 0 {
        law_sum(fewer);
        lemma_wrapped_again(total(fewer), values.last() as int);
    }
}

/// Two observations can change places.
pub proof fn law_observations_commute(gauge: GaugeState, a: i64, b: i64)
    ensures
        gauge.observed(a).observed(b) == gauge.observed(b).observed(a),
{
    match gauge {
        GaugeState::StatisticSet(Some(set)) => {
            lemma_wrapped_again(set.sum + a, b as int);
            lemma_wrapped_again(set.sum + b, a as int);
        },
        GaugeState::Sum(Some(sum)) => {
            lemma_wrapped_again(sum.sum + a, b as int);
            lemma_wrapped_again(sum.sum + b, a as int);
        },
        _ => {},
    }
}

/// The observation at `i` can as well come last.
proof fn lemma_observed_last(gauge: GaugeState, values: Seq<i64>, i: int)
    requires
        0 <= i < values.len(),
    ensures
        gauge.observed_all(values) == gauge.observed_all(values.remove(i)).observed(values[i]),
    decreases values.len(),
{
    if i == values.len() - 1 {
        assert(values.remove(i) =~= values.drop_last());
    } else {
        let fewer = values.drop_last();
        lemma_observed_last(gauge, fewer, i);
        assert(values.remove(i).drop_last() =~= fewer.remove(i));
        assert(values.remove(i).last() == values.last());
        law_observations_commute(
            gauge.observed_all(fewer.remove(i)),
            values[i],
            values.last(),
        );
    }
}

/// It makes no difference in which order values are observed.
pub proof fn law_observation_order(gauge: GaugeState, values: Seq<i64>, others: Seq<i64>)
    requires
        values.to_multiset() == others.to_multiset(),
    ensures
        gauge.observed_all(values) == gauge.observed_all(others),
    decreases values.len(),
{
    values.to_multiset_ensures();
    others.to_multiset_ensures();
    assert(values.to_multiset().len() == others.to_multiset().len());
    if values.len() > 0 {
        let last = values.last();
        assert(values.contains(last));
        assert(values.to_multiset().count(last) > 0);
        assert(others.contains(last));
        let i = choose|i: int| 0 <= i < others.len() && others[i] == last;
        lemma_observed_last(gauge, others, i);
        assert(values.remove(values.len() - 1) =~= values.drop_last());
        law_observation_order(gauge, values.drop_last(), others.remove(i));
    }
}

/// Whether a factory has the gauge `gauge` of the key `key`, of the kind of `state`.
pub open spec fn has_gauge<A, S>(
    factory: MetricsFactory<A, S>,
    key: GaugeKey,
    gauge: Arc<Gauge>,
    state: GaugeState,
) -> bool {
    &&& factory.vended_gauges().contains_key(key)
    &&& factory.vended_gauges()[key] == gauge
    &&& factory.gauges().contains_key(key)
    &&& factory.gauges()[key].cleared() == state.cleared()
}

/// A factory has a gauge that it vended.
pub proof fn law_vended_gauge_is_there<A, S>(
    before: MetricsFactory<A, S>,
    key: GaugeKey,
    default: GaugeState,
    gauge: Arc<Gauge>,
    after: MetricsFactory<A, S>,
)
    requires
        MetricsFactory::vended_gauge(&before, key, default, gauge, &after),
    ensures
        has_gauge(after, key, gauge, linear_map::found_or(before.gauges(), key, default)),
{
}

/// A gauge stays, the same one and of its kind, when a gauge is vended, when one observes a value,
/// when gauges are reported and when scopes are recorded and end.
pub proof fn law_gauges_stay<A, S>(
    before: MetricsFactory<A, S>,
    key: GaugeKey,
    gauge: Arc<Gauge>,
    state: GaugeState,
    other: GaugeKey,
    default: GaugeState,
    vended: Arc<Gauge>,
    value: i64,
    after: MetricsFactory<A, S>,
)
    requires
        has_gauge(before, key, gauge, state),
        ({
            ||| MetricsFactory::vended_gauge(&before, other, default, vended, &after)
            ||| after.vended_gauges() == before.vended_gauges() && after.gauges()
                == MetricsFactory::<A, S>::observed(before.gauges(), other, value)
            ||| after.vended_gauges() == before.vended_gauges() && after.gauges()
                == gauge_group::all_cleared(before.gauges())
            ||| after.keeps_gauges(&before)
        }),
    ensures
        has_gauge(after, key, gauge, state),
{
}

/// A gauge that is asked for again is the same gauge, whatever kind is asked for: its state goes
/// on, and nothing is registered anew.
pub proof fn law_gauge_found_again<A, S>(
    before: MetricsFactory<A, S>,
    key: GaugeKey,
    gauge: Arc<Gauge>,
    state: GaugeState,
    default: GaugeState,
    again: Arc<Gauge>,
    after: MetricsFactory<A, S>,
)
    requires
        has_gauge(before, key, gauge, state),
        MetricsFactory::vended_gauge(&before, key, default, again, &after),
    ensures
        again == gauge,
        after.keeps_gauges(&before),
{
    assert(before.gauges().insert(key, before.gauges()[key]) =~= before.gauges());
    assert(before.vended_gauges().insert(key, gauge) =~= before.vended_gauges());
}

/// A gauge of another name or of other dimensions is added to its group. It is another gauge, and
/// the one that was there goes on: what it observed before and observes afterwards is reported.
pub proof fn law_gauge_added_to_its_group<A, S>(
    before: MetricsFactory<A, S>,
    key: GaugeKey,
    gauge: Arc<Gauge>,
    state: GaugeState,
    other: GaugeKey,
    default: GaugeState,
    added: Arc<Gauge>,
    after: MetricsFactory<A, S>,
    value: i64,
    report: AggregatedMetricsMap,
)
    requires
        has_gauge(before, key, gauge, state),
        gauge@ == key,
        other.group == key.group,
        other != key,
        MetricsFactory::vended_gauge(&before, other, default, added, &after),
        pipeline::grouped(report@) == gauge_group::measured(
            MetricsFactory::<A, S>::observed(after.gauges(), key, value),
        ),
    ensures
        added != gauge,
        has_gauge(after, key, gauge, state),
        after.gauges()[key] == before.gauges()[key],
        report@.contains_key(key.group),
        pipeline::grouped(report@).contains_key(key),
        pipeline::grouped(report@)[key] == before.gauges()[key].observed(value).aggregation()->0,
{
    assert(gauge_group::measured(
        MetricsFactory::<A, S>::observed(after.gauges(), key, value),
    ).contains_key(key));
}

/// Whether a factory is disabled, and which behaviors, allocator and sink it has, is of no account
/// for its gauges.
pub proof fn law_settings_do_not_bear_on_gauges<A, S>(
    before: MetricsFactory<A, S>,
    other_before: MetricsFactory<A, S>,
    key: GaugeKey,
    default: GaugeState,
    gauge: Arc<Gauge>,
    other_gauge: Arc<Gauge>,
    after: MetricsFactory<A, S>,
    other_after: MetricsFactory<A, S>,
)
    requires
        before.gauges() == other_before.gauges(),
        MetricsFactory::vended_gauge(&before, key, default, gauge, &after),
        MetricsFactory::vended_gauge(&other_before, key, default, other_gauge, &other_after),
    ensures
        gauge@ == other_gauge@,
        after.gauges() == other_after.gauges(),
{
}

/// A gauge is left alone by what is done to one of another group, other dimensions or another
/// name.
pub proof fn law_gauges_apart(
    gauges: Map<GaugeKey, GaugeState>,
    key: GaugeKey,
    left: GaugeState,
    other: GaugeKey,
    default: GaugeState,
)
    requires
        key != other,
    ensures
        linear_map::found_or(gauges.insert(key, left), other, default) == linear_map::found_or(
            gauges,
            other,
            default,
        ),
{
}

/// A gauge that is vended and observes nothing changes no report.
pub proof fn law_unused_gauge_not_reported(
    gauges: Map<GaugeKey, GaugeState>,
    key: GaugeKey,
    default: GaugeState,
)
    requires
        default.aggregation() is None,
    ensures
        gauge_group::measured(
            gauges.insert(key, linear_map::found_or(gauges, key, default)),
        ) == gauge_group::measured(gauges),
{
    assert(gauge_group::measured(gauges.insert(key, linear_map::found_or(gauges, key, default)))
        =~= gauge_group::measured(gauges));
}

/// A group is in the report exactly if one of its gauges observed something.
pub proof fn law_reported_groups(
    gauges: Map<GaugeKey, GaugeState>,
    report: AggregatedMetricsMap,
    group: Seq<char>,
)
    requires
        pipeline::grouped(report@) == gauge_group::measured(gauges),
        pipeline::no_group_empty(report@),
    ensures
        report@.contains_key(group) <==> exists|key: GaugeKey| #[trigger]
            gauges.contains_key(key) && key.group == group && gauges[key].aggregation() is Some,
{
    if report@.contains_key(group) {
        let measurements = pipeline::dimensioned(report@[group]@);
        assert(!(measurements =~= Map::<(DimensionsView, Seq<char>), Aggregation>::empty()));
        let place = choose|place: (DimensionsView, Seq<char>)| measurements.contains_key(place);
        let key = GaugeKey { group, dimensions: place.0, name: place.1 };
        assert(pipeline::grouped(report@).contains_key(key));
        assert(gauges.contains_key(key));
    }
    if exists|key: GaugeKey| #[trigger]
        gauges.contains_key(key) && key.group == group && gauges[key].aggregation() is Some {
        let key = choose|key: GaugeKey| #[trigger]
            gauges.contains_key(key) && key.group == group && gauges[key].aggregation() is Some;
        assert(gauge_group::measured(gauges).contains_key(key));
        assert(pipeline::grouped(report@).contains_key(key));
    }
}

/// Dimensions are in the report of a group exactly if a gauge with them observed something.
pub proof fn law_reported_dimensions(
    gauges: Map<GaugeKey, GaugeState>,
    report: AggregatedMetricsMap,
    group: Seq<char>,
    dimensions: DimensionsView,
)
    requires
        pipeline::grouped(report@) == gauge_group::measured(gauges),
        pipeline::no_group_empty(report@),
    ensures
        report@.contains_key(group) && report@[group]@.contains_key(dimensions) <==> exists|
            key: GaugeKey,
        | #[trigger]
            gauges.contains_key(key) && key.group == group && key.dimensions == dimensions
                && gauges[key].aggregation() is Some,
{
    if report@.contains_key(group) && report@[group]@.contains_key(dimensions) {
        let measurements = report@[group]@[dimensions]@;
        assert(!(measurements =~= Map::<Seq<char>, Aggregation>::empty()));
        let name = choose|name: Seq<char>| measurements.contains_key(name);
        let key = GaugeKey { group, dimensions, name };
        assert(pipeline::grouped(report@).contains_key(key));
        assert(gauges.contains_key(key));
    }
    if exists|key: GaugeKey| #[trigger]
        gauges.contains_key(key) && key.group == group && key.dimensions == dimensions
            && gauges[key].aggregation() is Some {
        let key = choose|key: GaugeKey| #[trigger]
            gauges.contains_key(key) && key.group == group && key.dimensions == dimensions
                && gauges[key].aggregation() is Some;
        assert(gauge_group::measured(gauges).contains_key(key));
        assert(pipeline::grouped(report@).contains_key(key));
    }
}

/// A gauge that observes something comes into the next report with all that it observed since the
/// last one, whatever the other gauges observed. These are reported as before.
pub proof fn law_observed_is_reported(
    gauges: Map<GaugeKey, GaugeState>,
    key: GaugeKey,
    default: GaugeState,
    values: Seq<i64>,
)
    requires
        values.len() > 0,
    ensures
        ({
            let gauge = linear_map::found_or(gauges, key, default).observed_all(values);
            &&& gauge.aggregation() is Some
            &&& gauge_group::measured(gauges.insert(key, gauge)) == gauge_group::measured(
                gauges,
            ).insert(key, gauge.aggregation()->0)
        }),
{
    let gauge = linear_map::found_or(gauges, key, default).observed_all(values);
    assert(gauge_group::measured(gauges.insert(key, gauge)) =~= gauge_group::measured(
        gauges,
    ).insert(key, gauge.aggregation()->0));
}

/// After a report a gauge starts anew: it is as one of its kind that observed nothing.
pub proof fn law_gauge_starts_anew(
    gauges: Map<GaugeKey, GaugeState>,
    key: GaugeKey,
    default: GaugeState,
)
    requires
        gauges.contains_key(key),
    ensures
        ({
            let gauge = linear_map::found_or(gauge_group::all_cleared(gauges), key, default);
            &&& gauge == gauges[key].cleared()
            &&& gauge.aggregation() is None
            &&& gauges[key] is StatisticSet ==> gauge == GaugeState::StatisticSet(None)
            &&& gauges[key] is Sum ==> gauge == GaugeState::Sum(None)
        }),
{
}

/// A report right after another is empty, and changes no gauge.
pub proof fn law_nothing_reported_twice(gauges: Map<GaugeKey, GaugeState>)
    ensures
        gauge_group::measured(gauge_group::all_cleared(gauges)) == Map::<
            GaugeKey,
            Aggregation,
        >::empty(),
        gauge_group::all_cleared(gauge_group::all_cleared(gauges)) == gauge_group::all_cleared(
            gauges,
        ),
{
    let reset = gauge_group::all_cleared(gauges);
    assert(gauge_group::measured(reset) =~= Map::<GaugeKey, Aggregation>::empty());
    assert(gauge_group::all_cleared(reset) =~= reset);
}

/// Of behaviors that are combined, each but the default one is there, and no other. Their order,
/// and how often each comes, is of no account.
pub proof fn law_flags(behaviors: Seq<MetricsBehavior>, behavior: MetricsBehavior)
    ensures
        metrics::flagged(metrics::flags(behaviors), behavior) <==> behaviors.contains(behavior)
            && behavior != MetricsBehavior::Default,
{
    assert(forall|a: u32| #[trigger] (a & 0x00u32) == 0) by (bit_vector);
    assert((0u32 | 0u32) & 0x01u32 == 0 && (0u32 | 0x10u32) & 0x01u32 == 0) by (bit_vector);
    assert((0u32 | 0u32) & 0x10u32 == 0 && (0x01u32 | 0u32) & 0x10u32 == 0) by (bit_vector);
    assert((0x01u32 | 0u32) & 0x01u32 != 0 && (0x01u32 | 0x10u32) & 0x01u32 != 0) by (bit_vector);
    assert((0u32 | 0x10u32) & 0x10u32 != 0 && (0x01u32 | 0x10u32) & 0x10u32 != 0) by (bit_vector);
}

/// A behavior that is added is there, and those that were there stay.
pub proof fn law_added_behavior(behaviors: u32, added: MetricsBehavior, behavior: MetricsBehavior)
    ensures
        metrics::flagged(behaviors | added.flag(), behavior) <==> metrics::flagged(
            behaviors,
            behavior,
        ) || (behavior == added && behavior != MetricsBehavior::Default),
{
    let a = added.flag();
    let b = behavior.flag();
    assert((behaviors | a) & b == (behaviors & b) | (a & b)) by (bit_vector);
    assert(forall|x: u32, y: u32| #[trigger] (x | y) == 0 <==> x == 0 && y == 0) by (bit_vector);
    assert(0x00u32 & 0x00u32 == 0 && 0x00u32 & 0x01u32 == 0 && 0x00u32 & 0x10u32 == 0 && 0x01u32
        & 0x00u32 == 0 && 0x01u32 & 0x01u32 != 0 && 0x01u32 & 0x10u32 == 0 && 0x10u32 & 0x00u32
        == 0 && 0x10u32 & 0x01u32 == 0 && 0x10u32 & 0x10u32 != 0) by (bit_vector);
}

/// Of a factory that was disabled, or that suppresses metrics by default, no metrics reach the
/// sink, whatever behavior a scope adds.
pub proof fn law_suppressing_factory<A: MetricsAllocator, S: Sink<A::TMetricsRef>>(
    factory: MetricsFactory<A, S>,
    name: Name,
    added: MetricsBehavior,
    scope: A::TMetricsRef,
    left: A,
    before: S,
    elapsed: u128,
    after: S,
)
    requires
        factory.disabled() || metrics::flagged(
            factory.default_behaviors(),
            MetricsBehavior::Suppress,
        ),
        MetricsFactory::<A, S>::vended(
            factory.allocator(),
            name,
            factory.scope_behaviors(),
            scope,
            left,
        ) || MetricsFactory::<A, S>::vended(
            factory.allocator(),
            name,
            factory.scope_behaviors() | added.flag(),
            scope,
            left,
        ),
        MetricsFactory::<A, S>::emitted(before, scope, elapsed, after),
    ensures
        after == before,
{
    let defaults = factory.default_behaviors();
    law_added_behavior(defaults, MetricsBehavior::Suppress, MetricsBehavior::Suppress);
    law_added_behavior(factory.scope_behaviors(), added, MetricsBehavior::Suppress);
}

/// A scope with the behavior that suppresses metrics does not reach the sink.
pub proof fn law_suppressed_scope<A: MetricsAllocator, S: Sink<A::TMetricsRef>>(
    factory: MetricsFactory<A, S>,
    name: Name,
    scope: A::TMetricsRef,
    left: A,
    before: S,
    elapsed: u128,
    after: S,
)
    requires
        MetricsFactory::<A, S>::vended(
            factory.allocator(),
            name,
            factory.scope_behaviors() | MetricsBehavior::Suppress.flag(),
            scope,
            left,
        ),
        MetricsFactory::<A, S>::emitted(before, scope, elapsed, after),
    ensures
        after == before,
{
    law_added_behavior(
        factory.scope_behaviors(),
        MetricsBehavior::Suppress,
        MetricsBehavior::Suppress,
    );
}

/// A scope that is not suppressed is handed to the sink, with what was recorded in it. The time
/// that it took is recorded as well, exactly if no behavior suppresses that.
pub proof fn law_complete_scope<A: MetricsAllocator, S: Sink<A::TMetricsRef>>(
    scope: A::TMetricsRef,
    before: S,
    elapsed: u128,
    after: S,
)
    requires
        !metrics::flagged(scope.metrics()@.behaviors, MetricsBehavior::Suppress),
        MetricsFactory::<A, S>::emitted(before, scope, elapsed, after),
    ensures
        exists|sent: A::TMetricsRef| #[trigger]
            S::accepts(before, sent, after) && sent.reference() == scope.reference()
                && sent.metrics()@.name == scope.metrics()@.name
                && sent.metrics()@.start_time == scope.metrics()@.start_time
                && sent.metrics()@.dimensions == scope.metrics()@.dimensions
                && sent.metrics()@.measurements == scope.metrics()@.measurements
                && sent.metrics()@.behaviors == scope.metrics()@.behaviors
                && sent.metrics()@.distributions == (if metrics::flagged(
                scope.metrics()@.behaviors,
                MetricsBehavior::SuppressTotalTime,
            ) {
                scope.metrics()@.distributions
            } else {
                scope.metrics()@.distributions.insert(
                    "totaltime"@,
                    DistributionView::Nanoseconds(elapsed),
                )
            }),
{
    let sent = choose|sent: A::TMetricsRef|
        {
            &&& #[trigger] S::accepts(before, sent, after)
            &&& MetricsFactory::<A, S>::completes(scope, elapsed, sent)
        };
    assert(S::accepts(before, sent, after));
}

/// A stream has the scopes that were not suppressed, each once, in the order in which they ended.
pub proof fn law_streamed_scopes<A: MetricsAllocator>(
    scope: A::TMetricsRef,
    before: StreamSink<A::TMetricsRef>,
    elapsed: u128,
    after: StreamSink<A::TMetricsRef>,
)
    requires
        MetricsFactory::<A, StreamSink<A::TMetricsRef>>::emitted(before, scope, elapsed, after),
    ensures
        metrics::flagged(scope.metrics()@.behaviors, MetricsBehavior::Suppress)
            ==> after.accepted() == before.accepted(),
        !metrics::flagged(scope.metrics()@.behaviors, MetricsBehavior::Suppress) ==> {
            &&& after.accepted().len() == before.accepted().len() + 1
            &&& after.accepted().drop_last() == before.accepted()
            &&& MetricsFactory::<A, StreamSink<A::TMetricsRef>>::completes(
                scope,
                elapsed,
                after.accepted().last(),
            )
        },
{
    if !metrics::flagged(scope.metrics()@.behaviors, MetricsBehavior::Suppress) {
        assert(after.accepted().drop_last() =~= before.accepted());
    }
}

} // verus!
