//! What the terms of the contracts mean. Each law here says it of plain numbers, sequences and maps,
//! and of what the standard library's functions give.
use crate::aggregation::{Aggregation, StatisticSet, Sum};
use crate::allocator::{AlwaysNewMetricsAllocator, MetricsAllocator, MetricsRef};
use crate::gauge::{DimensionsView, Gauge, GaugeDimensions, GaugeState};
use crate::linear_map::{Key, LinearMap};
use crate::metrics::{Distribution, DistributionView, Metrics, MetricsBehavior, MetricsView};
use crate::metrics_factory::MetricsFactory;
use crate::pipeline::{
    AggregatedMetricsMap, AggregationBatcher, BatchTaker, GaugeKey, Sink, StreamSink,
};
use crate::types::{Dimension, DimensionView, Name};
use crate::{aggregation, gauge, gauge_group, laws, linear_map, metrics, metrics_factory, pipeline};
use std::sync::Arc;
use std::time::{Duration, Instant, SystemTime};
use vstd::prelude::*;

verus! {

/// A number that fits comes to itself when it wraps around. Any other differs from what it comes to
/// by a multiple of two to the power of 64.
pub proof fn law_wrapped(x: int)
    ensures
        i64::MIN <= x <= i64::MAX ==> aggregation::wrapped(x) == x,
        (aggregation::wrapped(x) - x) % 0x1_0000_0000_0000_0000 == 0,
{
}

/// A count that fits comes to itself when it wraps around. Any other differs from what it comes to
/// by a multiple of two to the power of 64.
pub proof fn law_wrapped_count(n: int)
    ensures
        0 <= n <= u64::MAX ==> aggregation::wrapped_count(n) == n,
        (aggregation::wrapped_count(n) - n) % 0x1_0000_0000_0000_0000 == 0,
{
}

/// The first value that a gauge observes is all that it has.
pub proof fn law_first_observation(value: i64)
    ensures
        GaugeState::StatisticSet(None).observed(value) matches GaugeState::StatisticSet(Some(set))
            && set.min == value && set.max == value && set.sum == value && set.count == 1,
        GaugeState::Sum(None).observed(value) matches GaugeState::Sum(Some(sum)) && sum.sum
            == value,
{
}

/// One more value lowers the least value to itself or leaves it, raises the greatest value to
/// itself or leaves it, is added to the sum, and is counted.
pub proof fn law_next_observation(set: StatisticSet, sum: Sum, value: i64)
    ensures
        GaugeState::StatisticSet(Some(set)).observed(value) matches GaugeState::StatisticSet(
            Some(next),
        ) && {
            &&& next.min <= set.min && next.min <= value
            &&& next.min == set.min || next.min == value
            &&& next.max >= set.max && next.max >= value
            &&& next.max == set.max || next.max == value
            &&& i64::MIN <= set.sum + value <= i64::MAX ==> next.sum == set.sum + value
            &&& (next.sum - (set.sum + value)) % 0x1_0000_0000_0000_0000 == 0
            &&& set.count < u64::MAX ==> next.count == set.count + 1
            &&& (next.count - (set.count + 1)) % 0x1_0000_0000_0000_0000 == 0
        },
        GaugeState::Sum(Some(sum)).observed(value) matches GaugeState::Sum(Some(next)) && {
            &&& i64::MIN <= sum.sum + value <= i64::MAX ==> next.sum == sum.sum + value
            &&& (next.sum - (sum.sum + value)) % 0x1_0000_0000_0000_0000 == 0
        },
{
    law_wrapped(set.sum + value);
    law_wrapped_count(set.count + 1);
    law_wrapped(sum.sum + value);
}

/// Whether a gauge goes through `states` as it observes `values`, which add up to `totals`.
spec fn goes_through(
    values: Seq<i64>,
    states: Seq<GaugeState>,
    totals: Seq<int>,
) -> bool {
    &&& states.len() == values.len() + 1
    &&& totals.len() == values.len() + 1
    &&& totals[0] == 0
    &&& forall|i: int|
        0 <= i < values.len() ==> {
            &&& states[i + 1] == states[i].observed(#[trigger] values[i])
            &&& totals[i + 1] == totals[i] + values[i]
        }
}

proof fn lemma_congruent(found: int, next: int, total: int, value: int)
    requires
        (found - total) % 0x1_0000_0000_0000_0000 == 0,
        (next - (found + value)) % 0x1_0000_0000_0000_0000 == 0,
    ensures
        (next - (total + value)) % 0x1_0000_0000_0000_0000 == 0,
{
}

/// Whether `set` has the least and the greatest of the first `k` values.
spec fn bounded(set: StatisticSet, values: Seq<i64>, k: int) -> bool {
    &&& exists|i: int| 0 <= i < k && #[trigger] values[i] == set.min
    &&& exists|i: int| 0 <= i < k && #[trigger] values[i] == set.max
    &&& forall|i: int| 0 <= i < k ==> set.min <= #[trigger] values[i] <= set.max
}

proof fn lemma_bounded(set: StatisticSet, next: StatisticSet, values: Seq<i64>, k: int)
    requires
        0 <= k < values.len(),
        bounded(set, values, k),
        next.min <= set.min && next.min <= values[k],
        next.min == set.min || next.min == values[k],
        next.max >= set.max && next.max >= values[k],
        next.max == set.max || next.max == values[k],
    ensures
        bounded(next, values, k + 1),
{
}

proof fn lemma_statistics_so_far(
    values: Seq<i64>,
    states: Seq<GaugeState>,
    totals: Seq<int>,
    k: int,
)
    requires
        goes_through(values, states, totals),
        states[0] == GaugeState::StatisticSet(None),
        1 <= k <= values.len(),
    ensures
        states[k] matches GaugeState::StatisticSet(Some(set)) && {
            &&& bounded(set, values, k)
            &&& (set.sum - totals[k]) % 0x1_0000_0000_0000_0000 == 0
            &&& (set.count - k) % 0x1_0000_0000_0000_0000 == 0
        },
    decreases k,
{
    let value = values[k - 1];
    if k == 1 {
        law_first_observation(value);
    } else {
        lemma_statistics_so_far(values, states, totals, k - 1);
        let set = states[k - 1]->StatisticSet_0->0;
        law_next_observation(set, Sum { sum: 0 }, value);
        let next = states[k]->StatisticSet_0->0;
        lemma_bounded(set, next, values, k - 1);
        lemma_congruent(set.sum as int, next.sum as int, totals[k - 1], value as int);
        lemma_congruent(set.count as int, next.count as int, k - 1, 1);
    }
}

/// What a gauge that starts out empty and observes `values` one after the other reports of them as a
/// statistic set: the least and the greatest of them, their sum where it fits, and their number.
pub proof fn law_reported_statistics(
    values: Seq<i64>,
    states: Seq<GaugeState>,
    totals: Seq<int>,
)
    requires
        values.len() > 0,
        states.len() == values.len() + 1,
        totals.len() == values.len() + 1,
        states[0] == GaugeState::StatisticSet(None),
        totals[0] == 0,
        forall|i: int|
            0 <= i < values.len() ==> {
                &&& states[i + 1] == states[i].observed(#[trigger] values[i])
                &&& totals[i + 1] == totals[i] + values[i]
            },
    ensures
        states[values.len() as int].aggregation() matches Some(Aggregation::StatisticSet(set)) && {
            &&& exists|i: int| 0 <= i < values.len() && #[trigger] values[i] == set.min
            &&& exists|i: int| 0 <= i < values.len() && #[trigger] values[i] == set.max
            &&& forall|i: int|
                0 <= i < values.len() ==> set.min <= #[trigger] values[i] <= set.max
            &&& i64::MIN <= totals[values.len() as int] <= i64::MAX ==> set.sum
                == totals[values.len() as int]
            &&& (set.sum - totals[values.len() as int]) % 0x1_0000_0000_0000_0000 == 0
            &&& values.len() <= u64::MAX ==> set.count == values.len()
            &&& (set.count - values.len()) % 0x1_0000_0000_0000_0000 == 0
        },
{
    lemma_statistics_so_far(values, states, totals, values.len() as int);
}

proof fn lemma_sum_so_far(values: Seq<i64>, states: Seq<GaugeState>, totals: Seq<int>, k: int)
    requires
        goes_through(values, states, totals),
        states[0] == GaugeState::Sum(None),
        1 <= k <= values.len(),
    ensures
        states[k] matches GaugeState::Sum(Some(sum)) && (sum.sum - totals[k])
            % 0x1_0000_0000_0000_0000 == 0,
    decreases k,
{
    let value = values[k - 1];
    if k == 1 {
        law_first_observation(value);
    } else {
        lemma_sum_so_far(values, states, totals, k - 1);
        let none = StatisticSet { min: 0, max: 0, sum: 0, count: 0 };
        law_next_observation(none, states[k - 1]->Sum_0->0, value);
    }
}

/// What a gauge that starts out empty and observes `values` one after the other reports of them as a
/// sum: what they add up to, where that fits.
pub proof fn law_reported_sum(values: Seq<i64>, states: Seq<GaugeState>, totals: Seq<int>)
    requires
        values.len() > 0,
        states.len() == values.len() + 1,
        totals.len() == values.len() + 1,
        states[0] == GaugeState::Sum(None),
        totals[0] == 0,
        forall|i: int|
            0 <= i < values.len() ==> {
                &&& states[i + 1] == states[i].observed(#[trigger] values[i])
                &&& totals[i + 1] == totals[i] + values[i]
            },
    ensures
        states[values.len() as int].aggregation() matches Some(Aggregation::Sum(sum)) && {
            &&& i64::MIN <= totals[values.len() as int] <= i64::MAX ==> sum.sum
                == totals[values.len() as int]
            &&& (sum.sum - totals[values.len() as int]) % 0x1_0000_0000_0000_0000 == 0
        },
{
    lemma_sum_so_far(values, states, totals, values.len() as int);
}

/// To observe one value after some others is to observe them all, and their total grows by it.
pub proof fn law_one_after_another(state: GaugeState, values: Seq<i64>, value: i64)
    ensures
        state.observed_all(Seq::empty()) == state,
        state.observed_all(values.push(value)) == state.observed_all(values).observed(value),
        laws::total(Seq::empty()) == 0,
        laws::total(values.push(value)) == laws::total(values) + value,
{
    assert(values.push(value).drop_last() =~= values);
}

/// A gauge has something to report exactly if it observed something, and reports just that. When it
/// is cleared, it is of the same kind and has nothing to report.
pub proof fn law_state(set: StatisticSet, sum: Sum)
    ensures
        GaugeState::StatisticSet(Some(set)).aggregation() == Some(Aggregation::StatisticSet(set)),
        GaugeState::Sum(Some(sum)).aggregation() == Some(Aggregation::Sum(sum)),
        GaugeState::StatisticSet(None).aggregation() == None::<Aggregation>,
        GaugeState::Sum(None).aggregation() == None::<Aggregation>,
        GaugeState::StatisticSet(Some(set)).cleared() == GaugeState::StatisticSet(None),
        GaugeState::Sum(Some(sum)).cleared() == GaugeState::Sum(None),
        GaugeState::StatisticSet(None).cleared() == GaugeState::StatisticSet(None),
        GaugeState::Sum(None).cleared() == GaugeState::Sum(None),
{
}

/// Of each gauge that observed something, what it observed is measured, and of no other. When all
/// are cleared, the same gauges are there, each of its kind and with nothing observed.
pub proof fn law_registry<A>(gauges: Map<A, GaugeState>, place: A)
    ensures
        !gauges.contains_key(place) ==> {
            &&& !gauge_group::measured(gauges).contains_key(place)
            &&& !gauge_group::all_cleared(gauges).contains_key(place)
        },
        gauges.contains_key(place) ==> gauge_group::all_cleared(gauges).contains_key(place),
        gauges.contains_key(place) ==> match gauges[place] {
            GaugeState::StatisticSet(None) => {
                &&& !gauge_group::measured(gauges).contains_key(place)
                &&& gauge_group::all_cleared(gauges)[place] == GaugeState::StatisticSet(None)
            },
            GaugeState::Sum(None) => {
                &&& !gauge_group::measured(gauges).contains_key(place)
                &&& gauge_group::all_cleared(gauges)[place] == GaugeState::Sum(None)
            },
            GaugeState::StatisticSet(Some(set)) => {
                &&& gauge_group::measured(gauges).contains_key(place)
                &&& gauge_group::measured(gauges)[place] == Aggregation::StatisticSet(set)
                &&& gauge_group::all_cleared(gauges)[place] == GaugeState::StatisticSet(None)
            },
            GaugeState::Sum(Some(sum)) => {
                &&& gauge_group::measured(gauges).contains_key(place)
                &&& gauge_group::measured(gauges)[place] == Aggregation::Sum(sum)
                &&& gauge_group::all_cleared(gauges)[place] == GaugeState::Sum(None)
            },
        },
{
}

/// A report has, under the group, the dimensions and the name of a gauge, what the gauge observed,
/// and has nothing there if it observed nothing or is not there.
pub proof fn law_report_entry(
    gauges: Map<GaugeKey, GaugeState>,
    report: AggregatedMetricsMap,
    group: Seq<char>,
    dimensions: DimensionsView,
    name: Seq<char>,
)
    requires
        pipeline::grouped(report@) == gauge_group::measured(gauges),
    ensures
        ({
            let key = GaugeKey { group, dimensions, name };
            let there = report@.contains_key(group) && report@[group]@.contains_key(dimensions)
                && report@[group]@[dimensions]@.contains_key(name);
            if gauges.contains_key(key) {
                match gauges[key] {
                    GaugeState::StatisticSet(Some(set)) => there
                        && report@[group]@[dimensions]@[name] == Aggregation::StatisticSet(set),
                    GaugeState::Sum(Some(sum)) => there && report@[group]@[dimensions]@[name]
                        == Aggregation::Sum(sum),
                    _ => !there,
                }
            } else {
                !there
            }
        }),
{
    let key = GaugeKey { group, dimensions, name };
    assert(pipeline::grouped(report@).contains_key(key) == gauge_group::measured(
        gauges,
    ).contains_key(key));
    assert(pipeline::grouped(report@)[key] == gauge_group::measured(gauges)[key]);
}

/// Each group of a report has dimensions, and each dimensions of a group have a measurement.
pub proof fn law_nothing_empty_in_report(report: AggregatedMetricsMap, group: Seq<char>)
    requires
        pipeline::no_group_empty(report@),
        report@.contains_key(group),
    ensures
        exists|dimensions: DimensionsView| report@[group]@.contains_key(dimensions),
        forall|dimensions: DimensionsView| #[trigger]
            report@[group]@.contains_key(dimensions) ==> exists|name: Seq<char>|
                report@[group]@[dimensions]@.contains_key(name),
{
    let measurements = pipeline::dimensioned(report@[group]@);
    assert(!(measurements =~= Map::<(DimensionsView, Seq<char>), Aggregation>::empty()));
    let place = choose|place: (DimensionsView, Seq<char>)| measurements.contains_key(place);
    assert(report@[group]@.contains_key(place.0));
    assert forall|dimensions: DimensionsView| #[trigger]
        report@[group]@.contains_key(dimensions) implies exists|name: Seq<char>|
        report@[group]@[dimensions]@.contains_key(name) by {
        let named = report@[group]@[dimensions]@;
        assert(!(named =~= Map::<Seq<char>, Aggregation>::empty()));
    }
}

/// Keys are distinct if no two places have the same key.
pub proof fn law_distinct<K: Key>(keys: Seq<K>)
    ensures
        linear_map::distinct(keys) <==> forall|i: int, j: int|
            #![trigger keys[i], keys[j]]
            0 <= i < j < keys.len() ==> keys[i]@ != keys[j]@,
{
}

/// The keys of a map are those at its places, and each has the value at its place.
pub proof fn law_map_places<K: Key, V>(map: LinearMap<K, V>, k: K::V)
    requires
        forall|i: int, j: int|
            #![trigger map.keys()[i], map.keys()[j]]
            0 <= i < j < map.keys().len() ==> map.keys()[i]@ != map.keys()[j]@,
        map.keys().len() == map.values().len(),
    ensures
        map@.contains_key(k) <==> exists|i: int|
            0 <= i < map.keys().len() && (#[trigger] map.keys()[i])@ == k,
        forall|i: int|
            0 <= i < map.keys().len() && (#[trigger] map.keys()[i])@ == k ==> map@[k]
                == map.values()[i],
{
    assert forall|i: int| 0 <= i < map.keys().len() && (#[trigger] map.keys()[i])@ == k implies
        map@.contains_key(k) && map@[k] == map.values()[i] by {
        linear_map::lemma_paired_at(map.keys(), map.values(), i);
    }
    if map@.contains_key(k) {
        let i = choose|i: int| linear_map::key_at(map.keys(), k, i);
        assert(map.keys()[i]@ == k);
    }
}

/// A key at a place is within the list and at that place.
pub proof fn law_key_at<K: Key>(keys: Seq<K>, k: K::V, i: int)
    ensures
        linear_map::key_at(keys, k, i) <==> 0 <= i < keys.len() && keys[i]@ == k,
{
}

/// What is there is found, and the default where nothing is.
pub proof fn law_found_or<A, V>(map: Map<A, V>, key: A, value: V, default: V)
    ensures
        linear_map::found_or(map.insert(key, value), key, default) == value,
        linear_map::found_or(map.remove(key), key, default) == default,
        map.contains_key(key) ==> linear_map::found_or(map, key, default) == map[key],
        !map.contains_key(key) ==> linear_map::found_or(map, key, default) == default,
{
}

/// Dimensions that are made of pairs have the name of each pair and no other, and each name has the
/// value of the last pair with it.
pub proof fn law_dimensions_of_pairs(pairs: Seq<(Name, Dimension)>, name: Seq<char>)
    ensures
        gauge::inserted(pairs).contains_key(name) <==> exists|i: int|
            0 <= i < pairs.len() && (#[trigger] pairs[i]).0@ == name,
        forall|i: int|
            0 <= i < pairs.len() && (#[trigger] pairs[i]).0@ == name && (forall|j: int|
                i < j < pairs.len() ==> (#[trigger] pairs[j]).0@ != name)
                ==> gauge::inserted(pairs)[name] == pairs[i].1@,
    decreases pairs.len(),
{
    if pairs.len() > 0 {
        let fewer = pairs.drop_last();
        let last = pairs.len() - 1;
        law_dimensions_of_pairs(fewer, name);
        assert(forall|i: int| 0 <= i < last ==> #[trigger] fewer[i] == pairs[i]);
        if pairs[last].0@ != name {
            assert(gauge::inserted(pairs).contains_key(name) == gauge::inserted(
                fewer,
            ).contains_key(name));
            assert((exists|i: int| 0 <= i < last && (#[trigger] fewer[i]).0@ == name) == (exists|
                i: int,
            |
                0 <= i < pairs.len() && (#[trigger] pairs[i]).0@ == name)) by {
                if exists|i: int| 0 <= i < last && (#[trigger] fewer[i]).0@ == name {
                    let i = choose|i: int| 0 <= i < last && (#[trigger] fewer[i]).0@ == name;
                    assert(pairs[i].0@ == name);
                }
                if exists|i: int| 0 <= i < pairs.len() && (#[trigger] pairs[i]).0@ == name {
                    let i = choose|i: int| 0 <= i < pairs.len() && (#[trigger] pairs[i]).0@ == name;
                    assert(fewer[i].0@ == name);
                }
            }
            assert forall|i: int|
                0 <= i < pairs.len() && (#[trigger] pairs[i]).0@ == name && (forall|j: int|
                    i < j < pairs.len() ==> (#[trigger] pairs[j]).0@
                        != name) implies gauge::inserted(pairs)[name] == pairs[i].1@ by {
                assert(fewer[i].0@ == name);
                assert forall|j: int| i < j < last implies (#[trigger] fewer[j]).0@ != name by {
                    assert(pairs[j].0@ != name);
                }
            }
        } else {
            assert forall|i: int|
                0 <= i < pairs.len() && (#[trigger] pairs[i]).0@ == name && (forall|j: int|
                    i < j < pairs.len() ==> (#[trigger] pairs[j]).0@
                        != name) implies gauge::inserted(pairs)[name] == pairs[i].1@ by {
                assert(i == last) by {
                    if i < last {
                        assert(pairs[last].0@ != name);
                    }
                }
            }
        }
    }
}

/// Dimensions that were made of pairs have the name of each pair and no other, and each name has
/// the value of the last pair with it.
pub proof fn law_made_dimensions(
    pairs: Vec<(Name, Dimension)>,
    dimensions: GaugeDimensions,
    name: Seq<char>,
)
    requires
        call_ensures(GaugeDimensions::new, (pairs,), dimensions),
    ensures
        dimensions@.contains_key(name) <==> exists|i: int|
            0 <= i < pairs@.len() && (#[trigger] pairs@[i]).0@ == name,
        forall|i: int|
            0 <= i < pairs@.len() && (#[trigger] pairs@[i]).0@ == name && (forall|j: int|
                i < j < pairs@.len() ==> (#[trigger] pairs@[j]).0@ != name) ==> dimensions@[name]
                == pairs@[i].1@,
{
}

/// A name that is made of a text has all of that text.
pub proof fn law_name_of_text(text: &str, name: Name)
    requires
        call_ensures(<&str as Into<Name>>::into, (text,), name),
    ensures
        name@ == text@,
{
}

/// A name that is given where a name is wanted is that name.
pub proof fn law_name_of_name(given: Name, name: Name)
    requires
        call_ensures(<Name as Into<Name>>::into, (given,), name),
    ensures
        name == given,
{
}

/// A dimension that is made of a text has all of that text.
pub proof fn law_dimension_of_text(text: &str, dimension: Dimension)
    requires
        call_ensures(<&str as Into<Dimension>>::into, (text,), dimension),
    ensures
        dimension@ == DimensionView::Text(text@),
{
}

/// A dimension that is made of a number has that number.
pub proof fn law_dimension_of_number(number: u32, dimension: Dimension)
    requires
        call_ensures(<u32 as Into<Dimension>>::into, (number,), dimension),
    ensures
        dimension@ == DimensionView::Number(number as u64),
{
}

/// A distribution that is made of a value has that value.
pub proof fn law_distribution_of_value(value: i64, distribution: Distribution)
    requires
        call_ensures(<i64 as Into<Distribution>>::into, (value,), distribution),
    ensures
        distribution@ == DistributionView::Value(value),
{
}

/// A distribution that is made of values has all of them, in their order.
pub proof fn law_distribution_of_values(values: Vec<i64>, distribution: Distribution)
    requires
        call_ensures(<Vec<i64> as Into<Distribution>>::into, (values,), distribution),
    ensures
        distribution@ == DistributionView::Values(values@),
{
}

/// A dimension and a distribution hold all that is in them.
pub proof fn law_values(text: String, number: u64, value: i64, values: Vec<i64>, time: u128)
    ensures
        Dimension::Text(text)@ == DimensionView::Text(text@),
        Dimension::Number(number)@ == DimensionView::Number(number),
        Distribution::Value(value)@ == DistributionView::Value(value),
        Distribution::Values(values)@ == DistributionView::Values(values@),
        Distribution::Nanoseconds(time)@ == DistributionView::Nanoseconds(time),
{
}

/// Metrics hold what is in each of their fields.
pub proof fn law_metrics(metrics: Metrics, name: Seq<char>)
    ensures
        metrics@.name == metrics.name@,
        metrics@.start_time == metrics.start_time,
        metrics@.behaviors == metrics.behaviors,
        metrics@.measurements == metrics.measurements@,
        metrics@.dimensions.contains_key(name) == metrics.dimensions@.contains_key(name),
        metrics.dimensions@.contains_key(name) ==> metrics@.dimensions[name]
            == metrics.dimensions@[name]@,
        metrics@.distributions.contains_key(name) == metrics.distributions@.contains_key(name),
        metrics.distributions@.contains_key(name) ==> metrics@.distributions[name]
            == metrics.distributions@[name]@,
        metrics.metrics() == metrics,
{
}

/// Other behaviors change nothing else in metrics, nor does the time that a scope took, which is
/// recorded in nanoseconds as the distribution `totaltime`.
pub proof fn law_changed_metrics(view: MetricsView, behaviors: u32, elapsed: u128)
    ensures
        ({
            let changed = view.with_behaviors(behaviors);
            &&& changed.behaviors == behaviors
            &&& changed.name == view.name
            &&& changed.start_time == view.start_time
            &&& changed.dimensions == view.dimensions
            &&& changed.measurements == view.measurements
            &&& changed.distributions == view.distributions
        }),
        ({
            let timed = view.with_total_time(elapsed);
            &&& timed.distributions == view.distributions.insert(
                "totaltime"@,
                DistributionView::Nanoseconds(elapsed),
            )
            &&& timed.behaviors == view.behaviors
            &&& timed.name == view.name
            &&& timed.start_time == view.start_time
            &&& timed.dimensions == view.dimensions
            &&& timed.measurements == view.measurements
        }),
{
}

/// Each behavior but the default one has a bit of its own, and metrics have it if that bit is set.
pub proof fn law_behavior_bits(behaviors: u32)
    ensures
        MetricsBehavior::Default.flag() == 0,
        MetricsBehavior::Suppress.flag() == 0x01,
        MetricsBehavior::SuppressTotalTime.flag() == 0x10,
        !metrics::flagged(behaviors, MetricsBehavior::Default),
        metrics::flagged(behaviors, MetricsBehavior::Suppress) == (behaviors & 0x01u32 != 0),
        metrics::flagged(behaviors, MetricsBehavior::SuppressTotalTime) == (behaviors & 0x10u32
            != 0),
{
    assert(behaviors & 0x00u32 == 0) by (bit_vector);
}

/// Behaviors that are combined set their bits and no other, whatever their order and however often
/// each comes.
pub proof fn law_combined_bits(behaviors: Seq<MetricsBehavior>)
    ensures
        metrics::flags(behaviors) & 0x01u32 != 0 <==> exists|i: int|
            0 <= i < behaviors.len() && #[trigger] behaviors[i] == MetricsBehavior::Suppress,
        metrics::flags(behaviors) & 0x10u32 != 0 <==> exists|i: int|
            0 <= i < behaviors.len() && #[trigger] behaviors[i]
                == MetricsBehavior::SuppressTotalTime,
        metrics::flags(behaviors) & 0xffff_ffeeu32 == 0,
{
    laws::law_flags(behaviors, MetricsBehavior::Suppress);
    laws::law_flags(behaviors, MetricsBehavior::SuppressTotalTime);
    assert((0u32 | 0u32) & 0xffff_ffeeu32 == 0 && (0u32 | 0x10u32) & 0xffff_ffeeu32 == 0 && (0x01u32
        | 0u32) & 0xffff_ffeeu32 == 0 && (0x01u32 | 0x10u32) & 0xffff_ffeeu32 == 0) by (bit_vector);
}

/// Metrics of a factory start with its default behaviors, and with the bit that suppresses them as
/// well if the factory is disabled.
pub proof fn law_scope_bits<A, S>(factory: MetricsFactory<A, S>)
    ensures
        factory.disabled() ==> factory.scope_behaviors() == factory.default_behaviors() | 0x01u32,
        !factory.disabled() ==> factory.scope_behaviors() == factory.default_behaviors(),
{
}

/// A scope is what the allocator vends for its name. Its behaviors are those that it is given, and
/// all else is as the allocator left it.
pub proof fn law_vended_scope<A: MetricsAllocator, S>(
    before: A,
    name: Name,
    behaviors: u32,
    scope: A::TMetricsRef,
    after: A,
)
    requires
        MetricsFactory::<A, S>::vended(before, name, behaviors, scope, after),
    ensures
        scope.metrics()@.behaviors == behaviors,
        exists|fresh: A::TMetricsRef| #[trigger]
            A::vends(before, name, fresh, after) && scope.reference() == fresh.reference()
                && scope.metrics()@.name == fresh.metrics()@.name && scope.metrics()@.start_time
                == fresh.metrics()@.start_time && scope.metrics()@.dimensions
                == fresh.metrics()@.dimensions && scope.metrics()@.measurements
                == fresh.metrics()@.measurements && scope.metrics()@.distributions
                == fresh.metrics()@.distributions,
{
    let fresh = choose|fresh: A::TMetricsRef|
        {
            &&& #[trigger] A::vends(before, name, fresh, after)
            &&& scope.metrics()@ == fresh.metrics()@.with_behaviors(behaviors)
            &&& scope.reference() == fresh.reference()
        };
    assert(A::vends(before, name, fresh, after));
}

/// A scope of an allocator that always makes new metrics has the whole name that it was asked for,
/// starts at a time that the clock gave, and has nothing recorded.
pub proof fn law_new_scope<S>(
    before: AlwaysNewMetricsAllocator,
    name: Name,
    behaviors: u32,
    scope: Metrics,
    after: AlwaysNewMetricsAllocator,
)
    requires
        MetricsFactory::<AlwaysNewMetricsAllocator, S>::vended(
            before,
            name,
            behaviors,
            scope,
            after,
        ),
    ensures
        scope@.name == name@,
        call_ensures(Instant::now, (), scope@.start_time),
        scope@.dimensions == Map::<Seq<char>, DimensionView>::empty(),
        scope@.measurements == Map::<Seq<char>, i64>::empty(),
        scope@.distributions == Map::<Seq<char>, DistributionView>::empty(),
        scope@.behaviors == behaviors,
{
}

/// New metrics have the whole name that they were asked for, and no behavior or record.
pub proof fn law_new_metrics(
    before: AlwaysNewMetricsAllocator,
    name: Name,
    metrics: Metrics,
    after: AlwaysNewMetricsAllocator,
)
    requires
        AlwaysNewMetricsAllocator::vends(before, name, metrics, after),
    ensures
        metrics@.name == name@,
        call_ensures(Instant::now, (), metrics@.start_time),
        metrics@.dimensions == Map::<Seq<char>, DimensionView>::empty(),
        metrics@.measurements == Map::<Seq<char>, i64>::empty(),
        metrics@.distributions == Map::<Seq<char>, DistributionView>::empty(),
        metrics@.behaviors == 0,
{
}

/// A time that can have passed is the whole nanoseconds of a duration that the clock gave for the
/// start, and not a number computed from them.
pub proof fn law_passed(start: Instant, elapsed: u128)
    ensures
        metrics_factory::passed(start, elapsed) <==> exists|time: Duration|
            #![trigger call_ensures(Instant::elapsed, (&start,), time)]
            call_ensures(Instant::elapsed, (&start,), time) && call_ensures(
                Duration::as_nanos,
                (&time,),
                elapsed,
            ),
{
}

/// When a scope ends whose bit says that it is suppressed, the sink stays as it is. Any other is
/// handed to the sink with all that was recorded in it, and with the time that it took as the
/// distribution `totaltime`, unless the bit for that says otherwise: then it is handed on as it is.
pub proof fn law_scope_ends<A: MetricsAllocator, S: Sink<A::TMetricsRef>>(
    scope: A::TMetricsRef,
    before: S,
    elapsed: u128,
    after: S,
)
    requires
        MetricsFactory::<A, S>::emitted(before, scope, elapsed, after),
    ensures
        scope.metrics()@.behaviors & 0x01u32 != 0 ==> after == before,
        scope.metrics()@.behaviors & 0x01u32 == 0 ==> exists|sent: A::TMetricsRef| #[trigger]
            S::accepts(before, sent, after) && sent.reference() == scope.reference()
                && sent.metrics()@.name == scope.metrics()@.name && sent.metrics()@.start_time
                == scope.metrics()@.start_time && sent.metrics()@.dimensions
                == scope.metrics()@.dimensions && sent.metrics()@.measurements
                == scope.metrics()@.measurements && sent.metrics()@.behaviors
                == scope.metrics()@.behaviors && (scope.metrics()@.behaviors & 0x10u32 != 0
                ==> sent == scope) && (scope.metrics()@.behaviors & 0x10u32 == 0
                ==> sent.metrics()@.distributions == scope.metrics()@.distributions.insert(
                "totaltime"@,
                DistributionView::Nanoseconds(elapsed),
            )),
{
    law_behavior_bits(scope.metrics()@.behaviors);
    if scope.metrics()@.behaviors & 0x01u32 == 0 {
        let sent = choose|sent: A::TMetricsRef|
            {
                &&& #[trigger] S::accepts(before, sent, after)
                &&& MetricsFactory::<A, S>::completes(scope, elapsed, sent)
            };
        assert(S::accepts(before, sent, after));
    }
}

/// What a scope leaves for the sink is the scope itself if its bit says that the time is not
/// recorded, and else what was recorded with the time that it took.
pub proof fn law_complete<A: MetricsAllocator, S: Sink<A::TMetricsRef>>(
    scope: A::TMetricsRef,
    elapsed: u128,
    sent: A::TMetricsRef,
)
    requires
        MetricsFactory::<A, S>::completes(scope, elapsed, sent),
    ensures
        scope.metrics()@.behaviors & 0x10u32 != 0 ==> sent == scope,
        scope.metrics()@.behaviors & 0x10u32 == 0 ==> sent.metrics()@ == (MetricsView {
            distributions: scope.metrics()@.distributions.insert(
                "totaltime"@,
                DistributionView::Nanoseconds(elapsed),
            ),
            ..scope.metrics()@
        }),
        sent.reference() == scope.reference(),
{
    law_behavior_bits(scope.metrics()@.behaviors);
}

/// A stream that is handed something has all that it had, in the same order, and then that.
pub proof fn law_stream<T>(before: StreamSink<T>, to_sink: T, after: StreamSink<T>)
    requires
        StreamSink::<T>::accepts(before, to_sink, after),
    ensures
        after.accepted().len() == before.accepted().len() + 1,
        forall|i: int|
            0 <= i < before.accepted().len() ==> #[trigger] after.accepted()[i]
                == before.accepted()[i],
        after.accepted()[before.accepted().len() as int] == to_sink,
{
}

/// A batcher that takes the aggregations as they are gives all of them.
pub proof fn law_taken_batch(
    before: BatchTaker,
    now: SystemTime,
    covered_time: Duration,
    aggregations: AggregatedMetricsMap,
    batch: AggregatedMetricsMap,
    after: BatchTaker,
)
    requires
        BatchTaker::batches(before, now, covered_time, aggregations, batch, after),
    ensures
        batch@ == aggregations@,
        batch == aggregations,
{
}

/// A gauge that is asked for has the key that was asked for. Where the factory has a gauge of that
/// key, nothing changes and that gauge is given; else one is registered, with the state `default`.
/// No other gauge is touched, nor anything else.
pub proof fn law_asked_for_gauge<A, S>(
    before: MetricsFactory<A, S>,
    key: GaugeKey,
    default: GaugeState,
    gauge: Arc<Gauge>,
    after: MetricsFactory<A, S>,
    other: GaugeKey,
)
    requires
        MetricsFactory::vended_gauge(&before, key, default, gauge, &after),
    ensures
        gauge@.group == key.group,
        gauge@.dimensions == key.dimensions,
        gauge@.name == key.name,
        after.gauges().contains_key(key),
        after.vended_gauges().contains_key(key),
        after.vended_gauges()[key] == gauge,
        before.gauges().contains_key(key) ==> after.gauges()[key] == before.gauges()[key],
        !before.gauges().contains_key(key) ==> after.gauges()[key] == default,
        before.vended_gauges().contains_key(key) ==> before.vended_gauges()[key] == gauge,
        other != key ==> {
            &&& after.gauges().contains_key(other) == before.gauges().contains_key(other)
            &&& after.gauges().contains_key(other) ==> after.gauges()[other]
                == before.gauges()[other]
            &&& after.vended_gauges().contains_key(other) == before.vended_gauges().contains_key(
                other,
            )
            &&& after.vended_gauges().contains_key(other) ==> after.vended_gauges()[other]
                == before.vended_gauges()[other]
        },
        after.allocator() == before.allocator(),
        after.default_behaviors() == before.default_behaviors(),
        after.disabled() == before.disabled(),
        after.sink() == before.sink(),
{
}

/// A value that is observed changes the state of the gauge that observes it, and of no other.
pub proof fn law_observed_by_one<A, S>(
    gauges: Map<GaugeKey, GaugeState>,
    key: GaugeKey,
    value: i64,
    other: GaugeKey,
)
    ensures
        ({
            let after = MetricsFactory::<A, S>::observed(gauges, key, value);
            &&& after.contains_key(other) == gauges.contains_key(other)
            &&& gauges.contains_key(key) ==> after[key] == gauges[key].observed(value)
            &&& other != key && gauges.contains_key(other) ==> after[other] == gauges[other]
        }),
{
}

/// Factories that vend alike have the same allocator and the same settings; those of which one keeps
/// the gauges of the other have the same gauges in the same states; one without gauges has none.
pub proof fn law_alike<A, S>(factory: MetricsFactory<A, S>, other: MetricsFactory<A, S>)
    ensures
        factory.vends_like(&other) <==> factory.allocator() == other.allocator()
            && factory.default_behaviors() == other.default_behaviors() && factory.disabled()
            == other.disabled(),
        factory.behaves_like(&other) <==> factory.default_behaviors() == other.default_behaviors()
            && factory.disabled() == other.disabled(),
        factory.keeps_gauges(&other) <==> factory.gauges() == other.gauges()
            && factory.vended_gauges() == other.vended_gauges(),
        factory.has_no_gauges() ==> forall|key: GaugeKey|
            !(#[trigger] factory.gauges().contains_key(key)) && !factory.vended_gauges().contains_key(
                key,
            ),
{
}

} // verus!
