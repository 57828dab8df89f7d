//! The factory from which metrics and gauges are had.
use crate::aggregation::Aggregation;
use crate::allocator::{MetricsAllocator, MetricsRef, ReturnTarget};
use crate::gauge::{
    statistic_set_gauge, sum_gauge, DimensionsView, Gauge, GaugeDimensions, GaugeState,
    VendedGauges,
};
use crate::gauge_group::GaugeGroup;
use crate::linear_map::{Key, LinearMap};
use crate::metrics::MetricsBehavior;
use crate::pipeline::{
    AggregatedMetricsMap, AggregationBatcher, DimensionedMeasurementsMap, GaugeKey, Sink,
};
use crate::types::Name;
use crate::{gauge_group, linear_map, metrics, pipeline};
use std::sync::Arc;
use std::time::{Duration, Instant, SystemTime};
use vstd::prelude::*;

verus! {

/// Vends metrics for scopes and hands them to a sink when their scopes end. Vends gauges, and
/// reports from time to time what they observed.
#[derive(Debug)]
pub struct MetricsFactory<TMetricsAllocator, TSink> {
    allocator: TMetricsAllocator,
    default_metrics_behavior: u32,
    sink: TSink,
    disabled: bool,
    gauge_groups: LinearMap<Name, GaugeGroup>,
    vended: VendedGauges,
}

/// The gauges of all groups, each by its key.
spec fn all_gauges(groups: Map<Seq<char>, GaugeGroup>) -> Map<GaugeKey, GaugeState> {
    Map::new(
        |key: GaugeKey|
            groups.contains_key(key.group) && groups[key.group].gauges().contains_key(
                (key.dimensions, key.name),
            ),
        |key: GaugeKey| groups[key.group].gauges()[(key.dimensions, key.name)],
    )
}

/// Whether the clock can say that `elapsed` nanoseconds have passed since `start`.
pub open spec fn passed(start: Instant, elapsed: u128) -> bool {
    exists|time: Duration|
        #![trigger call_ensures(Instant::elapsed, (&start,), time)]
        {
            &&& call_ensures(Instant::elapsed, (&start,), time)
            &&& call_ensures(Duration::as_nanos, (&time,), elapsed)
        }
}

/// A group of that name is in the report as its gauges have it.
spec fn reported(
    group: GaugeGroup,
    name: Seq<char>,
    report: Map<Seq<char>, DimensionedMeasurementsMap>,
) -> bool {
    let measurements = gauge_group::measured(group.gauges());
    &&& report.contains_key(name) == (measurements != Map::<
        (DimensionsView, Seq<char>),
        Aggregation,
    >::empty())
    &&& report.contains_key(name) ==> {
        &&& pipeline::dimensioned(report[name]@) == measurements
        &&& pipeline::none_empty(report[name]@)
    }
}

/// Measurements without empty dimensions are empty if there is no measurement.
proof fn lemma_empty_measurements(measurements: DimensionedMeasurementsMap)
    requires
        pipeline::none_empty(measurements@),
    ensures
        (measurements@ == Map::<DimensionsView, LinearMap<Name, Aggregation>>::empty()) == (
        pipeline::dimensioned(measurements@) == Map::<
            (DimensionsView, Seq<char>),
            Aggregation,
        >::empty()),
{
    let none = Map::<(DimensionsView, Seq<char>), Aggregation>::empty();
    if pipeline::dimensioned(measurements@) == none {
        assert forall|dimensions: DimensionsView| !measurements@.contains_key(dimensions) by {
            if measurements@.contains_key(dimensions) {
                let named = measurements@[dimensions]@;
                assert(!(named =~= Map::<Seq<char>, Aggregation>::empty()));
                let name = choose|name: Seq<char>| named.contains_key(name);
                assert(pipeline::dimensioned(measurements@).contains_key((dimensions, name)));
            }
        }
        assert(measurements@ =~= Map::empty());
    } else {
        assert(measurements@ == Map::<DimensionsView, LinearMap<Name, Aggregation>>::empty()
            ==> pipeline::dimensioned(measurements@) =~= none);
    }
}

/// What was done group by group was done to all gauges.
proof fn lemma_report(
    before: LinearMap<Name, GaugeGroup>,
    after: LinearMap<Name, GaugeGroup>,
    report: AggregatedMetricsMap,
)
    requires
        before.keys().len() == before.values().len(),
        linear_map::distinct(before.keys()),
        after.keys() == before.keys(),
        after.values().len() == before.values().len(),
        forall|j: int|
            0 <= j < before.keys().len() ==> (#[trigger] after.values()[j]).gauges()
                == gauge_group::all_cleared(before.values()[j].gauges()),
        forall|j: int|
            0 <= j < before.keys().len() ==> reported(
                before.values()[j],
                (#[trigger] before.keys()[j])@,
                report@,
            ),
        forall|group: Seq<char>| #[trigger]
            report@.contains_key(group) ==> exists|j: int| #[trigger]
                linear_map::key_at(before.keys(), group, j),
    ensures
        pipeline::grouped(report@) == gauge_group::measured(all_gauges(before@)),
        pipeline::no_group_empty(report@),
        all_gauges(after@) == gauge_group::all_cleared(all_gauges(before@)),
{
    let gauges = all_gauges(before@);
    assert forall|group: Seq<char>|
        {
            &&& after@.contains_key(group) == before@.contains_key(group)
            &&& before@.contains_key(group) ==> {
                &&& after@[group].gauges() == gauge_group::all_cleared(before@[group].gauges())
                &&& reported(before@[group], group, report@)
            }
            &&& report@.contains_key(group) ==> before@.contains_key(group)
        } by {
        if exists|j: int| linear_map::key_at(before.keys(), group, j) {
            let j = choose|j: int| linear_map::key_at(before.keys(), group, j);
            linear_map::lemma_paired_at(before.keys(), before.values(), j);
            linear_map::lemma_paired_at(after.keys(), after.values(), j);
            assert(before.keys()[j]@ == group);
            assert(after.values()[j].gauges() == gauge_group::all_cleared(
                before.values()[j].gauges(),
            ));
        }
    }
    assert forall|key: GaugeKey|
        pipeline::grouped(report@).contains_key(key) == gauge_group::measured(
            gauges,
        ).contains_key(key) by {
        if gauge_group::measured(gauges).contains_key(key) {
            let group = before@[key.group];
            assert(gauge_group::measured(group.gauges()).contains_key((key.dimensions, key.name)));
        }
    }
    assert(pipeline::grouped(report@) =~= gauge_group::measured(gauges));
    assert(all_gauges(after@) =~= gauge_group::all_cleared(gauges));
}

impl<TMetricsAllocator, TSink> MetricsFactory<TMetricsAllocator, TSink> {
    /// The allocator that metrics are had from.
    pub closed spec fn allocator(&self) -> TMetricsAllocator {
        self.allocator
    }

    /// The sink that metrics are handed to.
    pub closed spec fn sink(&self) -> TSink {
        self.sink
    }

    /// The flags of the behaviors that metrics get.
    pub closed spec fn default_behaviors(&self) -> u32 {
        self.default_metrics_behavior
    }

    /// Whether this factory was disabled.
    pub closed spec fn disabled(&self) -> bool {
        self.disabled
    }

    /// The states of the gauges, each by its key.
    pub closed spec fn gauges(&self) -> Map<GaugeKey, GaugeState> {
        all_gauges(self.gauge_groups@)
    }

    /// The gauges as they were vended, each by its key.
    pub closed spec fn vended_gauges(&self) -> Map<GaugeKey, Arc<Gauge>> {
        self.vended@
    }

    /// Whether this factory has no gauges.
    pub open spec fn has_no_gauges(&self) -> bool {
        &&& self.gauges() == Map::<GaugeKey, GaugeState>::empty()
        &&& self.vended_gauges() == Map::<GaugeKey, Arc<Gauge>>::empty()
    }

    /// Whether two factories have the same gauges, in the same states.
    pub open spec fn keeps_gauges(&self, other: &Self) -> bool {
        &&& self.gauges() == other.gauges()
        &&& self.vended_gauges() == other.vended_gauges()
    }

    /// The flags of the behaviors that metrics of this factory start with.
    pub open spec fn scope_behaviors(&self) -> u32 {
        if self.disabled() {
            self.default_behaviors() | MetricsBehavior::Suppress.flag()
        } else {
            self.default_behaviors()
        }
    }

    /// Whether two factories give their metrics the same behaviors.
    pub open spec fn behaves_like(&self, other: &Self) -> bool {
        &&& self.default_behaviors() == other.default_behaviors()
        &&& self.disabled() == other.disabled()
    }

    /// Whether two factories vend the same metrics.
    pub open spec fn vends_like(&self, other: &Self) -> bool {
        &&& self.allocator() == other.allocator()
        &&& self.behaves_like(other)
    }

    /// A factory with behaviors and an allocator of its own, which hands complete metrics to
    /// `sink`.
    pub fn new_with_allocator(
        sink: TSink,
        behaviors: &[MetricsBehavior],
        allocator: TMetricsAllocator,
    ) -> (factory: Self)
        ensures
            factory.allocator() == allocator,
            factory.sink() == sink,
            factory.default_behaviors() == metrics::flags(behaviors@),
            !factory.disabled(),
            factory.has_no_gauges(),
    {
        let mut default_metrics_behavior: u32 = 0;
        let mut i: usize = 0;
        assert(0u32 | 0u32 == 0u32) by (bit_vector);
        while i < behaviors.len()
            invariant
                i <= behaviors.len(),
                default_metrics_behavior == metrics::flags(behaviors@.take(i as int)),
            decreases behaviors.len() - i,
        {
            default_metrics_behavior = default_metrics_behavior | behaviors[i].bits();
            proof {
                metrics::lemma_one_more_flag(behaviors@.take(i as int), behaviors@[i as int]);
                assert(behaviors@.take(i as int).push(behaviors@[i as int]) =~= behaviors@.take(
                    i + 1,
                ));
            }
            i += 1;
        }
        assert(behaviors@.take(i as int) =~= behaviors@);
        let factory = MetricsFactory {
            allocator,
            default_metrics_behavior,
            sink,
            disabled: false,
            gauge_groups: LinearMap::new(),
            vended: VendedGauges::new(),
        };
        assert(factory.gauges() =~= Map::<GaugeKey, GaugeState>::empty());
        factory
    }

    /// Disables all metrics that this factory vends from now on.
    pub fn disable(&mut self)
        ensures
            final(self).disabled(),
            final(self).allocator() == old(self).allocator(),
            final(self).sink() == old(self).sink(),
            final(self).default_behaviors() == old(self).default_behaviors(),
            final(self).keeps_gauges(old(self)),
    {
        self.disabled = true
    }

    /// The sink that metrics are handed to, to take out of it what it keeps.
    pub fn sink_mut(&mut self) -> (sink: &mut TSink)
        ensures
            *sink == old(self).sink(),
            final(self).sink() == *final(sink),
            final(self).vends_like(old(self)),
            final(self).keeps_gauges(old(self)),
    {
        &mut self.sink
    }

    /// Registers the gauge of a group, dimensions and a name with the state `default`, unless
    /// there is one.
    fn register(
        &mut self,
        gauge_group: Name,
        gauge_name: Name,
        gauge_dimensions: GaugeDimensions,
        default: GaugeState,
    )
        ensures
            ({
                let key = GaugeKey {
                    group: gauge_group@,
                    dimensions: gauge_dimensions@,
                    name: gauge_name@,
                };
                final(self).gauges() == old(self).gauges().insert(
                    key,
                    linear_map::found_or(old(self).gauges(), key, default),
                )
            }),
            final(self).vended_gauges() == old(self).vended_gauges(),
            final(self).vends_like(old(self)),
            final(self).sink() == old(self).sink(),
    {
        let ghost key = GaugeKey {
            group: gauge_group@,
            dimensions: gauge_dimensions@,
            name: gauge_name@,
        };
        let group = self.gauge_groups.get_or_insert(gauge_group, GaugeGroup::default());
        let ghost before = *group;
        let ghost after = *final(group);
        let state = group.dimensioned_gauge(gauge_name, gauge_dimensions, default);
        proof {
            assert(old(self).gauges().contains_key(key) == before.gauges().contains_key(
                (key.dimensions, key.name),
            ));
            assert(all_gauges(old(self).gauge_groups@.insert(key.group, after))
                =~= old(self).gauges().insert(key, *final(state)));
        }
    }

    /// Whether `gauge` is the gauge of `key`: the one that `before` vended already, with the state
    /// that it has, or a new one with the state `default`. All else in `after` is as it was.
    pub open spec fn vended_gauge(
        before: &Self,
        key: GaugeKey,
        default: GaugeState,
        gauge: Arc<Gauge>,
        after: &Self,
    ) -> bool {
        &&& gauge@ == key
        &&& gauge == linear_map::found_or(before.vended_gauges(), key, gauge)
        &&& after.vended_gauges() == before.vended_gauges().insert(key, gauge)
        &&& after.gauges() == before.gauges().insert(
            key,
            linear_map::found_or(before.gauges(), key, default),
        )
        &&& after.vends_like(before)
        &&& after.sink() == before.sink()
    }

    /// The gauge of a group, dimensions and a name. Where there was none, `default` becomes its
    /// state. A gauge that is asked for again is the one that was vended before.
    pub fn get_gauge(
        &mut self,
        gauge_group: Name,
        gauge_name: Name,
        gauge_dimensions: GaugeDimensions,
        default: GaugeState,
    ) -> (gauge: Arc<Gauge>)
        ensures
            Self::vended_gauge(
                old(self),
                GaugeKey {
                    group: gauge_group@,
                    dimensions: gauge_dimensions@,
                    name: gauge_name@,
                },
                default,
                gauge,
                final(self),
            ),
    {
        self.register(
            gauge_group.clone(),
            gauge_name.clone(),
            gauge_dimensions.clone(),
            default,
        );
        self.vended.vend(Gauge::new(gauge_group, gauge_dimensions, gauge_name))
    }

    /// The registry with a value observed by the gauge of a key, where there is one.
    pub open spec fn observed(
        gauges: Map<GaugeKey, GaugeState>,
        key: GaugeKey,
        value: i64,
    ) -> Map<GaugeKey, GaugeState> {
        if gauges.contains_key(key) {
            gauges.insert(key, gauges[key].observed(value))
        } else {
            gauges
        }
    }

    /// The gauge observes a value. Gives whether this factory has the gauge; one that has not
    /// stays as it is.
    pub fn observe(&mut self, gauge: &Gauge, value: i64) -> (has: bool)
        ensures
            has == old(self).gauges().contains_key(gauge@),
            final(self).gauges() == Self::observed(old(self).gauges(), gauge@, value),
            old(self).gauges().contains_key(gauge@) ==> final(self).gauges()
                == old(self).gauges().insert(gauge@, old(self).gauges()[gauge@].observed(value)),
            !old(self).gauges().contains_key(gauge@) ==> final(self).gauges()
                == old(self).gauges(),
            final(self).vended_gauges() == old(self).vended_gauges(),
            final(self).vends_like(old(self)),
            final(self).sink() == old(self).sink(),
    {
        let ghost key = gauge@;
        match self.gauge_groups.get_mut(gauge.group()) {
            Some(group) => {
                let ghost after = *final(group);
                let state = group.gauge_mut(gauge.name(), gauge.dimensions());
                let has = match state {
                    Some(state) => {
                        state.observe(value);
                        true
                    },
                    None => false,
                };
                proof {
                    assert(all_gauges(old(self).gauge_groups@.insert(key.group, after))
                        =~= Self::observed(old(self).gauges(), key, value));
                }
                has
            },
            None => false,
        }
    }

    /// Get a gauge within a group, of a particular name.
    ///
    /// Gauges are aggregated as statistic sets. Keep the gauge that this function gives, and hand
    /// it to [`observe`](Self::observe) with each value. Gauges are less flexible than metrics,
    /// but they are convenient for values that are recorded often.
    pub fn gauge_statistic_set<G: Into<Name>, N: Into<Name>>(
        &mut self,
        gauge_group: G,
        gauge_name: N,
    ) -> (gauge: Arc<Gauge>)
        ensures
            exists|group: Name, name: Name|
                {
                    &&& #[trigger] call_ensures(<G as Into<Name>>::into, (gauge_group,), group)
                    &&& #[trigger] call_ensures(<N as Into<Name>>::into, (gauge_name,), name)
                    &&& Self::vended_gauge(
                        old(self),
                        GaugeKey { group: group@, dimensions: Map::empty(), name: name@ },
                        GaugeState::StatisticSet(None),
                        gauge,
                        final(self),
                    )
                },
    {
        self.dimensioned_gauge_statistic_set(gauge_group, gauge_name, GaugeDimensions::default())
    }

    /// Get a gauge within a group, of a particular name, with specified dimensions.
    pub fn dimensioned_gauge_statistic_set<G: Into<Name>, N: Into<Name>>(
        &mut self,
        gauge_group: G,
        gauge_name: N,
        gauge_dimensions: GaugeDimensions,
    ) -> (gauge: Arc<Gauge>)
        ensures
            exists|group: Name, name: Name|
                {
                    &&& #[trigger] call_ensures(<G as Into<Name>>::into, (gauge_group,), group)
                    &&& #[trigger] call_ensures(<N as Into<Name>>::into, (gauge_name,), name)
                    &&& Self::vended_gauge(
                        old(self),
                        GaugeKey { group: group@, dimensions: gauge_dimensions@, name: name@ },
                        GaugeState::StatisticSet(None),
                        gauge,
                        final(self),
                    )
                },
    {
        let group = gauge_group.into();
        let name = gauge_name.into();
        self.get_gauge(group, name, gauge_dimensions, statistic_set_gauge())
    }

    /// Get a gauge within a group, of a particular name, with specified dimensions.
    pub fn dimensioned_gauge_sum<G: Into<Name>, N: Into<Name>>(
        &mut self,
        gauge_group: G,
        gauge_name: N,
        gauge_dimensions: GaugeDimensions,
    ) -> (gauge: Arc<Gauge>)
        ensures
            exists|group: Name, name: Name|
                {
                    &&& #[trigger] call_ensures(<G as Into<Name>>::into, (gauge_group,), group)
                    &&& #[trigger] call_ensures(<N as Into<Name>>::into, (gauge_name,), name)
                    &&& Self::vended_gauge(
                        old(self),
                        GaugeKey { group: group@, dimensions: gauge_dimensions@, name: name@ },
                        GaugeState::Sum(None),
                        gauge,
                        final(self),
                    )
                },
    {
        let group = gauge_group.into();
        let name = gauge_name.into();
        self.get_gauge(group, name, gauge_dimensions, sum_gauge())
    }

    /// Resets each gauge, and gives the aggregations of those that observed something since the
    /// last report. A group of which no gauge did is left out.
    pub fn report_gauges(&mut self) -> (report: AggregatedMetricsMap)
        ensures
            pipeline::grouped(report@) == gauge_group::measured(old(self).gauges()),
            pipeline::no_group_empty(report@),
            final(self).gauges() == gauge_group::all_cleared(old(self).gauges()),
            final(self).vended_gauges() == old(self).vended_gauges(),
            final(self).vends_like(old(self)),
            final(self).sink() == old(self).sink(),
    {
        let mut report: AggregatedMetricsMap = LinearMap::new();
        let len: usize = self.gauge_groups.len();
        let ghost before = self.gauge_groups;
        let mut i: usize = 0;
        while i < len
            invariant
                i <= len,
                len == before.keys().len(),
                len == before.values().len(),
                before == old(self).gauge_groups,
                linear_map::distinct(before.keys()),
                self.vends_like(old(self)),
                self.sink == old(self).sink,
                self.vended == old(self).vended,
                self.gauge_groups.keys() == before.keys(),
                self.gauge_groups.values().len() == len,
                forall|j: int|
                    0 <= j < i ==> (#[trigger] self.gauge_groups.values()[j]).gauges()
                        == gauge_group::all_cleared(before.values()[j].gauges()),
                forall|j: int|
                    i <= j < len ==> #[trigger] self.gauge_groups.values()[j]
                        == before.values()[j],
                forall|j: int|
                    0 <= j < i ==> reported(
                        before.values()[j],
                        (#[trigger] before.keys()[j])@,
                        report@,
                    ),
                forall|group: Seq<char>| #[trigger]
                    report@.contains_key(group) ==> exists|j: int|
                        j < i && #[trigger] linear_map::key_at(before.keys(), group, j),
            decreases len - i,
        {
            let name = self.gauge_groups.key(i).duplicate();
            let measurements = self.gauge_groups.value_mut(i).reset();
            proof {
                assert(linear_map::key_at(before.keys(), name@, i as int));
                assert(!report@.contains_key(name@));
                lemma_empty_measurements(measurements);
            }
            if !measurements.is_empty() {
                report.insert(name, measurements);
            }
            i += 1;
        }
        proof {
            lemma_report(before, self.gauge_groups, report);
        }
        report
    }

    /// A batch of what the gauges observed since the last report, which is `period` ago. The
    /// batcher is handed what [`report_gauges`](Self::report_gauges) gives.
    pub fn batch_gauges<TAggregationBatcher: AggregationBatcher>(
        &mut self,
        now: SystemTime,
        period: Duration,
        batcher: &mut TAggregationBatcher,
    ) -> (batch: TAggregationBatcher::TBatch)
        ensures
            exists|report: AggregatedMetricsMap|
                {
                    &&& #[trigger] TAggregationBatcher::batches(
                        *old(batcher),
                        now,
                        period,
                        report,
                        batch,
                        *final(batcher),
                    )
                    &&& pipeline::grouped(report@) == gauge_group::measured(old(self).gauges())
                    &&& pipeline::no_group_empty(report@)
                },
            final(self).gauges() == gauge_group::all_cleared(old(self).gauges()),
            final(self).vended_gauges() == old(self).vended_gauges(),
            final(self).vends_like(old(self)),
            final(self).sink() == old(self).sink(),
    {
        let mut gauges = self.report_gauges();
        batcher.batch_aggregations(now, period, &mut gauges)
    }
}

impl<TMetricsAllocator, TSink> MetricsFactory<TMetricsAllocator, TSink> where
    TMetricsAllocator: MetricsAllocator,
 {
    /// Whether an allocator that was `before` vends metrics for `name` and is `after` then, and
    /// `scope` are these metrics with the behaviors `behaviors` and with nothing else changed.
    pub open spec fn vended(
        before: TMetricsAllocator,
        name: Name,
        behaviors: u32,
        scope: TMetricsAllocator::TMetricsRef,
        after: TMetricsAllocator,
    ) -> bool {
        exists|fresh: TMetricsAllocator::TMetricsRef|
            {
                &&& #[trigger] TMetricsAllocator::vends(before, name, fresh, after)
                &&& scope.metrics()@ == fresh.metrics()@.with_behaviors(behaviors)
                &&& scope.reference() == fresh.reference()
            }
    }

    /// Metrics from the allocator, which is asked once, with the behaviors of this factory.
    ///
    /// Consider [`record_scope`](Self::record_scope) instead. The metrics must be handed to
    /// [`emit`](Self::emit) of this factory, or else memory may leak, depending on the allocator.
    pub(crate) fn create_new_raw_metrics<N: Into<Name>>(
        &mut self,
        metrics_name: N,
    ) -> (scope: TMetricsAllocator::TMetricsRef)
        ensures
            exists|name: Name|
                {
                    &&& #[trigger] call_ensures(<N as Into<Name>>::into, (metrics_name,), name)
                    &&& Self::vended(
                        old(self).allocator(),
                        name,
                        old(self).scope_behaviors(),
                        scope,
                        final(self).allocator(),
                    )
                },
            final(self).behaves_like(old(self)),
            final(self).sink() == old(self).sink(),
            final(self).keeps_gauges(old(self)),
    {
        let name = metrics_name.into();
        let mut m = self.allocator.new_metrics(name);
        m.as_mut().set_raw_behavior(self.default_metrics_behavior);
        if self.disabled {
            m.as_mut().add_behavior(MetricsBehavior::Suppress);
        }
        m
    }

    /// Metrics for a scope that starts now. When the scope ends, hand them to
    /// [`emit`](Self::emit) of this factory, which records a `totaltime` in nanoseconds. Metrics
    /// that are dropped instead are not emitted, and may leak memory, depending on the allocator.
    #[must_use]
    pub fn record_scope<N: Into<Name>>(
        &mut self,
        scope_name: N,
    ) -> (scope: TMetricsAllocator::TMetricsRef)
        ensures
            exists|name: Name|
                {
                    &&& #[trigger] call_ensures(<N as Into<Name>>::into, (scope_name,), name)
                    &&& Self::vended(
                        old(self).allocator(),
                        name,
                        old(self).scope_behaviors(),
                        scope,
                        final(self).allocator(),
                    )
                },
            final(self).behaves_like(old(self)),
            final(self).sink() == old(self).sink(),
            final(self).keeps_gauges(old(self)),
    {
        self.create_new_raw_metrics(scope_name)
    }

    /// Metrics for a scope that starts now, with a behavior of its own. When the scope ends, hand
    /// them to [`emit`](Self::emit) of this factory, which records a `totaltime` in nanoseconds.
    /// Metrics that are dropped instead are not emitted, and may leak memory, depending on the
    /// allocator.
    #[must_use]
    pub fn record_scope_with_behavior<N: Into<Name>>(
        &mut self,
        scope_name: N,
        behavior: MetricsBehavior,
    ) -> (scope: TMetricsAllocator::TMetricsRef)
        ensures
            exists|name: Name|
                {
                    &&& #[trigger] call_ensures(<N as Into<Name>>::into, (scope_name,), name)
                    &&& Self::vended(
                        old(self).allocator(),
                        name,
                        old(self).scope_behaviors() | behavior.flag(),
                        scope,
                        final(self).allocator(),
                    )
                },
            final(self).behaves_like(old(self)),
            final(self).sink() == old(self).sink(),
            final(self).keeps_gauges(old(self)),
    {
        let mut m = self.create_new_raw_metrics(scope_name);
        m.as_mut().add_behavior(behavior);
        m
    }
}

impl<TMetricsAllocator, TSink> MetricsFactory<TMetricsAllocator, TSink> where
    TMetricsAllocator: MetricsAllocator,
    TSink: Sink<TMetricsAllocator::TMetricsRef>,
 {
    /// Whether `sent` is what a scope with the metrics `scope`, which took `elapsed` nanoseconds,
    /// leaves for the sink.
    pub open spec fn completes(
        scope: TMetricsAllocator::TMetricsRef,
        elapsed: u128,
        sent: TMetricsAllocator::TMetricsRef,
    ) -> bool {
        if metrics::flagged(scope.metrics()@.behaviors, MetricsBehavior::SuppressTotalTime) {
            sent == scope
        } else {
            &&& sent.metrics()@ == scope.metrics()@.with_total_time(elapsed)
            &&& sent.reference() == scope.reference()
        }
    }

    /// What becomes of the sink when a scope with the metrics `scope`, which took `elapsed`
    /// nanoseconds, ends: nothing if the metrics are suppressed, else it is handed the metrics.
    pub open spec fn emitted(
        before: TSink,
        scope: TMetricsAllocator::TMetricsRef,
        elapsed: u128,
        after: TSink,
    ) -> bool {
        if metrics::flagged(scope.metrics()@.behaviors, MetricsBehavior::Suppress) {
            after == before
        } else {
            exists|sent: TMetricsAllocator::TMetricsRef|
                {
                    &&& #[trigger] TSink::accepts(before, sent, after)
                    &&& Self::completes(scope, elapsed, sent)
                }
        }
    }

    /// Ends a scope that took `elapsed` nanoseconds.
    pub fn emit_elapsed(&mut self, metrics: TMetricsAllocator::TMetricsRef, elapsed: u128)
        ensures
            Self::emitted(old(self).sink(), metrics, elapsed, final(self).sink()),
            final(self).vends_like(old(self)),
            final(self).keeps_gauges(old(self)),
    {
        let mut metrics = metrics;
        if metrics.as_ref().has_behavior(MetricsBehavior::Suppress) {
            return;
        }
        if !metrics.as_ref().has_behavior(MetricsBehavior::SuppressTotalTime) {
            metrics.as_mut().record_total_time(elapsed);
        }
        self.sink.accept(metrics)
    }

    /// Ends a scope, with the metrics that were vended for it.
    pub fn emit(&mut self, metrics: TMetricsAllocator::TMetricsRef)
        ensures
            exists|elapsed: u128| #[trigger]
                Self::emitted(old(self).sink(), metrics, elapsed, final(self).sink()) && passed(
                    metrics.metrics()@.start_time,
                    elapsed,
                ),
            final(self).vends_like(old(self)),
            final(self).keeps_gauges(old(self)),
    {
        let passed = metrics.as_ref().start_time.elapsed();
        let elapsed: u128 = passed.as_nanos();
        self.emit_elapsed(metrics, elapsed)
    }
}

impl<TMetricsAllocator, TSink> ReturnTarget<
    TMetricsAllocator::TMetricsRef,
> for MetricsFactory<TMetricsAllocator, TSink> where
    TMetricsAllocator: MetricsAllocator,
    TSink: Sink<TMetricsAllocator::TMetricsRef>,
 {
    fn return_referent(&mut self, to_return: TMetricsAllocator::TMetricsRef)
        ensures
            exists|elapsed: u128| #[trigger]
                Self::emitted(old(self).sink(), to_return, elapsed, final(self).sink()) && passed(
                    to_return.metrics()@.start_time,
                    elapsed,
                ),
            final(self).vends_like(old(self)),
            final(self).keeps_gauges(old(self)),
    {
        self.emit(to_return)
    }
}

impl<TMetricsAllocator, TSink> MetricsFactory<TMetricsAllocator, TSink> where
    TMetricsAllocator: Default,
 {
    /// A factory that hands complete metrics to `sink`.
    pub fn new(sink: TSink) -> (factory: Self)
        ensures
            call_ensures(<TMetricsAllocator as Default>::default, (), factory.allocator()),
            factory.sink() == sink,
            factory.default_behaviors() == 0,
            !factory.disabled(),
            factory.has_no_gauges(),
    {
        assert(0u32 | 0u32 == 0u32) by (bit_vector);
        MetricsFactory::new_with_behaviors(sink, &[MetricsBehavior::Default])
    }

    /// A factory with behaviors of its own that hands complete metrics to `sink`.
    pub fn new_with_behaviors(sink: TSink, behaviors: &[MetricsBehavior]) -> (factory: Self)
        ensures
            call_ensures(<TMetricsAllocator as Default>::default, (), factory.allocator()),
            factory.sink() == sink,
            factory.default_behaviors() == metrics::flags(behaviors@),
            !factory.disabled(),
            factory.has_no_gauges(),
    {
        MetricsFactory::new_with_allocator(sink, behaviors, TMetricsAllocator::default())
    }
}

impl<TMetricsAllocator, TSink> Default for MetricsFactory<TMetricsAllocator, TSink> where
    TSink: Default,
    TMetricsAllocator: Default,
 {
    fn default() -> (factory: Self)
        ensures
            call_ensures(<TMetricsAllocator as Default>::default, (), factory.allocator()),
            call_ensures(<TSink as Default>::default, (), factory.sink()),
            factory.default_behaviors() == 0,
            !factory.disabled(),
            factory.has_no_gauges(),
    {
        Self::new(TSink::default())
    }
}

impl<TMetricsAllocator, TSink> Clone for MetricsFactory<TMetricsAllocator, TSink> where
    TSink: Clone,
    TMetricsAllocator: Clone,
 {
    /// Another factory with the same allocator, the same sink and the same behaviors, and without
    /// gauges. This is not free: keep the clone rather than cloning again and again.
    fn clone(&self) -> (factory: Self)
        ensures
            cloned(self.allocator(), factory.allocator()),
            cloned(self.sink(), factory.sink()),
            factory.default_behaviors() == self.default_behaviors(),
            factory.disabled() == self.disabled(),
            factory.has_no_gauges(),
    {
        let factory = MetricsFactory {
            allocator: self.allocator.clone(),
            default_metrics_behavior: self.default_metrics_behavior,
            sink: self.sink.clone(),
            disabled: self.disabled,
            gauge_groups: LinearMap::new(),
            vended: VendedGauges::new(),
        };
        assert(factory.gauges() =~= Map::<GaugeKey, GaugeState>::empty());
        factory
    }
}

} // verus!
