//! Metrics: what is recorded in a scope.
use crate::gauge::DimensionsView;
use crate::linear_map::LinearMap;
use crate::types::{Dimension, Name};
use std::time::Instant;
use vstd::prelude::*;
use vstd::std_specs::convert::FromSpecImpl;

verus! {

/// How metrics are treated when their scope ends.
#[derive(Debug, Clone, Copy, PartialEq, Eq, Structural)]
pub enum MetricsBehavior {
    /// Nothing special.
    Default,
    /// The metrics are not handed to the sink.
    Suppress,
    /// The total time is not recorded.
    SuppressTotalTime,
}

impl MetricsBehavior {
    /// The flag that stands for this behavior.
    pub open spec fn flag(self) -> u32 {
        match self {
            MetricsBehavior::Default => 0x00,
            MetricsBehavior::Suppress => 0x01,
            MetricsBehavior::SuppressTotalTime => 0x10,
        }
    }

    /// The flag that stands for this behavior.
    pub fn bits(self) -> (bits: u32)
        ensures
            bits == self.flag(),
    {
        match self {
            MetricsBehavior::Default => 0x00,
            MetricsBehavior::Suppress => 0x01,
            MetricsBehavior::SuppressTotalTime => 0x10,
        }
    }
}

/// Whether the flag of `behavior` is among `behaviors`.
pub open spec fn flagged(behaviors: u32, behavior: MetricsBehavior) -> bool {
    behaviors & behavior.flag() != 0
}

/// The flags of all of `behaviors`.
pub open spec fn flags(behaviors: Seq<MetricsBehavior>) -> u32 {
    (if behaviors.contains(MetricsBehavior::Suppress) {
        MetricsBehavior::Suppress.flag()
    } else {
        0
    }) | (if behaviors.contains(MetricsBehavior::SuppressTotalTime) {
        MetricsBehavior::SuppressTotalTime.flag()
    } else {
        0
    })
}

/// One more behavior adds its flag.
pub proof fn lemma_one_more_flag(behaviors: Seq<MetricsBehavior>, behavior: MetricsBehavior)
    ensures
        flags(behaviors.push(behavior)) == flags(behaviors) | behavior.flag(),
{
    let longer = behaviors.push(behavior);
    assert forall|b: MetricsBehavior|
        longer.contains(b) == (behaviors.contains(b) || b == behavior) by {
        if behaviors.contains(b) {
            let i = choose|i: int| 0 <= i < behaviors.len() && behaviors[i] == b;
            assert(longer[i] == b);
        }
        assert(longer[behaviors.len() as int] == behavior);
    }
    assert(forall|a: u32| a | 0u32 == a) by (bit_vector);
    assert((0u32 | 0u32) | 0x01u32 == 0x01u32 | 0u32 && (0u32 | 0x10u32) | 0x01u32 == 0x01u32
        | 0x10u32 && (0x01u32 | 0u32) | 0x01u32 == 0x01u32 | 0u32 && (0x01u32 | 0x10u32) | 0x01u32
        == 0x01u32 | 0x10u32 && (0u32 | 0u32) | 0x10u32 == 0u32 | 0x10u32 && (0u32 | 0x10u32)
        | 0x10u32 == 0u32 | 0x10u32 && (0x01u32 | 0u32) | 0x10u32 == 0x01u32 | 0x10u32 && (0x01u32
        | 0x10u32) | 0x10u32 == 0x01u32 | 0x10u32) by (bit_vector);
}

/// What a [`Distribution`] holds.
pub enum DistributionView {
    Value(i64),
    Values(Seq<i64>),
    Nanoseconds(u128),
}

/// Observations of a distribution.
#[derive(Debug)]
pub enum Distribution {
    /// One observed value.
    Value(i64),
    /// A number of observed values.
    Values(Vec<i64>),
    /// An observed time.
    Nanoseconds(u128),
}

impl View for Distribution {
    type V = DistributionView;

    open spec fn view(&self) -> DistributionView {
        match self {
            Distribution::Value(value) => DistributionView::Value(*value),
            Distribution::Values(values) => DistributionView::Values(values@),
            Distribution::Nanoseconds(nanoseconds) => DistributionView::Nanoseconds(*nanoseconds),
        }
    }
}

impl From<i64> for Distribution {
    fn from(value: i64) -> Self {
        Distribution::Value(value)
    }
}

impl FromSpecImpl<i64> for Distribution {
    open spec fn obeys_from_spec() -> bool {
        true
    }

    open spec fn from_spec(value: i64) -> Self {
        Distribution::Value(value)
    }
}

impl From<Vec<i64>> for Distribution {
    fn from(values: Vec<i64>) -> Self {
        Distribution::Values(values)
    }
}

impl FromSpecImpl<Vec<i64>> for Distribution {
    open spec fn obeys_from_spec() -> bool {
        true
    }

    open spec fn from_spec(values: Vec<i64>) -> Self {
        Distribution::Values(values)
    }
}

/// What [`Metrics`] hold.
#[verifier::ext_equal]
pub struct MetricsView {
    pub name: Seq<char>,
    pub start_time: Instant,
    pub dimensions: DimensionsView,
    pub measurements: Map<Seq<char>, i64>,
    pub distributions: Map<Seq<char>, DistributionView>,
    pub behaviors: u32,
}

/// The name under which the time that a scope took is recorded.
pub open spec fn total_time() -> Seq<char> {
    "totaltime"@
}

/// The name under which the time that a scope took is recorded.
fn total_time_name() -> (name: Name)
    ensures
        name@ == total_time(),
{
    Name::from("totaltime")
}

impl MetricsView {
    /// These metrics with other behaviors.
    pub open spec fn with_behaviors(self, behaviors: u32) -> MetricsView {
        MetricsView { behaviors, ..self }
    }

    /// These metrics with the time that their scope took, in nanoseconds.
    pub open spec fn with_total_time(self, elapsed: u128) -> MetricsView {
        MetricsView {
            distributions: self.distributions.insert(
                total_time(),
                DistributionView::Nanoseconds(elapsed),
            ),
            ..self
        }
    }
}

/// What is recorded in a scope.
#[derive(Debug)]
pub struct Metrics {
    pub name: Name,
    pub start_time: Instant,
    pub dimensions: LinearMap<Name, Dimension>,
    pub measurements: LinearMap<Name, i64>,
    pub distributions: LinearMap<Name, Distribution>,
    pub behaviors: u32,
}

impl View for Metrics {
    type V = MetricsView;

    open spec fn view(&self) -> MetricsView {
        MetricsView {
            name: self.name@,
            start_time: self.start_time,
            dimensions: self.dimensions@.map_values(|dimension: Dimension| dimension@),
            measurements: self.measurements@,
            distributions: self.distributions@.map_values(
                |distribution: Distribution| distribution@,
            ),
            behaviors: self.behaviors,
        }
    }
}

impl Metrics {
    /// Metrics of a scope that started at `start_time`, in which nothing is recorded yet.
    pub fn new(name: Name, start_time: Instant) -> (metrics: Self)
        ensures
            metrics@ == (MetricsView {
                name: name@,
                start_time,
                dimensions: Map::empty(),
                measurements: Map::empty(),
                distributions: Map::empty(),
                behaviors: 0,
            }),
    {
        let metrics = Metrics {
            name,
            start_time,
            dimensions: LinearMap::new(),
            measurements: LinearMap::new(),
            distributions: LinearMap::new(),
            behaviors: 0,
        };
        proof {
            assert(metrics@.dimensions =~= Map::empty());
            assert(metrics@.distributions =~= Map::empty());
        }
        metrics
    }

    /// Records a dimension, in place of the one of that name.
    pub fn dimension<N: Into<Name>, D: Into<Dimension>>(&mut self, name: N, value: D)
        ensures
            exists|n: Name, d: Dimension|
                {
                    &&& #[trigger] call_ensures(<N as Into<Name>>::into, (name,), n)
                    &&& #[trigger] call_ensures(<D as Into<Dimension>>::into, (value,), d)
                    &&& final(self)@ == (MetricsView {
                        dimensions: old(self)@.dimensions.insert(n@, d@),
                        ..old(self)@
                    })
                },
    {
        let n = name.into();
        let d = value.into();
        self.dimensions.insert(n, d);
        assert(self@.dimensions =~= old(self)@.dimensions.insert(n@, d@));
    }

    /// Records a plain number, in place of the one of that name.
    pub fn measurement<N: Into<Name>>(&mut self, name: N, value: i64)
        ensures
            exists|n: Name|
                {
                    &&& #[trigger] call_ensures(<N as Into<Name>>::into, (name,), n)
                    &&& final(self)@ == (MetricsView {
                        measurements: old(self)@.measurements.insert(n@, value),
                        ..old(self)@
                    })
                },
    {
        let n = name.into();
        self.measurements.insert(n, value);
    }

    /// Records observations of a distribution, in place of those of that name.
    pub fn distribution<N: Into<Name>, D: Into<Distribution>>(&mut self, name: N, value: D)
        ensures
            exists|n: Name, d: Distribution|
                {
                    &&& #[trigger] call_ensures(<N as Into<Name>>::into, (name,), n)
                    &&& #[trigger] call_ensures(<D as Into<Distribution>>::into, (value,), d)
                    &&& final(self)@ == (MetricsView {
                        distributions: old(self)@.distributions.insert(n@, d@),
                        ..old(self)@
                    })
                },
    {
        let n = name.into();
        let d = value.into();
        self.distributions.insert(n, d);
        assert(self@.distributions =~= old(self)@.distributions.insert(n@, d@));
    }

    /// Records the time that the scope took, in nanoseconds.
    pub fn record_total_time(&mut self, elapsed: u128)
        ensures
            final(self)@ == old(self)@.with_total_time(elapsed),
    {
        self.distributions.insert(total_time_name(), Distribution::Nanoseconds(elapsed));
        assert(self@.distributions =~= old(self)@.with_total_time(elapsed).distributions);
    }

    /// Whether these metrics have a behavior.
    pub fn has_behavior(&self, behavior: MetricsBehavior) -> (has: bool)
        ensures
            has == flagged(self@.behaviors, behavior),
    {
        self.behaviors & behavior.bits() != 0
    }

    /// Adds a behavior to those that these metrics have.
    pub fn add_behavior(&mut self, behavior: MetricsBehavior)
        ensures
            final(self)@ == old(self)@.with_behaviors(old(self)@.behaviors | behavior.flag()),
    {
        self.behaviors = self.behaviors | behavior.bits();
    }

    /// Gives these metrics the behaviors whose flags are in `behaviors`, and no other.
    pub fn set_raw_behavior(&mut self, behaviors: u32)
        ensures
            final(self)@ == old(self)@.with_behaviors(behaviors),
    {
        self.behaviors = behaviors;
    }
}

} // verus!
