//! Gauges and the dimensions that tell them apart.
use crate::aggregation::{wrapping_sum, wrapping_successor, Aggregation, StatisticSet, Sum};
use crate::linear_map::{Key, LinearMap};
use crate::pipeline::GaugeKey;
use crate::types::{Dimension, DimensionView, Name};
use crate::{linear_map, meaning};
use std::sync::Arc;
use vstd::prelude::*;

verus! {

/// What a gauge accumulates of the values that it observes until it is reset.
#[derive(Debug)]
pub enum GaugeState {
    /// Accumulates a statistic set. There is none as long as nothing was observed.
    StatisticSet(Option<StatisticSet>),
    /// Accumulates a sum. There is none as long as nothing was observed.
    Sum(Option<Sum>),
}

impl GaugeState {
    /// This state after one more observed value.
    pub open spec fn observed(self, value: i64) -> GaugeState {
        match self {
            GaugeState::StatisticSet(None) => GaugeState::StatisticSet(
                Some(StatisticSet { min: value, max: value, sum: value, count: 1 }),
            ),
            GaugeState::StatisticSet(Some(set)) => GaugeState::StatisticSet(
                Some(
                    StatisticSet {
                        min: if value < set.min { value } else { set.min },
                        max: if value > set.max { value } else { set.max },
                        sum: crate::aggregation::wrapped(set.sum + value),
                        count: crate::aggregation::wrapped_count(set.count + 1),
                    },
                ),
            ),
            GaugeState::Sum(None) => GaugeState::Sum(Some(Sum { sum: value })),
            GaugeState::Sum(Some(sum)) => GaugeState::Sum(
                Some(Sum { sum: crate::aggregation::wrapped(sum.sum + value) }),
            ),
        }
    }

    /// This state after it observed `values`, one after the other.
    pub open spec fn observed_all(self, values: Seq<i64>) -> GaugeState
        decreases values.len(),
    {
        if values.len() == 0 {
            self
        } else {
            self.observed_all(values.drop_last()).observed(values.last())
        }
    }

    /// What was observed since the last reset.
    pub open spec fn aggregation(self) -> Option<Aggregation> {
        match self {
            GaugeState::StatisticSet(Some(set)) => Some(Aggregation::StatisticSet(set)),
            GaugeState::Sum(Some(sum)) => Some(Aggregation::Sum(sum)),
            _ => None,
        }
    }

    /// This state with nothing observed.
    pub open spec fn cleared(self) -> GaugeState {
        match self {
            GaugeState::StatisticSet(_) => GaugeState::StatisticSet(None),
            GaugeState::Sum(_) => GaugeState::Sum(None),
        }
    }

    /// Observes a value.
    pub fn observe(&mut self, value: i64)
        ensures
            *final(self) == old(self).observed(value),
    {
        match self {
            GaugeState::StatisticSet(None) => {
                *self = GaugeState::StatisticSet(
                    Some(StatisticSet { min: value, max: value, sum: value, count: 1 }),
                );
            },
            GaugeState::StatisticSet(Some(set)) => {
                if value < set.min {
                    set.min = value;
                }
                if value > set.max {
                    set.max = value;
                }
                set.sum = wrapping_sum(set.sum, value);
                set.count = wrapping_successor(set.count);
            },
            GaugeState::Sum(None) => {
                *self = GaugeState::Sum(Some(Sum { sum: value }));
            },
            GaugeState::Sum(Some(sum)) => {
                sum.sum = wrapping_sum(sum.sum, value);
            },
        }
    }

    /// What was observed since the last reset. Afterwards nothing is.
    pub fn reset(&mut self) -> (aggregation: Option<Aggregation>)
        ensures
            aggregation == old(self).aggregation(),
            *final(self) == old(self).cleared(),
    {
        match self {
            GaugeState::StatisticSet(observed) => match observed.take() {
                Some(set) => Some(Aggregation::StatisticSet(set)),
                None => None,
            },
            GaugeState::Sum(observed) => match observed.take() {
                Some(sum) => Some(Aggregation::Sum(sum)),
                None => None,
            },
        }
    }
}

/// A gauge of a metrics factory. It can be kept, cloned and passed around while the factory vends
/// other gauges and reports. What it observes, the factory accumulates.
#[derive(Debug)]
pub struct Gauge {
    group: Name,
    dimensions: GaugeDimensions,
    name: Name,
}

impl View for Gauge {
    type V = GaugeKey;

    closed spec fn view(&self) -> GaugeKey {
        GaugeKey { group: self.group@, dimensions: self.dimensions@, name: self.name@ }
    }
}

impl Gauge {
    /// The gauge of a group, dimensions and a name.
    pub(crate) fn new(group: Name, dimensions: GaugeDimensions, name: Name) -> (gauge: Self)
        ensures
            gauge@ == (GaugeKey { group: group@, dimensions: dimensions@, name: name@ }),
    {
        Gauge { group, dimensions, name }
    }

    /// The name of the group of this gauge.
    pub fn group(&self) -> (group: &Name)
        ensures
            group@ == self@.group,
    {
        &self.group
    }

    /// The dimensions of this gauge.
    pub fn dimensions(&self) -> (dimensions: &GaugeDimensions)
        ensures
            dimensions@ == self@.dimensions,
    {
        &self.dimensions
    }

    /// The name of this gauge.
    pub fn name(&self) -> (name: &Name)
        ensures
            name@ == self@.name,
    {
        &self.name
    }
}

impl Key for Arc<Gauge> {
    fn same(&self, other: &Self) -> bool {
        self.group.same(&other.group) && self.dimensions.same(&other.dimensions)
            && self.name.same(&other.name)
    }

    fn duplicate(&self) -> Self {
        self.clone()
    }
}

/// The gauges that were vended. Each is kept, so that it is vended again when it is asked for.
#[derive(Debug)]
pub struct VendedGauges {
    gauges: LinearMap<Arc<Gauge>, ()>,
}

impl View for VendedGauges {
    type V = Map<GaugeKey, Arc<Gauge>>;

    closed spec fn view(&self) -> Map<GaugeKey, Arc<Gauge>> {
        linear_map::paired(self.gauges.keys(), self.gauges.keys())
    }
}

impl VendedGauges {
    /// No gauges.
    pub(crate) fn new() -> (vended: Self)
        ensures
            vended@ == Map::<GaugeKey, Arc<Gauge>>::empty(),
    {
        let vended = VendedGauges { gauges: LinearMap::new() };
        proof {
            assert forall|key: GaugeKey| !vended@.contains_key(key) by {
                assert(!vended.gauges@.contains_key(key));
            }
            assert(vended@ =~= Map::<GaugeKey, Arc<Gauge>>::empty());
        }
        vended
    }

    /// The gauge with the key of `gauge` that was vended before, or else `gauge`.
    pub(crate) fn vend(&mut self, gauge: Gauge) -> (vended: Arc<Gauge>)
        ensures
            vended@ == gauge@,
            vended == linear_map::found_or(old(self)@, gauge@, Arc::new(gauge)),
            final(self)@ == old(self)@.insert(gauge@, vended),
    {
        let ghost key = gauge@;
        let ghost before = self.gauges.keys();
        let place: usize = self.gauges.place_of(Arc::new(gauge), ());
        proof {
            let after = self.gauges.keys();
            linear_map::lemma_paired_at(after, after, place as int);
            if old(self).gauges@.contains_key(key) {
                assert(self@.insert(key, after[place as int]) =~= self@);
            } else {
                assert(forall|i: int| 0 <= i < before.len() ==> #[trigger] before[i] == after[i]);
                linear_map::lemma_push(before, before, after.last(), after.last());
            }
        }
        self.gauges.key(place).clone()
    }
}

/// What a gauge that accumulates a statistic set starts out with.
pub fn statistic_set_gauge() -> (gauge: GaugeState)
    ensures
        gauge == GaugeState::StatisticSet(None),
{
    GaugeState::StatisticSet(None)
}

/// What a gauge that accumulates a sum starts out with.
pub fn sum_gauge() -> (gauge: GaugeState)
    ensures
        gauge == GaugeState::Sum(None),
{
    GaugeState::Sum(None)
}

/// What [`GaugeDimensions`] hold: the value of each dimension, by its name.
pub type DimensionsView = Map<Seq<char>, DimensionView>;

/// The dimensions of a gauge. Their order is of no account.
#[derive(Debug)]
pub struct GaugeDimensions {
    dimensions: LinearMap<Name, Dimension>,
}

impl View for GaugeDimensions {
    type V = DimensionsView;

    closed spec fn view(&self) -> DimensionsView {
        self.dimensions@.map_values(|dimension: Dimension| dimension@)
    }
}

/// The dimensions that come of inserting `pairs` one after the other.
pub open spec fn inserted(pairs: Seq<(Name, Dimension)>) -> DimensionsView
    decreases pairs.len(),
{
    if pairs.len() == 0 {
        Map::empty()
    } else {
        inserted(pairs.drop_last()).insert(pairs.last().0@, pairs.last().1@)
    }
}

impl GaugeDimensions {
    /// The dimensions in `pairs`. The last one of a name counts.
    pub fn new(pairs: Vec<(Name, Dimension)>) -> (dimensions: Self)
        ensures
            dimensions@ == inserted(pairs@),
            forall|name: Seq<char>| #[trigger]
                dimensions@.contains_key(name) <==> exists|i: int|
                    0 <= i < pairs@.len() && (#[trigger] pairs@[i]).0@ == name,
            forall|i: int|
                0 <= i < pairs@.len() && (forall|j: int|
                    i < j < pairs@.len() ==> (#[trigger] pairs@[j]).0@ != pairs@[i].0@)
                    ==> dimensions@[(#[trigger] pairs@[i]).0@] == pairs@[i].1@,
    {
        let mut dimensions = GaugeDimensions::default();
        let mut i: usize = 0;
        assert(pairs@.take(0) =~= Seq::<(Name, Dimension)>::empty());
        while i < pairs.len()
            invariant
                i <= pairs.len(),
                dimensions@ == inserted(pairs@.take(i as int)),
            decreases pairs.len() - i,
        {
            dimensions.put(pairs[i].0.clone(), pairs[i].1.clone());
            assert(pairs@.take(i + 1).drop_last() =~= pairs@.take(i as int));
            i += 1;
        }
        assert(pairs@.take(i as int) =~= pairs@);
        proof {
            assert forall|name: Seq<char>| #[trigger]
                dimensions@.contains_key(name) <==> exists|i: int|
                    0 <= i < pairs@.len() && (#[trigger] pairs@[i]).0@ == name by {
                meaning::law_dimensions_of_pairs(pairs@, name);
            }
            assert forall|i: int|
                0 <= i < pairs@.len() && (forall|j: int|
                    i < j < pairs@.len() ==> (#[trigger] pairs@[j]).0@
                        != pairs@[i].0@) implies dimensions@[(#[trigger] pairs@[i]).0@]
                == pairs@[i].1@ by {
                meaning::law_dimensions_of_pairs(pairs@, pairs@[i].0@);
            }
        }
        dimensions
    }

    /// Gives the dimension `name` a value, in place of the one that it had.
    fn put(&mut self, name: Name, value: Dimension)
        ensures
            final(self)@ == old(self)@.insert(name@, value@),
    {
        self.dimensions.insert(name, value);
        assert(self@ =~= old(self)@.insert(name@, value@));
    }

    /// Gives the dimension `name` a value, in place of the one that it had.
    pub fn insert<N: Into<Name>, D: Into<Dimension>>(&mut self, name: N, value: D)
        ensures
            exists|n: Name, d: Dimension|
                {
                    &&& #[trigger] call_ensures(<N as Into<Name>>::into, (name,), n)
                    &&& #[trigger] call_ensures(<D as Into<Dimension>>::into, (value,), d)
                    &&& final(self)@ == old(self)@.insert(n@, d@)
                },
    {
        let n = name.into();
        let d = value.into();
        self.put(n, d);
    }

    /// The value of the dimension `name`.
    pub fn get(&self, name: &Name) -> (value: Option<&Dimension>)
        ensures
            match value {
                Some(value) => self@.contains_key(name@) && value@ == self@[name@],
                None => !self@.contains_key(name@),
            },
    {
        self.dimensions.get(name)
    }

    /// Whether each dimension of `self` is one of `other` as well, with the same value.
    fn within(&self, other: &Self) -> (within: bool)
        ensures
            within == self@.submap_of(other@),
    {
        let len: usize = self.dimensions.len();
        let mut i: usize = 0;
        while i < len
            invariant
                len == self.dimensions.keys().len(),
                forall|j: int|
                    0 <= j < i ==> {
                        let name = (#[trigger] self.dimensions.keys()[j])@;
                        other@.contains_key(name) && other@[name] == self@[name]
                    },
            decreases len - i,
        {
            let name = self.dimensions.key(i);
            match other.dimensions.get(name) {
                Some(value) => {
                    if !value.same(self.dimensions.value(i)) {
                        assert(self@.dom().contains(name@) && other@.dom().contains(name@));
                        assert(self@[name@] != other@[name@]);
                        return false;
                    }
                },
                None => {
                    assert(self@.dom().contains(name@) && !other@.dom().contains(name@));
                    return false;
                },
            }
            i += 1;
        }
        assert forall|name: Seq<char>| self@.contains_key(name) implies other@.contains_key(name)
            && self@[name] == other@[name] by {
            let j = choose|j: int| linear_map::key_at(self.dimensions.keys(), name, j);
            assert(self.dimensions.keys()[j]@ == name);
        }
        true
    }
}

impl Default for GaugeDimensions {
    fn default() -> (dimensions: Self)
        ensures
            dimensions@ == Map::<Seq<char>, DimensionView>::empty(),
    {
        let dimensions = GaugeDimensions { dimensions: LinearMap::new() };
        assert(dimensions@ =~= Map::<Seq<char>, DimensionView>::empty());
        dimensions
    }
}

impl Clone for GaugeDimensions {
    fn clone(&self) -> (copy: Self)
        ensures
            copy@ == self@,
    {
        let mut copy = GaugeDimensions::default();
        let len: usize = self.dimensions.len();
        let mut i: usize = 0;
        while i < len
            invariant
                len == self.dimensions.keys().len(),
                i <= len,
                copy@.submap_of(self@),
                forall|j: int|
                    0 <= j < i ==> copy@.contains_key((#[trigger] self.dimensions.keys()[j])@),
            decreases len - i,
        {
            copy.put(self.dimensions.key(i).clone(), self.dimensions.value(i).clone());
            i += 1;
        }
        assert forall|name: Seq<char>| self@.contains_key(name) implies copy@.contains_key(
            name,
        ) by {
            let j = choose|j: int| linear_map::key_at(self.dimensions.keys(), name, j);
            assert(self.dimensions.keys()[j]@ == name);
        }
        assert(copy@ =~= self@);
        copy
    }
}

impl Key for GaugeDimensions {
    fn same(&self, other: &Self) -> bool {
        let same = self.within(other) && other.within(self);
        assert(same ==> self@ =~= other@);
        same
    }

    fn duplicate(&self) -> Self {
        self.clone()
    }
}

} // verus!
