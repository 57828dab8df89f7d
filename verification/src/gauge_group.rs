//! Groups of gauges.
use crate::aggregation::Aggregation;
use crate::gauge::{DimensionsView, GaugeDimensions, GaugeState};
use crate::linear_map::{Key, LinearMap};
use crate::pipeline::DimensionedMeasurementsMap;
use crate::types::Name;
use vstd::prelude::*;

verus! {

/// The aggregations of those gauges that observed something.
pub open spec fn measured<A>(gauges: Map<A, GaugeState>) -> Map<A, Aggregation> {
    Map::new(
        |place: A| gauges.contains_key(place) && gauges[place].aggregation() is Some,
        |place: A| gauges[place].aggregation()->0,
    )
}

/// The same gauges with nothing observed.
pub open spec fn all_cleared<A>(gauges: Map<A, GaugeState>) -> Map<A, GaugeState> {
    gauges.map_values(|gauge: GaugeState| gauge.cleared())
}

/// Gauges by their dimensions and their names.
#[derive(Debug)]
pub struct GaugeGroup {
    by_dimensions: LinearMap<GaugeDimensions, LinearMap<Name, GaugeState>>,
}

impl Default for GaugeGroup {
    fn default() -> (group: Self)
        ensures
            group.gauges() == Map::<(DimensionsView, Seq<char>), GaugeState>::empty(),
    {
        let group = GaugeGroup { by_dimensions: LinearMap::new() };
        assert(group.gauges() =~= Map::<(DimensionsView, Seq<char>), GaugeState>::empty());
        group
    }
}

/// Resets each of the gauges, and gives the aggregations of those that observed something.
fn reset_each(gauges: &mut LinearMap<Name, GaugeState>) -> (measurements: LinearMap<
    Name,
    Aggregation,
>)
    ensures
        measurements@ == measured(old(gauges)@),
        final(gauges)@ == all_cleared(old(gauges)@),
{
    let mut measurements: LinearMap<Name, Aggregation> = LinearMap::new();
    let len: usize = gauges.len();
    let mut i: usize = 0;
    while i < len
        invariant
            i <= len,
            len == old(gauges).keys().len(),
            len == old(gauges).values().len(),
            crate::linear_map::distinct(old(gauges).keys()),
            gauges.keys() == old(gauges).keys(),
            gauges.values().len() == len,
            forall|j: int|
                0 <= j < i ==> #[trigger] gauges.values()[j] == old(gauges).values()[j].cleared(),
            forall|j: int|
                i <= j < len ==> #[trigger] gauges.values()[j] == old(gauges).values()[j],
            forall|j: int|
                0 <= j < i ==> {
                    let name = (#[trigger] old(gauges).keys()[j])@;
                    let aggregation = old(gauges).values()[j].aggregation();
                    &&& measurements@.contains_key(name) == (aggregation is Some)
                    &&& aggregation is Some ==> measurements@[name] == aggregation->0
                },
            forall|name: Seq<char>| #[trigger]
                measurements@.contains_key(name) ==> exists|j: int|
                    j < i && #[trigger] crate::linear_map::key_at(old(gauges).keys(), name, j),
        decreases len - i,
    {
        let name = gauges.key(i).duplicate();
        let aggregation = gauges.value_mut(i).reset();
        proof {
            assert(crate::linear_map::key_at(old(gauges).keys(), name@, i as int));
            assert(!measurements@.contains_key(name@));
        }
        match aggregation {
            Some(aggregation) => {
                measurements.insert(name, aggregation);
            },
            None => {},
        }
        i += 1;
    }
    proof {
        assert forall|name: Seq<char>|
            {
                &&& measurements@.contains_key(name) == measured(old(gauges)@).contains_key(name)
                &&& measurements@.contains_key(name) ==> measurements@[name] == measured(
                    old(gauges)@,
                )[name]
                &&& gauges@.contains_key(name) == old(gauges)@.contains_key(name)
                &&& gauges@.contains_key(name) ==> gauges@[name] == old(gauges)@[name].cleared()
            } by {
            if exists|j: int| crate::linear_map::key_at(old(gauges).keys(), name, j) {
                let j = choose|j: int| crate::linear_map::key_at(old(gauges).keys(), name, j);
                crate::linear_map::lemma_paired_at(old(gauges).keys(), old(gauges).values(), j);
                crate::linear_map::lemma_paired_at(gauges.keys(), gauges.values(), j);
                assert(old(gauges).keys()[j]@ == name);
            }
        }
        assert(measurements@ =~= measured(old(gauges)@));
        assert(gauges@ =~= all_cleared(old(gauges)@));
    }
    measurements
}

impl GaugeGroup {
    /// The gauges, each by its dimensions and its name.
    pub closed spec fn gauges(&self) -> Map<(DimensionsView, Seq<char>), GaugeState> {
        crate::pipeline::dimensioned(self.by_dimensions@)
    }

    /// The gauge with a name and dimensions. Where there was none, `default` becomes it.
    pub fn dimensioned_gauge(
        &mut self,
        name: Name,
        dimensions: GaugeDimensions,
        default: GaugeState,
    ) -> (gauge: &mut GaugeState)
        ensures
            *gauge == crate::linear_map::found_or(
                old(self).gauges(),
                (dimensions@, name@),
                default,
            ),
            final(self).gauges() == old(self).gauges().insert(
                (dimensions@, name@),
                *final(gauge),
            ),
    {
        let gauges = self.by_dimensions.get_or_insert(dimensions, LinearMap::new());
        let ghost before = *gauges;
        let ghost after = *final(gauges);
        let gauge = gauges.get_or_insert(name, default);
        proof {
            assert(old(self).gauges().contains_key((dimensions@, name@)) == before@.contains_key(
                name@,
            ));
            assert(after@ == before@.insert(name@, *final(gauge)));
            assert(crate::pipeline::dimensioned(
                old(self).by_dimensions@.insert(dimensions@, after),
            ) =~= old(self).gauges().insert((dimensions@, name@), *final(gauge)));
        }
        gauge
    }

    /// The gauge with a name and dimensions, where there is one.
    pub fn gauge_mut(&mut self, name: &Name, dimensions: &GaugeDimensions) -> (gauge: Option<
        &mut GaugeState,
    >)
        ensures
            match gauge {
                Some(gauge) => {
                    &&& old(self).gauges().contains_key((dimensions@, name@))
                    &&& *gauge == old(self).gauges()[(dimensions@, name@)]
                    &&& final(self).gauges() == old(self).gauges().insert(
                        (dimensions@, name@),
                        *final(gauge),
                    )
                },
                None => {
                    &&& !old(self).gauges().contains_key((dimensions@, name@))
                    &&& final(self).gauges() == old(self).gauges()
                },
            },
    {
        match self.by_dimensions.get_mut(dimensions) {
            Some(gauges) => {
                let ghost after = *final(gauges);
                match gauges.get_mut(name) {
                    Some(gauge) => {
                        assert(crate::pipeline::dimensioned(
                            old(self).by_dimensions@.insert(dimensions@, after),
                        ) =~= old(self).gauges().insert((dimensions@, name@), *final(gauge)));
                        Some(gauge)
                    },
                    None => {
                        assert(crate::pipeline::dimensioned(
                            old(self).by_dimensions@.insert(dimensions@, after),
                        ) =~= old(self).gauges());
                        None
                    },
                }
            },
            None => None,
        }
    }

    /// Resets each gauge, and gives the aggregations of those that observed something.
    pub fn reset(&mut self) -> (measurements: DimensionedMeasurementsMap)
        ensures
            crate::pipeline::dimensioned(measurements@) == measured(old(self).gauges()),
            crate::pipeline::none_empty(measurements@),
            final(self).gauges() == all_cleared(old(self).gauges()),
    {
        let mut measurements: DimensionedMeasurementsMap = LinearMap::new();
        let len: usize = self.by_dimensions.len();
        let ghost before = self.by_dimensions;
        let mut i: usize = 0;
        while i < len
            invariant
                i <= len,
                len == before.keys().len(),
                len == before.values().len(),
                crate::linear_map::distinct(before.keys()),
                self.by_dimensions.keys() == before.keys(),
                self.by_dimensions.values().len() == len,
                forall|j: int|
                    0 <= j < i ==> (#[trigger] self.by_dimensions.values()[j])@ == all_cleared(
                        before.values()[j]@,
                    ),
                forall|j: int|
                    i <= j < len ==> #[trigger] self.by_dimensions.values()[j]
                        == before.values()[j],
                forall|j: int|
                    0 <= j < i ==> {
                        let dimensions = (#[trigger] before.keys()[j])@;
                        let group = measured(before.values()[j]@);
                        &&& measurements@.contains_key(dimensions) == (group != Map::<
                            Seq<char>,
                            Aggregation,
                        >::empty())
                        &&& measurements@.contains_key(dimensions)
                            ==> measurements@[dimensions]@ == group
                    },
                forall|dimensions: DimensionsView| #[trigger]
                    measurements@.contains_key(dimensions) ==> exists|j: int|
                        j < i && #[trigger] crate::linear_map::key_at(
                            before.keys(),
                            dimensions,
                            j,
                        ),
            decreases len - i,
        {
            let dimensions = self.by_dimensions.key(i).duplicate();
            let group = reset_each(self.by_dimensions.value_mut(i));
            proof {
                assert(crate::linear_map::key_at(before.keys(), dimensions@, i as int));
                assert(!measurements@.contains_key(dimensions@));
            }
            if !group.is_empty() {
                measurements.insert(dimensions, group);
            }
            i += 1;
        }
        proof {
            lemma_reset(before, self.by_dimensions, measurements);
        }
        measurements
    }
}

/// What was done place by place was done to the group.
proof fn lemma_reset(
    before: LinearMap<GaugeDimensions, LinearMap<Name, GaugeState>>,
    after: LinearMap<GaugeDimensions, LinearMap<Name, GaugeState>>,
    measurements: DimensionedMeasurementsMap,
)
    requires
        before.keys().len() == before.values().len(),
        crate::linear_map::distinct(before.keys()),
        after.keys() == before.keys(),
        after.values().len() == before.values().len(),
        forall|j: int|
            0 <= j < before.keys().len() ==> (#[trigger] after.values()[j])@ == all_cleared(
                before.values()[j]@,
            ),
        forall|j: int|
            0 <= j < before.keys().len() ==> {
                let dimensions = (#[trigger] before.keys()[j])@;
                let group = measured(before.values()[j]@);
                &&& measurements@.contains_key(dimensions) == (group != Map::<
                    Seq<char>,
                    Aggregation,
                >::empty())
                &&& measurements@.contains_key(dimensions) ==> measurements@[dimensions]@ == group
            },
        forall|dimensions: DimensionsView| #[trigger]
            measurements@.contains_key(dimensions) ==> exists|j: int| #[trigger]
                crate::linear_map::key_at(before.keys(), dimensions, j),
    ensures
        crate::pipeline::dimensioned(measurements@) == measured(
            crate::pipeline::dimensioned(before@),
        ),
        crate::pipeline::none_empty(measurements@),
        crate::pipeline::dimensioned(after@) == all_cleared(crate::pipeline::dimensioned(before@)),
{
    let gauges = crate::pipeline::dimensioned(before@);
    assert forall|dimensions: DimensionsView|
        {
            &&& after@.contains_key(dimensions) == before@.contains_key(dimensions)
            &&& before@.contains_key(dimensions) ==> after@[dimensions]@ == all_cleared(
                before@[dimensions]@,
            )
            &&& measurements@.contains_key(dimensions) ==> {
                &&& before@.contains_key(dimensions)
                &&& measurements@[dimensions]@ == measured(before@[dimensions]@)
                &&& measurements@[dimensions]@ != Map::<Seq<char>, Aggregation>::empty()
            }
            &&& before@.contains_key(dimensions) && !measurements@.contains_key(dimensions)
                ==> measured(before@[dimensions]@) == Map::<Seq<char>, Aggregation>::empty()
        } by {
        if exists|j: int| crate::linear_map::key_at(before.keys(), dimensions, j) {
            let j = choose|j: int| crate::linear_map::key_at(before.keys(), dimensions, j);
            crate::linear_map::lemma_paired_at(before.keys(), before.values(), j);
            crate::linear_map::lemma_paired_at(after.keys(), after.values(), j);
            assert(before.keys()[j]@ == dimensions);
            assert(after.values()[j]@ == all_cleared(before.values()[j]@));
        }
    }
    assert forall|place: (DimensionsView, Seq<char>)|
        crate::pipeline::dimensioned(measurements@).contains_key(place) == measured(
            gauges,
        ).contains_key(place) by {
        if measured(gauges).contains_key(place) {
            assert(measured(before@[place.0]@).contains_key(place.1));
        }
    }
    assert(crate::pipeline::dimensioned(measurements@) =~= measured(gauges));
    assert(crate::pipeline::dimensioned(after@) =~= all_cleared(gauges));
}

} // verus!
