//! What metrics and aggregated measurements are handed on in.
use crate::aggregation::Aggregation;
use crate::gauge::{DimensionsView, GaugeDimensions};
use crate::linear_map::LinearMap;
use crate::types::Name;
use std::time::{Duration, SystemTime};
use vstd::prelude::*;

verus! {

/// Takes what it is handed and passes it on.
pub trait Sink<TSunk>: Sized {
    /// Whether a sink that was `before` can be `after` once it was handed `to_sink`. A sink that
    /// keeps what it is handed says so here; of another nothing is known.
    open spec fn accepts(before: Self, to_sink: TSunk, after: Self) -> bool {
        true
    }

    /// Takes one more.
    fn accept(&mut self, to_sink: TSunk)
        ensures
            Self::accepts(*old(self), to_sink, *final(self)),
    ;
}

/// Keeps what it is handed, in order, until it is drained.
#[derive(Debug)]
pub struct StreamSink<TSunk> {
    stream: Vec<TSunk>,
}

impl<TSunk> StreamSink<TSunk> {
    /// What was handed to this sink since it was last drained, in the order in which it came.
    pub closed spec fn accepted(&self) -> Seq<TSunk> {
        self.stream@
    }

    /// A sink to which nothing was handed.
    pub fn new() -> (sink: Self)
        ensures
            sink.accepted() == Seq::<TSunk>::empty(),
    {
        StreamSink { stream: Vec::new() }
    }

    /// Takes out all that was handed to this sink, in the order in which it came.
    pub fn drain(&mut self) -> (stream: Vec<TSunk>)
        ensures
            stream@ == old(self).accepted(),
            final(self).accepted() == Seq::<TSunk>::empty(),
    {
        let mut stream: Vec<TSunk> = Vec::new();
        std::mem::swap(&mut stream, &mut self.stream);
        stream
    }
}

impl<TSunk> Default for StreamSink<TSunk> {
    fn default() -> (sink: Self)
        ensures
            sink.accepted() == Seq::<TSunk>::empty(),
    {
        StreamSink::new()
    }
}

impl<TSunk> Sink<TSunk> for StreamSink<TSunk> {
    open spec fn accepts(before: Self, to_sink: TSunk, after: Self) -> bool {
        after.accepted() == before.accepted().push(to_sink)
    }

    fn accept(&mut self, to_sink: TSunk) {
        self.stream.push(to_sink);
    }
}

/// The aggregations of a group, by their dimensions and then by the name of the measurement.
pub type DimensionedMeasurementsMap = LinearMap<GaugeDimensions, LinearMap<Name, Aggregation>>;

/// The aggregations of each group, by the name of the group.
pub type AggregatedMetricsMap = LinearMap<Name, DimensionedMeasurementsMap>;

/// Makes batches of aggregated measurements, in the form that they are sent in.
pub trait AggregationBatcher: Sized {
    type TBatch;

    /// Whether a batcher that was `before` can make `batch` of `aggregations` and be `after` then.
    /// Of a batcher that says no more here nothing is known.
    open spec fn batches(
        before: Self,
        now: SystemTime,
        covered_time: Duration,
        aggregations: AggregatedMetricsMap,
        batch: Self::TBatch,
        after: Self,
    ) -> bool {
        true
    }

    /// A batch of the aggregations of the time `covered_time` up to `now`.
    fn batch_aggregations(
        &mut self,
        now: SystemTime,
        covered_time: Duration,
        aggregations: &mut AggregatedMetricsMap,
    ) -> (batch: Self::TBatch)
        ensures
            Self::batches(
                *old(self),
                now,
                covered_time,
                *old(aggregations),
                batch,
                *final(self),
            ),
    ;
}

/// Takes the aggregations as they are, and leaves none behind.
#[derive(Debug, Clone, Copy)]
pub struct BatchTaker;

impl AggregationBatcher for BatchTaker {
    type TBatch = AggregatedMetricsMap;

    open spec fn batches(
        before: Self,
        now: SystemTime,
        covered_time: Duration,
        aggregations: AggregatedMetricsMap,
        batch: AggregatedMetricsMap,
        after: Self,
    ) -> bool {
        batch == aggregations
    }

    fn batch_aggregations(
        &mut self,
        now: SystemTime,
        covered_time: Duration,
        aggregations: &mut AggregatedMetricsMap,
    ) -> (batch: AggregatedMetricsMap)
        ensures
            final(aggregations)@ == Map::<Seq<char>, DimensionedMeasurementsMap>::empty(),
    {
        let mut batch: AggregatedMetricsMap = LinearMap::new();
        std::mem::swap(&mut batch, aggregations);
        batch
    }
}

/// The entries of a group, each by its dimensions and its name.
pub open spec fn dimensioned<V>(
    map: Map<DimensionsView, LinearMap<Name, V>>,
) -> Map<(DimensionsView, Seq<char>), V> {
    Map::new(
        |place: (DimensionsView, Seq<char>)|
            map.contains_key(place.0) && map[place.0]@.contains_key(place.1),
        |place: (DimensionsView, Seq<char>)| map[place.0]@[place.1],
    )
}

/// No dimensions of a group are there without an entry.
pub open spec fn none_empty<V>(map: Map<DimensionsView, LinearMap<Name, V>>) -> bool {
    forall|dimensions: DimensionsView| #[trigger]
        map.contains_key(dimensions) ==> map[dimensions]@ != Map::<Seq<char>, V>::empty()
}

/// A gauge, or the measurement of one, by its group, its dimensions and its name.
#[verifier::ext_equal]
pub struct GaugeKey {
    pub group: Seq<char>,
    pub dimensions: DimensionsView,
    pub name: Seq<char>,
}

/// The measurements of all groups, each by its key.
pub open spec fn grouped(
    map: Map<Seq<char>, DimensionedMeasurementsMap>,
) -> Map<GaugeKey, Aggregation> {
    Map::new(
        |key: GaugeKey|
            map.contains_key(key.group) && dimensioned(map[key.group]@).contains_key(
                (key.dimensions, key.name),
            ),
        |key: GaugeKey| dimensioned(map[key.group]@)[(key.dimensions, key.name)],
    )
}

/// No group, and no dimensions of a group, are there without a measurement.
pub open spec fn no_group_empty(map: Map<Seq<char>, DimensionedMeasurementsMap>) -> bool {
    forall|group: Seq<char>| #[trigger]
        map.contains_key(group) ==> {
            &&& none_empty(map[group]@)
            &&& dimensioned(map[group]@) != Map::<(DimensionsView, Seq<char>), Aggregation>::empty()
        }
}

} // verus!
