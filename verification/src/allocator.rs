//! Where metrics come from and where they go back to.
use crate::metrics::{DistributionView, Metrics, MetricsView};
use crate::types::{DimensionView, Name};
use std::time::Instant;
use vstd::prelude::*;

verus! {

/// A reference to metrics: the metrics themselves, or something that leads to them.
pub trait MetricsRef: Sized {
    /// The metrics that are referred to. Each kind of reference says here which these are.
    open spec fn metrics(&self) -> Metrics {
        arbitrary()
    }

    /// What tells this reference apart from others to the same metrics. It stays when the metrics
    /// are changed. There is nothing to tell apart where the reference is the metrics themselves.
    open spec fn reference(&self) -> int {
        0
    }

    /// The metrics that are referred to.
    fn as_ref(&self) -> (metrics: &Metrics)
        ensures
            *metrics == self.metrics(),
    ;

    /// The metrics that are referred to, to change them.
    fn as_mut(&mut self) -> (metrics: &mut Metrics)
        ensures
            *metrics == old(self).metrics(),
            final(self).metrics() == *final(metrics),
            final(self).reference() == old(self).reference(),
    ;
}

impl MetricsRef for Metrics {
    open spec fn metrics(&self) -> Metrics {
        *self
    }

    fn as_ref(&self) -> &Metrics {
        self
    }

    fn as_mut(&mut self) -> &mut Metrics {
        self
    }
}

/// Vends metrics.
pub trait MetricsAllocator: Sized {
    type TMetricsRef: MetricsRef;

    /// Whether an allocator that was `before` can vend `metrics` for `name` and be `after` then.
    /// Of an allocator that says no more here nothing is known.
    open spec fn vends(
        before: Self,
        name: Name,
        metrics: Self::TMetricsRef,
        after: Self,
    ) -> bool {
        true
    }

    /// Metrics for a scope that starts now.
    fn new_metrics(&mut self, name: Name) -> (metrics: Self::TMetricsRef)
        ensures
            Self::vends(*old(self), name, metrics, *final(self)),
    ;
}

/// Vends new metrics each time.
#[derive(Debug, Clone, Copy)]
pub struct AlwaysNewMetricsAllocator;

impl Default for AlwaysNewMetricsAllocator {
    fn default() -> (allocator: Self)
        ensures
            allocator == AlwaysNewMetricsAllocator,
    {
        AlwaysNewMetricsAllocator
    }
}

impl MetricsAllocator for AlwaysNewMetricsAllocator {
    type TMetricsRef = Metrics;

    open spec fn vends(before: Self, name: Name, metrics: Metrics, after: Self) -> bool {
        &&& call_ensures(Instant::now, (), metrics@.start_time)
        &&& metrics@ == (MetricsView {
            name: name@,
            start_time: metrics@.start_time,
            dimensions: Map::empty(),
            measurements: Map::empty(),
            distributions: Map::empty(),
            behaviors: 0,
        })
    }

    fn new_metrics(&mut self, name: Name) -> (metrics: Metrics)
        ensures
            metrics@.name == name@,
            metrics@.dimensions == Map::<Seq<char>, DimensionView>::empty(),
            metrics@.measurements == Map::<Seq<char>, i64>::empty(),
            metrics@.distributions == Map::<Seq<char>, DistributionView>::empty(),
            metrics@.behaviors == 0,
    {
        Metrics::new(name, Instant::now())
    }
}

/// Takes back what it has vended.
pub trait ReturnTarget<TReferent> {
    /// Takes a vended value back.
    fn return_referent(&mut self, to_return: TReferent);
}

} // verus!
