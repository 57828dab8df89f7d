# goodmetrics

A metrics factory, verified with Verus.

A `MetricsFactory` vends metrics for scopes and hands them to a sink when the scopes end. It also
vends gauges, which accumulate what they observe, and reports from time to time what they observed
since the last report.

- `src/metrics_factory.rs`: the factory.
- `src/metrics.rs`, `src/allocator.rs`: what is recorded in a scope, and where it comes from.
- `src/gauge.rs`, `src/gauge_group.rs`, `src/aggregation.rs`: gauges and what they accumulate.
- `src/pipeline.rs`: sinks, batchers and the form of a report.
- `src/linear_map.rs`, `src/types.rs`: maps, names and dimensions.
- `src/clock.rs`: the functions of the standard library that tell the time. Their contracts are
  trusted, and claim nothing of what the clock shows. The one other trusted contract, in
  `src/types.rs`, says that a value converted into its own type stays as it is.
- `src/laws.rs`: what holds of gauges, reports and scopes whatever is done with them.
- `app/`: factories that are shared between threads, and the task that reports gauges.

A factory is changed through `&mut`, so that a contract can say what a call changes. A gauge that it
vends can be kept and passed around, and is vended again when it is asked for again; what the gauge
observes is told to the factory. In `app/` the
scopes of a shared factory work with clones of it, and gauges queue what they observe.
