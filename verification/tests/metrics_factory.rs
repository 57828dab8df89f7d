use std::cell::RefCell;
use std::rc::Rc;
use std::sync::mpsc::{channel, Sender};
use std::sync::Arc;
use std::time::{Duration, Instant, SystemTime};

use goodmetrics::aggregation::{Aggregation, StatisticSet, Sum};
use goodmetrics::allocator::{
    AlwaysNewMetricsAllocator, MetricsAllocator, MetricsRef, ReturnTarget,
};
use goodmetrics::gauge::{statistic_set_gauge, Gauge, GaugeDimensions};
use goodmetrics::metrics::{Distribution, Metrics, MetricsBehavior};
use goodmetrics::metrics_factory::MetricsFactory;
use goodmetrics::pipeline::{AggregatedMetricsMap, BatchTaker, Sink, StreamSink};
use goodmetrics::types::{Dimension, Name};

/// Prints the metrics that it is handed.
#[derive(Default)]
struct LoggingSink;

impl<T: std::fmt::Debug> Sink<T> for LoggingSink {
    fn accept(&mut self, to_sink: T) {
        println!("recorded metrics: {:?}", to_sink);
    }
}

/// Hands on the metrics that it is handed, one after the other.
struct SerializingSink<T> {
    upstream: T,
}

impl<T> SerializingSink<T> {
    fn new(upstream: T) -> Self {
        SerializingSink { upstream }
    }
}

impl<U, T: Sink<U>> Sink<U> for SerializingSink<T> {
    fn accept(&mut self, to_sink: U) {
        self.upstream.accept(to_sink)
    }
}

/// Sends the metrics that it is handed to a receiver. Clones share the receiver.
struct ChannelSink<T> {
    sender: Sender<T>,
}

impl<T> Clone for ChannelSink<T> {
    fn clone(&self) -> Self {
        ChannelSink { sender: self.sender.clone() }
    }
}

impl<T> Sink<T> for ChannelSink<T> {
    fn accept(&mut self, to_sink: T) {
        self.sender.send(to_sink).expect("the receiver is there");
    }
}

/// Metrics that lie on the heap, as those of a cache do.
struct CachedMetrics {
    serial: usize,
    metrics: Box<Metrics>,
}

impl MetricsRef for CachedMetrics {
    fn as_ref(&self) -> &Metrics {
        &self.metrics
    }

    fn as_mut(&mut self) -> &mut Metrics {
        &mut self.metrics
    }
}

/// Counts the metrics that it vends. Clones count together.
#[derive(Clone)]
struct CountingAllocator {
    left: Rc<RefCell<usize>>,
}

impl CountingAllocator {
    fn new(size: usize) -> Self {
        CountingAllocator { left: Rc::new(RefCell::new(size)) }
    }
}

impl MetricsAllocator for CountingAllocator {
    type TMetricsRef = CachedMetrics;

    fn new_metrics(&mut self, name: Name) -> CachedMetrics {
        *self.left.borrow_mut() -= 1;
        let serial = *self.left.borrow();
        CachedMetrics { serial, metrics: Box::new(Metrics::new(name, Instant::now())) }
    }
}

/// Takes metrics and keeps nothing of them.
struct DropSink;

impl Sink<Metrics> for DropSink {
    fn accept(&mut self, _: Metrics) {}
}

type Streaming = MetricsFactory<AlwaysNewMetricsAllocator, StreamSink<Metrics>>;

fn streaming() -> Streaming {
    MetricsFactory::new(StreamSink::new())
}

/// Asks for a gauge and lets it observe a value.
fn observe<A, S>(
    factory: &mut MetricsFactory<A, S>,
    vend: impl FnOnce(&mut MetricsFactory<A, S>) -> Arc<Gauge>,
    value: i64,
) {
    let gauge = vend(factory);
    assert!(factory.observe(&gauge, value));
}

fn name(text: &str) -> Name {
    Name::from(text)
}

/// The measurement of a gauge in a report.
fn measurement(
    report: &AggregatedMetricsMap,
    group: &str,
    dimensions: &GaugeDimensions,
    gauge: &str,
) -> Option<Aggregation> {
    report.get(&name(group))?.get(dimensions)?.get(&name(gauge)).copied()
}

fn has_total_time(metrics: &Metrics) -> bool {
    matches!(
        metrics.distributions.get(&name("totaltime")),
        Some(Distribution::Nanoseconds(_))
    )
}

#[test]
fn logging_metrics_factory() {
    let mut metrics_factory: MetricsFactory<AlwaysNewMetricsAllocator, LoggingSink> =
        MetricsFactory::new(LoggingSink::default());
    let mut metrics = metrics_factory.record_scope("test");
    // Dimension the scoped metrics
    metrics.dimension("some dimension", "a dim");

    // Measure some plain number
    metrics.measurement("measure", 13);

    // Record 1 observation of a distribution
    metrics.distribution("distribution of", 61);

    // Record many observations of a distribution
    metrics.distribution("high frequency", vec![13, 13, 14, 10, 13, 11, 13]);

    assert!(matches!(metrics.measurements.get(&name("measure")), Some(13)));
    assert!(matches!(
        metrics.distributions.get(&name("distribution of")),
        Some(Distribution::Value(61))
    ));
    match metrics.distributions.get(&name("high frequency")) {
        Some(Distribution::Values(values)) => assert_eq!(&vec![13, 13, 14, 10, 13, 11, 13], values),
        other => panic!("{:?}", other),
    }
    metrics_factory.emit(metrics);
}

#[test]
fn serializing_metrics_factory() {
    let mut metrics_factory: MetricsFactory<
        AlwaysNewMetricsAllocator,
        SerializingSink<LoggingSink>,
    > = MetricsFactory::new_with_allocator(
        SerializingSink::new(LoggingSink::default()),
        &[MetricsBehavior::Default],
        AlwaysNewMetricsAllocator,
    );
    let mut metrics = metrics_factory.record_scope("test");
    // Dimension the scoped metrics
    metrics.dimension("some dimension", "a dim");
    metrics_factory.emit(metrics);
}

#[test]
fn aggregating_metrics_factory() {
    let (sender, receiver) = channel();
    let mut metrics_factory: MetricsFactory<AlwaysNewMetricsAllocator, ChannelSink<Metrics>> =
        MetricsFactory::new_with_allocator(
            ChannelSink { sender },
            &[MetricsBehavior::Default],
            AlwaysNewMetricsAllocator,
        );
    let mut cloned = metrics_factory.clone();
    {
        let mut metrics = metrics_factory.record_scope("test");
        metrics.dimension("some dimension", "a dim");
        metrics_factory.emit(metrics);
    }

    let metrics_that_shares_the_sink = cloned.record_scope("scope_name");
    cloned.emit(metrics_that_shares_the_sink);

    let first = receiver.recv().expect("the first scope");
    assert_eq!("test", first.name.as_str());
    let dimension = first.dimensions.get(&name("some dimension")).expect("the dimension");
    assert!(dimension.same(&Dimension::from("a dim")));
    assert!(has_total_time(&first));
    assert_eq!("scope_name", receiver.recv().expect("the second scope").name.as_str());
}

#[test]
fn aggregating_metrics_factory_with_arc_allocator() {
    let (sender, receiver) = channel();
    let allocator = CountingAllocator::new(1024);
    let left = allocator.left.clone();
    let mut metrics_factory: MetricsFactory<CountingAllocator, ChannelSink<CachedMetrics>> =
        MetricsFactory::new_with_allocator(
            ChannelSink { sender },
            &[MetricsBehavior::Default],
            allocator,
        );
    let mut cloned = metrics_factory.clone();
    {
        let mut metrics = metrics_factory.record_scope("test");
        metrics.as_mut().dimension("some dimension", "a dim");
        metrics_factory.emit(metrics);
    }

    let metrics_that_shares_the_sink = cloned.record_scope("scope_name");
    cloned.emit(metrics_that_shares_the_sink);

    assert_eq!(1022, *left.borrow());
    assert_eq!("test", receiver.recv().expect("the first scope").as_ref().name.as_str());
    assert_eq!("scope_name", receiver.recv().expect("the second scope").as_ref().name.as_str());
}

#[test]
fn gauges() {
    let mut metrics_factory: MetricsFactory<AlwaysNewMetricsAllocator, DropSink> =
        MetricsFactory::new(DropSink);

    let _unused_gauge_group =
        metrics_factory.gauge_statistic_set("unused_gauge_group", "unused_gauge");
    let non_dimensioned_gauge =
        metrics_factory.gauge_statistic_set("test_gauges", "non_dimensioned_gauge");
    let mut dimensions =
        GaugeDimensions::new(vec![(name("test"), Dimension::from("dimension"))]);
    dimensions.insert("other", 1_u32);
    let dimensioned_gauge_one = metrics_factory.dimensioned_gauge_statistic_set(
        "test_dimensioned_gauges",
        "dimensioned_gauge_one",
        dimensions.clone(),
    );
    let dimensioned_gauge_two = metrics_factory.dimensioned_gauge_statistic_set(
        "test_dimensioned_gauges",
        "dimensioned_gauge_two",
        dimensions.clone(),
    );
    let _unused_gauge_in_gauge_group = metrics_factory.dimensioned_gauge_statistic_set(
        "test_dimensioned_gauges",
        "unused_gauge",
        GaugeDimensions::new(vec![(name("unused"), Dimension::from("dimension"))]),
    );
    let _unused_gauge_with_same_dimensions = metrics_factory.dimensioned_gauge_statistic_set(
        "test_dimensioned_gauges",
        "unused_gauge",
        dimensions,
    );

    metrics_factory.observe(&non_dimensioned_gauge, 20);
    metrics_factory.observe(&non_dimensioned_gauge, 22);
    metrics_factory.observe(&dimensioned_gauge_one, 100);
    metrics_factory.observe(&dimensioned_gauge_two, 10);

    let result =
        metrics_factory.batch_gauges(SystemTime::now(), Duration::from_millis(1), &mut BatchTaker);

    assert_eq!(2, result.len());
    let non_dimensioned = result
        .get(&name("test_gauges"))
        .expect("should have found data for gauge group `test_gauges`");
    assert_eq!(1, non_dimensioned.len());
    assert_eq!(1, non_dimensioned.value(0).len());
    assert_eq!(
        Some(Aggregation::StatisticSet(StatisticSet { min: 20, max: 22, sum: 42, count: 2 })),
        measurement(&result, "test_gauges", &GaugeDimensions::default(), "non_dimensioned_gauge")
    );

    let dimensioned = result
        .get(&name("test_dimensioned_gauges"))
        .expect("should have found data for gauge group `test_dimensioned_gauges`");
    assert_eq!(1, dimensioned.len());
    assert_eq!(2, dimensioned.value(0).len());
    // The order of the dimensions is of no account.
    let dimensions = GaugeDimensions::new(vec![
        (name("other"), Dimension::from(1_u32)),
        (name("test"), Dimension::from("dimension")),
    ]);
    assert_eq!(
        Some(Aggregation::StatisticSet(StatisticSet { min: 100, max: 100, sum: 100, count: 1 })),
        measurement(&result, "test_dimensioned_gauges", &dimensions, "dimensioned_gauge_one")
    );
    assert_eq!(
        Some(Aggregation::StatisticSet(StatisticSet { min: 10, max: 10, sum: 10, count: 1 })),
        measurement(&result, "test_dimensioned_gauges", &dimensions, "dimensioned_gauge_two")
    );
}

#[test]
fn sum_gauge_is_reported_as_a_sum() {
    let mut factory = streaming();
    let none = GaugeDimensions::default();
    let gauge = factory.dimensioned_gauge_sum("group", "sum", none.clone());
    factory.observe(&gauge, 5);
    factory.observe(&gauge, -7);
    let report = factory.report_gauges();
    assert_eq!(
        Some(Aggregation::Sum(Sum { sum: -2 })),
        measurement(&report, "group", &none, "sum")
    );
}

#[test]
fn sums_and_statistics_wrap_around() {
    let mut factory = streaming();
    let none = GaugeDimensions::default();
    let sum = factory.dimensioned_gauge_sum("group", "sum", none.clone());
    let set = factory.gauge_statistic_set("group", "set");
    factory.observe(&sum, i64::MAX);
    factory.observe(&sum, 1);
    factory.observe(&set, i64::MIN);
    factory.observe(&set, -1);
    let report = factory.report_gauges();
    assert_eq!(
        Some(Aggregation::Sum(Sum { sum: i64::MIN })),
        measurement(&report, "group", &none, "sum")
    );
    assert_eq!(
        Some(Aggregation::StatisticSet(StatisticSet {
            min: i64::MIN,
            max: -1,
            sum: i64::MAX,
            count: 2
        })),
        measurement(&report, "group", &none, "set")
    );
}

#[test]
fn order_of_observations_is_of_no_account() {
    let none = GaugeDimensions::default();
    let mut reports = Vec::new();
    for values in [[3, -1, 8], [8, 3, -1]] {
        let mut factory = streaming();
        for value in values {
            observe(&mut factory, |f| f.gauge_statistic_set("group", "set"), value);
        }
        reports.push(measurement(&factory.report_gauges(), "group", &none, "set"));
    }
    assert_eq!(
        Some(Aggregation::StatisticSet(StatisticSet { min: -1, max: 8, sum: 10, count: 3 })),
        reports[0]
    );
    assert_eq!(reports[0], reports[1]);
}

#[test]
fn gauge_is_found_again_whatever_kind_is_asked_for() {
    let mut factory = streaming();
    let none = GaugeDimensions::default();
    observe(&mut factory, |f| f.gauge_statistic_set("group", "gauge"), 1);
    observe(&mut factory, |f| f.dimensioned_gauge_sum("group", "gauge", none.clone()), 2);
    let report = factory.report_gauges();
    assert_eq!(
        Some(Aggregation::StatisticSet(StatisticSet { min: 1, max: 2, sum: 3, count: 2 })),
        measurement(&report, "group", &none, "gauge")
    );
}

#[test]
fn gauges_of_other_keys_are_left_alone() {
    let mut factory = streaming();
    let none = GaugeDimensions::default();
    let mut some = GaugeDimensions::default();
    some.insert("number", 7_u32);
    let mut text = GaugeDimensions::default();
    text.insert("number", "7");
    observe(&mut factory, |f| f.gauge_statistic_set("one", "gauge"), 1);
    observe(&mut factory, |f| f.gauge_statistic_set("two", "gauge"), 2);
    observe(&mut factory, |f| f.gauge_statistic_set("one", "other"), 3);
    observe(&mut factory, |f| f.dimensioned_gauge_statistic_set("one", "gauge", some.clone()), 4);
    observe(&mut factory, |f| f.dimensioned_gauge_statistic_set("one", "gauge", text.clone()), 5);
    let report = factory.report_gauges();
    for (group, dimensions, gauge, value) in [
        ("one", &none, "gauge", 1),
        ("two", &none, "gauge", 2),
        ("one", &none, "other", 3),
        ("one", &some, "gauge", 4),
        ("one", &text, "gauge", 5),
    ] {
        assert_eq!(
            Some(Aggregation::StatisticSet(StatisticSet {
                min: value,
                max: value,
                sum: value,
                count: 1
            })),
            measurement(&report, group, dimensions, gauge)
        );
    }
}

#[test]
fn nothing_is_reported_twice() {
    let mut factory = streaming();
    let none = GaugeDimensions::default();
    assert!(factory.report_gauges().is_empty());
    observe(&mut factory, |f| f.gauge_statistic_set("group", "gauge"), 9);
    assert!(!factory.report_gauges().is_empty());
    assert!(factory.report_gauges().is_empty());
    // What comes later is reported without what came before.
    observe(&mut factory, |f| f.gauge_statistic_set("group", "gauge"), 4);
    assert_eq!(
        Some(Aggregation::StatisticSet(StatisticSet { min: 4, max: 4, sum: 4, count: 1 })),
        measurement(&factory.report_gauges(), "group", &none, "gauge")
    );
}

#[test]
fn total_time_is_recorded_in_nanoseconds() {
    let mut factory = streaming();
    let metrics = factory.record_scope("scope");
    factory.emit_elapsed(metrics, 1_500);
    let stream = factory.sink_mut().drain();
    assert_eq!(1, stream.len());
    assert!(matches!(
        stream[0].distributions.get(&name("totaltime")),
        Some(Distribution::Nanoseconds(1_500))
    ));
    assert!(factory.sink_mut().drain().is_empty());
}

#[test]
fn total_time_is_that_since_the_start_of_the_scope() {
    let mut factory = streaming();
    let mut metrics = factory.record_scope("scope");
    let hour = Duration::from_secs(3_600);
    metrics.start_time = metrics.start_time.checked_sub(hour).unwrap_or(metrics.start_time);
    let at_least = metrics.start_time.elapsed().as_nanos();
    factory.emit(metrics);
    match factory.sink_mut().drain()[0].distributions.get(&name("totaltime")) {
        Some(Distribution::Nanoseconds(elapsed)) => assert!(*elapsed >= at_least),
        other => panic!("{:?}", other),
    }
}

#[test]
fn scope_starts_when_it_is_recorded() {
    let before = Instant::now();
    let metrics = streaming().record_scope("scope");
    assert!(before <= metrics.start_time);
    assert!(metrics.start_time <= Instant::now());
    assert!(metrics.dimensions.is_empty());
    assert!(metrics.measurements.is_empty());
    assert!(metrics.distributions.is_empty());
}

#[test]
fn suppressed_scope_does_not_reach_the_sink() {
    let mut factory = streaming();
    let metrics = factory.record_scope_with_behavior("scope", MetricsBehavior::Suppress);
    factory.emit(metrics);
    assert!(factory.sink_mut().drain().is_empty());
    let metrics = factory.record_scope("scope");
    factory.emit(metrics);
    assert_eq!(1, factory.sink_mut().drain().len());
}

#[test]
fn suppressed_total_time_is_not_recorded() {
    let mut factory = streaming();
    let metrics = factory.record_scope_with_behavior("scope", MetricsBehavior::SuppressTotalTime);
    factory.emit(metrics);
    let stream = factory.sink_mut().drain();
    assert_eq!(1, stream.len());
    assert!(stream[0].distributions.is_empty());
}

#[test]
fn disabled_factory_suppresses_its_metrics() {
    let mut factory = streaming();
    let earlier = factory.record_scope("earlier");
    factory.disable();
    let metrics = factory.record_scope("scope");
    assert!(metrics.has_behavior(MetricsBehavior::Suppress));
    factory.emit(metrics);
    let metrics = factory.record_scope_with_behavior("scope", MetricsBehavior::SuppressTotalTime);
    factory.emit(metrics);
    assert!(factory.sink_mut().drain().is_empty());
    // What was vended before is emitted, and gauges go on.
    factory.emit(earlier);
    assert_eq!(1, factory.sink_mut().drain().len());
    observe(&mut factory, |f| f.gauge_statistic_set("group", "gauge"), 1);
    assert_eq!(1, factory.report_gauges().len());
}

#[test]
fn default_behaviors_are_combined() {
    let mut factory: Streaming = MetricsFactory::new_with_behaviors(
        StreamSink::new(),
        &[MetricsBehavior::SuppressTotalTime, MetricsBehavior::Suppress],
    );
    let metrics = factory.record_scope("scope");
    assert_eq!(0x11, metrics.behaviors);
    let mut twice: Streaming = MetricsFactory::new_with_behaviors(
        StreamSink::new(),
        &[MetricsBehavior::Suppress, MetricsBehavior::Default, MetricsBehavior::Suppress],
    );
    assert_eq!(0x01, twice.record_scope("scope").behaviors);
    let mut none: Streaming = MetricsFactory::new_with_behaviors(StreamSink::new(), &[]);
    assert_eq!(0x00, none.record_scope("scope").behaviors);
    assert_eq!(
        0x10,
        none.record_scope_with_behavior("scope", MetricsBehavior::SuppressTotalTime).behaviors
    );
}

#[test]
fn default_factory_hands_metrics_on() {
    let mut factory: Streaming = MetricsFactory::default();
    let metrics = factory.record_scope("scope");
    factory.return_referent(metrics);
    let stream = factory.sink_mut().drain();
    assert_eq!(1, stream.len());
    assert!(has_total_time(&stream[0]));
}

#[test]
fn clone_has_the_behaviors_and_no_gauges() {
    let (sender, receiver) = channel();
    let mut factory: MetricsFactory<AlwaysNewMetricsAllocator, ChannelSink<Metrics>> =
        MetricsFactory::new_with_behaviors(
            ChannelSink { sender },
            &[MetricsBehavior::SuppressTotalTime],
        );
    observe(&mut factory, |f| f.gauge_statistic_set("group", "gauge"), 1);
    let mut cloned = factory.clone();
    assert!(cloned.report_gauges().is_empty());
    assert!(!factory.report_gauges().is_empty());
    let metrics = cloned.record_scope("scope");
    cloned.emit(metrics);
    assert!(receiver.recv().expect("a scope").distributions.is_empty());
    factory.disable();
    assert!(factory.clone().record_scope("scope").has_behavior(MetricsBehavior::Suppress));
}

#[test]
fn later_record_takes_the_place_of_an_earlier_one() {
    let mut metrics = streaming().record_scope("scope");
    metrics.measurement("measure", 1);
    metrics.measurement("measure", 2);
    assert_eq!(1, metrics.measurements.len());
    assert!(matches!(metrics.measurements.get(&name("measure")), Some(2)));
    let dimensions = GaugeDimensions::new(vec![
        (name("d"), Dimension::from("first")),
        (name("d"), Dimension::from("second")),
    ]);
    let dimension = dimensions.get(&name("d")).expect("the dimension");
    assert!(dimension.same(&Dimension::from("second")));
}

#[test]
fn kept_gauges_go_on_after_a_report() {
    let mut factory = streaming();
    let none = GaugeDimensions::default();
    let one = factory.gauge_statistic_set("group", "one");
    let two = factory.dimensioned_gauge_sum("group", "two", none.clone());
    let copy = one.clone();
    factory.observe(&one, 1);
    factory.observe(&two, 2);
    factory.observe(&copy, 3);
    let report = factory.report_gauges();
    assert_eq!(
        Some(Aggregation::StatisticSet(StatisticSet { min: 1, max: 3, sum: 4, count: 2 })),
        measurement(&report, "group", &none, "one")
    );
    assert_eq!(
        Some(Aggregation::Sum(Sum { sum: 2 })),
        measurement(&report, "group", &none, "two")
    );
    factory.observe(&one, 5);
    let report = factory.report_gauges();
    assert_eq!(
        Some(Aggregation::StatisticSet(StatisticSet { min: 5, max: 5, sum: 5, count: 1 })),
        measurement(&report, "group", &none, "one")
    );
    assert_eq!(None, measurement(&report, "group", &none, "two"));
}

#[test]
fn gauge_knows_its_key() {
    let mut factory = streaming();
    let mut dimensions = GaugeDimensions::default();
    dimensions.insert("number", 7_u32);
    let gauge = factory.dimensioned_gauge_sum(name("group"), name("gauge"), dimensions);
    assert_eq!("group", gauge.group().as_str());
    assert_eq!("gauge", gauge.name().as_str());
    let number = gauge.dimensions().get(&name("number")).expect("the dimension");
    assert!(number.same(&Dimension::from(7_u32)));
}

#[test]
fn gauge_of_another_factory_is_not_taken_in() {
    let mut factory = streaming();
    let gauge = factory.gauge_statistic_set("group", "gauge");
    let mut other = streaming();
    assert!(!other.observe(&gauge, 6));
    other.gauge_statistic_set("group", "another");
    assert!(!other.observe(&gauge, 6));
    assert!(other.report_gauges().is_empty());
    assert!(factory.report_gauges().is_empty());
    assert!(factory.observe(&gauge, 6));
    assert_eq!(1, factory.report_gauges().len());
}

#[test]
fn gauge_that_is_asked_for_again_is_the_one_that_was_vended() {
    let mut factory = streaming();
    let none = GaugeDimensions::default();
    let gauge = factory.gauge_statistic_set("group", "gauge");
    let other = factory.gauge_statistic_set("group", "other");
    assert!(!Arc::ptr_eq(&gauge, &other));
    factory.observe(&gauge, 1);
    factory.report_gauges();
    factory.disable();
    assert!(Arc::ptr_eq(&gauge, &factory.gauge_statistic_set("group", "gauge")));
    let sum = factory.dimensioned_gauge_sum("group", "gauge", none.clone());
    assert!(Arc::ptr_eq(&gauge, &sum));
    let default = statistic_set_gauge();
    let gotten = factory.get_gauge(name("group"), name("gauge"), none, default);
    assert!(Arc::ptr_eq(&gauge, &gotten));
    // A clone of the factory has gauges of its own.
    let mut cloned: MetricsFactory<AlwaysNewMetricsAllocator, u8> =
        MetricsFactory::<AlwaysNewMetricsAllocator, u8>::new(0).clone();
    assert!(!Arc::ptr_eq(&gauge, &cloned.gauge_statistic_set("group", "gauge")));
}

#[test]
fn disabled_factory_has_the_same_gauges() {
    let none = GaugeDimensions::default();
    let mut reports = Vec::new();
    for disabled in [false, true] {
        let mut factory = streaming();
        if disabled {
            factory.disable();
        }
        observe(&mut factory, |f| f.dimensioned_gauge_sum("group", "gauge", none.clone()), 2);
        reports.push(measurement(&factory.report_gauges(), "group", &none, "gauge"));
    }
    assert_eq!(Some(Aggregation::Sum(Sum { sum: 2 })), reports[0]);
    assert_eq!(reports[0], reports[1]);
}

#[test]
fn name_is_taken_as_it_is() {
    let mut factory = streaming();
    assert_eq!("scope", factory.record_scope(name("scope")).name.as_str());
    let behavior = MetricsBehavior::SuppressTotalTime;
    let metrics = factory.record_scope_with_behavior(name("other"), behavior);
    assert_eq!("other", metrics.name.as_str());
}

#[test]
fn reference_that_was_vended_is_the_one_that_is_sent() {
    let (sender, receiver) = channel();
    let allocator = CountingAllocator::new(8);
    let left = allocator.left.clone();
    let mut factory: MetricsFactory<CountingAllocator, ChannelSink<CachedMetrics>> =
        MetricsFactory::new_with_allocator(ChannelSink { sender }, &[], allocator);
    let first = factory.record_scope("first");
    let second = factory.record_scope("second");
    // The allocator is asked once for each scope.
    assert_eq!(6, *left.borrow());
    assert_eq!((7, 6), (first.serial, second.serial));
    factory.emit(second);
    factory.emit(first);
    assert_eq!(6, *left.borrow());
    let sent = receiver.recv().expect("the second scope");
    assert_eq!((6, "second"), (sent.serial, sent.as_ref().name.as_str()));
    assert!(has_total_time(sent.as_ref()));
    let sent = receiver.recv().expect("the first scope");
    assert_eq!((7, "first"), (sent.serial, sent.as_ref().name.as_str()));
}
