//! Histograms: recording, reading back, adding, and the surface that programs
//! see.

use std::collections::HashMap;

use perry::hdr::Shape;
use perry::histogram::{histogram_fits, Histogram, HistogramKind, Tick};
use perry::histogram_api::{
    call_has_room, histogram_id_from_value, histogram_method, histogram_property, js_perf_create_histogram,
    js_perf_monitor_event_loop_delay, record_timerify_duration, remember_map,
    scan_histogram_roots_mut, validate_integer, ArgName, CreateOptions, ErrorClass,
    HistogramError, HistogramStore, JsArg, JsNumber, MethodResult, MonitorOptions, PercentileArg,
    PropertyValue, MAX_SAFE_INTEGER,
};
use perry::roots::{RuntimeRootVisitor, Visit};

fn default_histogram() -> Histogram {
    Histogram::new(HistogramKind::Recordable, 1, 9007199254740991, 3)
}

fn percentile(h: &Histogram, p: f64) -> i64 {
    let requested = if p < 100.0 { p } else { 100.0 };
    h.percentile(((requested / 100.0) * h.total_count as f64 + 0.5) as i64)
}

fn mean(h: &Histogram) -> f64 {
    match h.mean_parts() {
        None => f64::NAN,
        Some((total, count)) => total as f64 / count as f64,
    }
}

fn stddev(h: &Histogram) -> f64 {
    if h.total_count == 0 {
        return f64::NAN;
    }
    let m = mean(h);
    let total: f64 = h
        .used_medians()
        .iter()
        .map(|(count, median)| (*median as f64 - m).powi(2) * *count as f64)
        .sum();
    (total / h.total_count as f64).sqrt()
}

fn entries(h: &Histogram) -> Vec<(f64, i64)> {
    h.percentile_entries()
        .into_iter()
        .map(|(tick, value)| match tick {
            Tick::Halving(k) => (100.0 - 100.0 / 2f64.powi(k as i32), value),
            Tick::Full => (100.0, value),
        })
        .collect()
}

#[test]
fn percentiles_match_the_node_oracle() {
    let mut h = default_histogram();
    for n in [1, 2, 4, 8] {
        h.record(n);
    }
    assert_eq!(h.min(), 1);
    assert_eq!(h.max(), 8);
    assert_eq!(percentile(&h, 1.0), h.min());
    assert_eq!(percentile(&h, 100.0), h.max());
    assert_eq!(percentile(&h, 25.0), 1);
    assert_eq!(percentile(&h, 75.0), 4);
    assert_eq!(mean(&h), 3.75);
    assert!((stddev(&h) - 2.680951323690902).abs() < 1e-12);
    assert_eq!(
        entries(&h),
        vec![(0.0, 1), (50.0, 2), (75.0, 4), (87.5, 8), (100.0, 8)]
    );
}

#[test]
fn two_sample_percentile_map_keys() {
    let mut h = default_histogram();
    h.record(2);
    h.record(3);
    assert_eq!(
        entries(&h),
        vec![(0.0, 2), (50.0, 2), (75.0, 3), (100.0, 3)]
    );
}

#[test]
fn to_json_stats_match_the_node_oracle() {
    let mut h = default_histogram();
    h.record(3);
    h.record(7);
    assert_eq!(h.total_count, 2);
    assert_eq!(h.min(), 3);
    assert_eq!(h.max(), 7);
    assert_eq!(mean(&h), 5.0);
    assert_eq!(stddev(&h), 2.0);
    assert_eq!(h.exceeds, 0);
}

#[test]
fn empty_state_sentinels() {
    let h = default_histogram();
    assert_eq!(h.min(), i64::MAX);
    assert_eq!(h.max(), 0);
    assert_eq!(h.total_count, 0);
    assert!(mean(&h).is_nan());
    assert!(stddev(&h).is_nan());
    assert!(h.percentile_entries().is_empty());
}

#[test]
fn reset_restores_the_empty_state() {
    let mut h = default_histogram();
    h.record(5);
    h.reset();
    assert_eq!(h.min(), i64::MAX);
    assert_eq!(h.max(), 0);
    assert_eq!(h.total_count, 0);
    assert!(mean(&h).is_nan());
}

#[test]
fn add_copies_and_isolates() {
    let mut source = default_histogram();
    let mut target = default_histogram();
    source.record(4);
    source.record(8);
    target.add(&source);
    assert_eq!((target.total_count, target.min(), target.max()), (2, 4, 8));
    source.record(16);
    assert_eq!((target.total_count, target.max()), (2, 8));
}

#[test]
fn small_values_are_exact() {
    let mut h = default_histogram();
    h.record(5);
    h.record(9);
    assert_eq!((h.total_count, h.min(), h.max()), (2, 5, 9));
    assert!(mean(&h) >= 5.0 && mean(&h) <= 9.0);
    assert!(stddev(&h) >= 0.0);
}

#[test]
fn out_of_range_values_count_as_exceeds() {
    let mut h = Histogram::new(HistogramKind::Recordable, 1, 100, 3);
    h.record(50);
    h.record(1_000_000_000_000);
    assert_eq!(h.total_count, 1);
    assert_eq!(h.exceeds, 1);
}

#[test]
fn eld_range_resolves_small_deltas() {
    let mut h = Histogram::new(HistogramKind::Eld, 1, 3_600_000_000_000, 3);
    h.record(1);
    assert_eq!(h.min(), 1);
    assert!(h.max() >= 1);
}

#[test]
fn buckets_widen_with_the_values() {
    let s = Shape { unit: 0, half: 10 };
    assert_eq!(s.bucket_index(2047), 0);
    assert_eq!(s.bucket_index(2048), 1);
    assert_eq!(s.counts_index_for(2047), 2047);
    assert_eq!(s.counts_index_for(2048), 2048);
    assert_eq!(s.counts_index_for(2049), 2048);
    assert_eq!(s.counts_index_for(4096), 3072);
    assert_eq!(s.value_at_index(2048), 2048);
    assert_eq!(s.value_at_index(3072), 4096);
    assert_eq!(s.value_at_index(5), 5);
    assert_eq!(s.lowest_equivalent(4099), 4096);
    assert_eq!(s.highest_equivalent(4099), 4099);
    assert_eq!(s.median_equivalent(4099), 4098);
    assert_eq!(s.size_of_equivalent_range(4099), 4);
    assert_eq!(s.highest_equivalent(i64::MAX), i64::MAX);
    let coarse = Shape { unit: 3, half: 4 };
    assert_eq!(coarse.counts_index_for(7), 0);
    assert_eq!(coarse.counts_index_for(8), 1);
    assert_eq!(coarse.highest_equivalent(0), 7);
}

#[test]
fn every_counter_is_the_counter_of_its_value() {
    let s = Shape { unit: 2, half: 4 };
    for i in 0..200u64 {
        assert_eq!(s.counts_index_for(s.value_at_index(i)), i);
    }
    let mut last = 0;
    for v in 0..5000i64 {
        let i = s.counts_index_for(v);
        assert!(i >= last);
        assert_eq!(s.value_at_index(i), s.lowest_equivalent(v));
        last = i;
    }
}

#[test]
fn negative_values_are_out_of_range() {
    let mut h = default_histogram();
    h.record(-5);
    assert_eq!((h.total_count, h.exceeds), (0, 1));
    assert!(!h.record_values(-1, 3));
    assert!(h.record_values(10, 3));
    assert_eq!(h.total_count, 3);
}

#[test]
fn zero_is_the_minimum_once_recorded() {
    let mut h = default_histogram();
    h.record(0);
    h.record(12);
    assert_eq!(h.min(), 0);
    assert_eq!(h.max(), 12);
    assert_eq!(h.percentile(1), 0);
    assert_eq!(h.percentile(2), 12);
    assert_eq!(h.percentile(3), 0);
    assert_eq!(h.percentile(-4), 0);
}

#[test]
fn the_last_rank_reads_the_maximum_of_large_values() {
    let mut h = default_histogram();
    for n in [1_000_000, 123_456_789, 77] {
        h.record(n);
    }
    assert_eq!(h.percentile(3), h.max());
    assert_eq!(h.percentile(1), 77);
    assert!(h.max() >= 123_456_789);
    assert!(h.percentile(1) <= h.percentile(2) && h.percentile(2) <= h.percentile(3));
}

#[test]
fn adding_out_of_range_values_counts_them() {
    let mut big = default_histogram();
    big.record_values(1_000_000_000, 4);
    big.record(3);
    let mut small = Histogram::new(HistogramKind::Recordable, 1, 100, 1);
    small.add(&big);
    assert_eq!((small.total_count, small.exceeds), (1, 4));
}

#[test]
fn ranges_that_cannot_be_tracked_are_told() {
    assert!(histogram_fits(1, 3));
    assert!(histogram_fits(1 << 44, 5));
    assert!(!histogram_fits(1 << 45, 5));
    assert!(histogram_fits(MAX_SAFE_INTEGER, 1));
}

fn empty_store() -> HistogramStore {
    HistogramStore { histograms: Vec::new() }
}

fn whole(n: i64) -> JsArg {
    JsArg::Number(JsNumber::Integer(n))
}

fn call(store: &mut HistogramStore, id: usize, method: &str, arg: JsArg) -> MethodResult {
    histogram_method(store, JsArg::Histogram(id), method, arg, PercentileArg::NotANumber, 0)
}

#[test]
fn options_are_validated_in_order() {
    let mut store = empty_store();
    let given = |lowest, highest, figures| CreateOptions::Given { lowest, highest, figures };
    let u = JsArg::Undefined;
    assert_eq!(js_perf_create_histogram(&mut store, CreateOptions::Omitted), Ok(0));
    assert_eq!(js_perf_create_histogram(&mut store, given(u, u, u)), Ok(1));
    assert_eq!(
        js_perf_create_histogram(&mut store, CreateOptions::NotAnObject),
        Err(HistogramError::NotAnObject(ArgName::Options))
    );
    assert_eq!(
        js_perf_create_histogram(&mut store, given(JsArg::Null, u, u)),
        Err(HistogramError::NotANumber(ArgName::Lowest))
    );
    assert_eq!(
        js_perf_create_histogram(&mut store, given(whole(0), u, u)),
        Err(HistogramError::OutOfBounds {
            name: ArgName::Lowest,
            min: 1,
            max: Some(MAX_SAFE_INTEGER)
        })
    );
    assert_eq!(
        js_perf_create_histogram(&mut store, given(whole(10), whole(19), u)),
        Err(HistogramError::OutOfBounds {
            name: ArgName::Highest,
            min: 20,
            max: Some(MAX_SAFE_INTEGER)
        })
    );
    assert_eq!(
        js_perf_create_histogram(&mut store, given(whole(10), whole(20), whole(6))),
        Err(HistogramError::OutOfBounds { name: ArgName::Figures, min: 1, max: Some(5) })
    );
    assert_eq!(
        js_perf_create_histogram(&mut store, given(u, u, JsArg::Number(JsNumber::NotInteger))),
        Err(HistogramError::NotAnInteger(ArgName::Figures))
    );
    assert_eq!(js_perf_create_histogram(&mut store, given(whole(10), whole(20), whole(1))), Ok(2));
    assert_eq!(store.histograms.len(), 3);
    assert_eq!(store.histograms[2].shape, Shape { unit: 3, half: 4 });
}

#[test]
fn monitors_take_any_positive_resolution() {
    let mut store = empty_store();
    let given = |resolution| MonitorOptions::Given { resolution };
    assert_eq!(js_perf_monitor_event_loop_delay(&mut store, MonitorOptions::Omitted), Ok(0));
    assert_eq!(js_perf_monitor_event_loop_delay(&mut store, given(whole(10))), Ok(1));
    let huge = JsArg::Number(JsNumber::HugeInteger { negative: false });
    assert_eq!(js_perf_monitor_event_loop_delay(&mut store, given(huge)), Ok(2));
    assert_eq!(
        js_perf_monitor_event_loop_delay(&mut store, given(whole(0))),
        Err(HistogramError::OutOfBounds { name: ArgName::Resolution, min: 1, max: None })
    );
    assert_eq!(
        js_perf_monitor_event_loop_delay(&mut store, MonitorOptions::NotAnObject),
        Err(HistogramError::NotAnObject(ArgName::Options))
    );
    let negative = JsArg::Number(JsNumber::HugeInteger { negative: true });
    assert_eq!(
        validate_integer(negative, ArgName::Val, 1, None),
        Err(HistogramError::OutOfBounds { name: ArgName::Val, min: 1, max: None })
    );
    assert_eq!(store.histograms[0].kind, HistogramKind::Eld);
    assert_eq!(store.histograms[0].kind.ctor_name(), "ELDHistogram");
}

#[test]
fn methods_record_add_and_reset() {
    let mut store = empty_store();
    js_perf_create_histogram(&mut store, CreateOptions::Omitted).unwrap();
    js_perf_create_histogram(&mut store, CreateOptions::Omitted).unwrap();
    assert!(matches!(call(&mut store, 0, "record", whole(4)), MethodResult::Undefined));
    assert!(matches!(call(&mut store, 0, "record", JsArg::BigInt(8)), MethodResult::Undefined));
    assert!(matches!(
        call(&mut store, 0, "record", whole(0)),
        MethodResult::Throw(HistogramError::OutOfBounds { name: ArgName::Val, .. })
    ));
    assert!(matches!(
        call(&mut store, 0, "record", JsArg::Null),
        MethodResult::Throw(HistogramError::NotANumber(ArgName::Val))
    ));
    assert_eq!(store.histograms[0].total_count, 2);
    assert_eq!(store.histograms[1].total_count, 0);
    assert!(matches!(call(&mut store, 1, "add", JsArg::Histogram(0)), MethodResult::Undefined));
    assert_eq!(store.histograms[1].total_count, 2);
    assert_eq!((store.histograms[1].min(), store.histograms[1].max()), (4, 8));
    call(&mut store, 1, "add", JsArg::Histogram(1));
    assert_eq!(store.histograms[1].total_count, 2, "adding to itself does nothing");
    call(&mut store, 0, "add", JsArg::Histogram(1));
    assert_eq!(store.histograms[0].total_count, 4);
    assert!(matches!(
        call(&mut store, 0, "add", JsArg::Undefined),
        MethodResult::Throw(HistogramError::AddNothing)
    ));
    assert!(matches!(
        call(&mut store, 0, "add", JsArg::Histogram(9)),
        MethodResult::Throw(HistogramError::AddNoHistogram)
    ));
    assert!(matches!(call(&mut store, 0, "reset", JsArg::Undefined), MethodResult::Undefined));
    assert_eq!(store.histograms[0].total_count, 0);
    assert_eq!(store.histograms[1].total_count, 2);
    assert!(matches!(call(&mut store, 0, "nonsense", whole(1)), MethodResult::NotFound));
    assert!(matches!(call(&mut store, 7, "record", whole(1)), MethodResult::NotFound));
    assert!(matches!(
        call(&mut store, 7, "ELDHistogram", whole(1)),
        MethodResult::Throw(HistogramError::IllegalConstructor)
    ));
    assert!(matches!(
        call(&mut store, 0, "RecordableHistogram", whole(1)),
        MethodResult::Throw(HistogramError::IllegalConstructor)
    ));
}

#[test]
fn deltas_start_with_the_second_call() {
    let mut store = empty_store();
    js_perf_create_histogram(&mut store, CreateOptions::Omitted).unwrap();
    let at = |store: &mut HistogramStore, now| {
        histogram_method(
            store,
            JsArg::Histogram(0),
            "recordDelta",
            JsArg::Undefined,
            PercentileArg::NotANumber,
            now,
        );
    };
    at(&mut store, 1_000);
    assert_eq!(store.histograms[0].total_count, 0);
    at(&mut store, 1_250);
    assert_eq!(store.histograms[0].total_count, 1);
    assert_eq!(store.histograms[0].min(), 250);
    at(&mut store, 1_200);
    assert_eq!(store.histograms[0].min(), 0);
}

#[test]
fn only_delay_histograms_can_be_enabled() {
    let mut store = empty_store();
    js_perf_create_histogram(&mut store, CreateOptions::Omitted).unwrap();
    js_perf_monitor_event_loop_delay(&mut store, MonitorOptions::Omitted).unwrap();
    assert!(matches!(call(&mut store, 0, "enable", whole(1)), MethodResult::Bool(false)));
    assert!(matches!(call(&mut store, 1, "enable", whole(1)), MethodResult::Bool(true)));
    assert!(matches!(call(&mut store, 1, "enable", whole(1)), MethodResult::Bool(false)));
    assert!(matches!(call(&mut store, 1, "disable", whole(1)), MethodResult::Bool(true)));
    assert!(!store.histograms[1].enabled);
}

#[test]
fn percentile_methods_check_their_argument() {
    let mut store = empty_store();
    js_perf_create_histogram(&mut store, CreateOptions::Omitted).unwrap();
    for n in [1, 2, 4, 8] {
        call(&mut store, 0, "record", whole(n));
    }
    let mut ask = |method: &str, p| {
        histogram_method(&mut store, JsArg::Histogram(0), method, JsArg::Undefined, p, 0)
    };
    assert!(matches!(ask("percentile", PercentileArg::Rank(3)), MethodResult::Number(4)));
    assert!(matches!(ask("percentileBigInt", PercentileArg::Rank(4)), MethodResult::BigInt(8)));
    assert!(matches!(
        ask("percentile", PercentileArg::NotANumber),
        MethodResult::Throw(HistogramError::PercentileNotANumber)
    ));
    assert!(matches!(
        ask("percentileBigInt", PercentileArg::OutOfRange),
        MethodResult::Throw(HistogramError::PercentileOutOfRange)
    ));
    match ask("toJSON", PercentileArg::NotANumber) {
        MethodResult::Json(j) => {
            assert_eq!((j.count, j.min, j.max, j.exceeds), (4, 1, 8, 0));
            assert_eq!(j.moments.mean, Some((15, 4)));
            assert_eq!(j.moments.medians, vec![(1, 1), (1, 2), (1, 4), (1, 8)]);
            assert_eq!(j.percentiles.len(), 5);
            assert_eq!(j.percentiles[4], (Tick::Full, 8));
        }
        _ => panic!("toJSON gives figures"),
    }
}

#[test]
fn properties_read_the_figures() {
    let mut store = empty_store();
    js_perf_create_histogram(&mut store, CreateOptions::Omitted).unwrap();
    record_timerify_duration(&mut store, JsArg::Histogram(0), 5);
    record_timerify_duration(&mut store, JsArg::Other, 5);
    let read = |name: &str| histogram_property(&store, JsArg::Histogram(0), name);
    assert!(matches!(read("count"), Some(PropertyValue::Number(1))));
    assert!(matches!(read("countBigInt"), Some(PropertyValue::BigInt(1))));
    assert!(matches!(read("min"), Some(PropertyValue::Number(5))));
    assert!(matches!(read("minBigInt"), Some(PropertyValue::BigInt(5))));
    assert!(matches!(read("max"), Some(PropertyValue::Number(5))));
    assert!(matches!(read("maxBigInt"), Some(PropertyValue::BigInt(5))));
    assert!(matches!(read("exceeds"), Some(PropertyValue::Number(0))));
    assert!(matches!(read("exceedsBigInt"), Some(PropertyValue::BigInt(0))));
    assert!(matches!(read("mean"), Some(PropertyValue::Mean(Some((5, 1))))));
    match read("stddev") {
        Some(PropertyValue::StdDev(m)) => assert_eq!(m.medians, vec![(1, 5)]),
        _ => panic!("stddev is a figure"),
    }
    match read("percentilesBigInt") {
        Some(PropertyValue::Percentiles { cached: 0, entries, as_bigint: true }) => {
            assert_eq!(entries, vec![(Tick::Halving(0), 5), (Tick::Full, 5)]);
        }
        _ => panic!("percentiles are a list"),
    }
    assert!(matches!(
        read("percentiles"),
        Some(PropertyValue::Percentiles { as_bigint: false, .. })
    ));
    match read("constructor") {
        Some(PropertyValue::Constructor(name)) => assert_eq!(name, "RecordableHistogram"),
        _ => panic!("there is a constructor"),
    }
    assert!(read("unknown").is_none());
    assert!(histogram_property(&store, JsArg::Histogram(4), "count").is_none());
    assert!(histogram_property(&store, JsArg::Null, "count").is_none());
    assert_eq!(histogram_id_from_value(&store, JsArg::Histogram(0)), Some(0));
}

#[test]
fn the_percentile_map_is_kept_alive() {
    let mut store = empty_store();
    js_perf_create_histogram(&mut store, CreateOptions::Omitted).unwrap();
    js_perf_create_histogram(&mut store, CreateOptions::Omitted).unwrap();
    remember_map(&mut store, 1, 0x7FFD_0000_0000_1000);
    let mut word_moves = HashMap::new();
    word_moves.insert(0x7FFD_0000_0000_1000, 0x7FFD_0000_0000_2000);
    let mut visitor = RuntimeRootVisitor { moves: HashMap::new(), word_moves, visits: Vec::new() };
    scan_histogram_roots_mut(&mut store, &mut visitor);
    assert_eq!(visitor.visits, vec![Visit::Word(0x7FFD_0000_0000_1000)]);
    assert_eq!(store.histograms[0].map_bits, 0);
    assert_eq!(store.histograms[1].map_bits, 0x7FFD_0000_0000_2000);
}

#[test]
fn messages_name_their_argument() {
    let e = HistogramError::NotANumber(ArgName::Val);
    assert_eq!(e.message_head(), "The \"val\" argument must be of type number");
    assert_eq!(e.error_class(), ErrorClass::InvalidArgType);
    let e = HistogramError::NotAnObject(ArgName::Options);
    assert_eq!(e.message_head(), "The \"options\" argument must be of type object");
    let e = HistogramError::NotAnInteger(ArgName::Lowest);
    assert_eq!(
        e.message_head(),
        "The value of \"options.lowest\" is out of range. It must be an integer. Received "
    );
    assert_eq!(e.error_class(), ErrorClass::OutOfRange);
    let e = HistogramError::OutOfBounds { name: ArgName::Figures, min: 1, max: Some(5) };
    assert_eq!(
        e.message_head(),
        "The value of \"options.figures\" is out of range. It must be >= "
    );
    assert_eq!(HistogramError::IllegalConstructor.message_head(), "Illegal constructor");
    assert_eq!(HistogramError::IllegalConstructor.error_class(), ErrorClass::IllegalConstructor);
    assert_eq!(HistogramError::AddNothing.error_class(), ErrorClass::PlainTypeError);
    assert_eq!(
        HistogramError::AddNoHistogram.message_head(),
        "The \"other\" argument must be an instance of RecordableHistogram"
    );
    assert_eq!(
        HistogramError::PercentileNotANumber.message_head(),
        "The \"percentile\" argument must be of type number"
    );
    assert_eq!(
        HistogramError::PercentileOutOfRange.message_head(),
        "The value of \"percentile\" is out of range. It must be > 0 && <= 100. Received "
    );
    assert_eq!(ArgName::Highest.as_str(), "options.highest");
    assert_eq!(ArgName::Resolution.as_str(), "options.resolution");
}

#[test]
fn the_highest_value_is_the_last_in_range() {
    let mut h = Histogram::new(HistogramKind::Recordable, 1, 100, 3);
    h.record(100);
    assert_eq!((h.total_count, h.exceeds), (1, 0));
    h.record(101);
    assert_eq!((h.total_count, h.exceeds), (1, 1));
    assert!(!h.record_values(101, 3));
    assert_eq!((h.total_count, h.max()), (1, 100));
}

#[test]
fn extremes_are_read_from_the_counters() {
    let (mut a, mut b) = (default_histogram(), default_histogram());
    a.record(2048);
    b.record(2049);
    assert_eq!(a.counts, b.counts);
    assert_eq!((a.min(), a.max()), (2048, 2049));
    assert_eq!((b.min(), b.max()), (2048, 2049));
    let mut coarse = Histogram::new(HistogramKind::Recordable, 8, 1000, 1);
    coarse.record(5);
    assert_eq!((coarse.min(), coarse.max()), (0, 7), "the first counter covers zero");
    let mut zero = Histogram::new(HistogramKind::Recordable, 8, 1000, 1);
    zero.record(0);
    assert_eq!(coarse.counts, zero.counts);
    assert_eq!((zero.min(), zero.max()), (0, 7));
}

#[test]
fn the_first_rank_shares_its_counter_with_the_minimum() {
    let mut h = default_histogram();
    h.record(2049);
    h.record(9000);
    assert_eq!(h.min(), 2048);
    assert_eq!(h.percentile(1), 2049);
    assert_eq!(h.shape.counts_index_for(h.percentile(1)), h.shape.counts_index_for(h.min()));
}

#[test]
fn a_run_of_values_is_counted_in_full() {
    let mut h = Histogram::new(HistogramKind::Recordable, 1, 100, 2);
    for v in [5, 200, -1, 7, 100, 101] {
        h.record(v);
    }
    assert_eq!((h.total_count, h.exceeds), (3, 3));
    assert_eq!(h.counts.iter().sum::<u64>(), 3);
    assert!([5, 7, 100].iter().all(|v| h.min() <= *v && *v <= h.max()));
}

#[test]
fn adding_takes_the_greater_maximum_either_way() {
    let (mut a, mut b) = (default_histogram(), default_histogram());
    a.record(10);
    b.record(5_000_000);
    let (small, great) = (a.max(), b.max());
    assert!(small < great);
    let mut both = default_histogram();
    both.add(&a);
    both.add(&b);
    assert_eq!(both.max(), great);
    let mut other_way = default_histogram();
    other_way.add(&b);
    other_way.add(&a);
    assert_eq!(other_way.max(), great);
    assert_eq!(both.counts, other_way.counts);
}

#[test]
fn percentile_lists_rise_to_the_maximum() {
    let mut h = default_histogram();
    for v in [3, 900, 2_000_000, 17, 2049] {
        h.record(v);
    }
    let list = entries(&h);
    assert!(list.windows(2).all(|w| w[0].0 < w[1].0 && w[0].1 <= w[1].1));
    assert_eq!(list.last().copied(), Some((100.0, h.max())));
}

#[test]
fn counts_of_nothing_are_accepted() {
    let mut h = default_histogram();
    assert!(h.record_values(6, 0));
    assert_eq!((h.total_count, h.exceeds), (0, 0));
    assert!(h.record_values(6, u64::MAX));
    assert_eq!(h.total_count, u64::MAX);
    assert!(!h.has_room(6));
    assert!(h.has_room(-1), "a value out of range has a counter of its own");
    assert!(h.record_values(6, 0), "nothing still fits");
}

#[test]
fn only_calls_that_count_need_room() {
    let mut store = empty_store();
    js_perf_create_histogram(&mut store, CreateOptions::Omitted).unwrap();
    js_perf_create_histogram(&mut store, CreateOptions::Omitted).unwrap();
    store.histograms[0].record_values(6, u64::MAX);
    store.histograms[1].record(1);
    let room = |store: &HistogramStore, id: usize, method: &str, arg: JsArg| {
        call_has_room(store, JsArg::Histogram(id), method, arg, 0)
    };
    assert!(!room(&store, 0, "record", whole(1)));
    assert!(room(&store, 1, "record", whole(1)), "the other histogram is not concerned");
    assert!(room(&store, 0, "record", whole(0)), "the argument is refused");
    assert!(room(&store, 0, "record", whole(MAX_SAFE_INTEGER + 1)));
    assert!(!room(&store, 1, "add", JsArg::Histogram(0)));
    assert!(!room(&store, 0, "add", JsArg::Histogram(1)));
    assert!(room(&store, 0, "add", JsArg::Histogram(0)), "adding to itself does nothing");
    assert!(room(&store, 0, "recordDelta", JsArg::Undefined), "the first delta records nothing");
    for method in ["reset", "percentile", "percentileBigInt", "enable", "toJSON", "nonsense"] {
        assert!(room(&store, 0, method, whole(50)));
    }
    assert!(matches!(call(&mut store, 1, "record", whole(1)), MethodResult::Undefined));
    assert_eq!(store.histograms[1].total_count, 2);
    assert!(matches!(call(&mut store, 0, "reset", JsArg::Undefined), MethodResult::Undefined));
    assert!(room(&store, 0, "record", whole(1)));
}

#[test]
fn full_histograms_are_still_read() {
    let mut h = default_histogram();
    h.record_values(6, u64::MAX);
    assert_eq!((h.min(), h.max(), h.percentile(1)), (6, 6, 6));
    assert_eq!(h.percentile_entries().last().map(|e| e.1), Some(6));
    assert!(!h.has_room_for_all(&h));
    assert!(h.has_room_for_all(&default_histogram()));
}

#[test]
fn new_handles_are_idle() {
    let mut store = empty_store();
    js_perf_create_histogram(&mut store, CreateOptions::Omitted).unwrap();
    js_perf_monitor_event_loop_delay(&mut store, MonitorOptions::Omitted).unwrap();
    for h in &store.histograms {
        assert_eq!((h.enabled, h.prev_delta, h.map_bits), (false, None, 0));
    }
    assert_eq!(store.histograms[0].kind, HistogramKind::Recordable);
    assert_eq!(store.histograms[1].kind, HistogramKind::Eld);
    assert_eq!(store.histograms[0].highest, MAX_SAFE_INTEGER);
}
