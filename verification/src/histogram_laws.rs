//! What the histogram interface promises its callers: which arguments it
//! takes, what its errors say of them, and what each property and method does.

use vstd::prelude::*;
use vstd::string::*;
use crate::histogram::{HistState, Histogram, HistogramKind};
use crate::histogram_api::{
    delta, delta_noted, handle_of, integer_in, is_property_value, map_visits, method_effect,
    method_named, monitor_error, option_in, property_named, recordable, resolved, ArgName,
    CreateOptions, ErrorClass, HistogramError, HistogramMethod, HistogramProperty, HistogramRange,
    HistogramStore, JsArg, JsNumber, MethodResult, MonitorOptions, PercentileArg, PropertyValue,
};
use crate::roots::Visit;

verus! {

// ---------------------------------------------------------------------------
// Arguments
// ---------------------------------------------------------------------------

/// An integer is taken as it is where it lies within the bounds, which belong
/// to them. Everything else is refused, with what was wrong.
pub proof fn law_integers_are_taken_within_their_bounds(
    n: i64,
    name: ArgName,
    min: i64,
    max: Option<i64>,
)
    ensures
        ({
            let r = integer_in(JsArg::Number(JsNumber::Integer(n)), name, min, max);
            let within = min <= n && (max matches Some(m) ==> n <= m);
            &&& within ==> r == Ok::<i64, HistogramError>(n)
            &&& !within ==> r == Err::<i64, HistogramError>(
                HistogramError::OutOfBounds { name, min, max },
            )
        }),
        integer_in(JsArg::Number(JsNumber::NotInteger), name, min, max) == Err::<
            i64,
            HistogramError,
        >(HistogramError::NotAnInteger(name)),
        integer_in(JsArg::Number(JsNumber::HugeInteger { negative: true }), name, min, max)
            == Err::<i64, HistogramError>(HistogramError::OutOfBounds { name, min, max }),
        max is Some ==> integer_in(
            JsArg::Number(JsNumber::HugeInteger { negative: false }),
            name,
            min,
            max,
        ) == Err::<i64, HistogramError>(HistogramError::OutOfBounds { name, min, max }),
        max is None ==> integer_in(
            JsArg::Number(JsNumber::HugeInteger { negative: false }),
            name,
            min,
            max,
        ) == Ok::<i64, HistogramError>(i64::MAX),
{
}

/// What is no number is refused as such; numbers are refused as out of range.
/// Only an option may be left out, for its default.
pub proof fn law_errors_tell_the_type_from_the_range(
    arg: JsArg,
    default: i64,
    name: ArgName,
    min: i64,
    max: Option<i64>,
)
    ensures
        integer_in(arg, name, min, max) matches Err(e) ==> {
            &&& e.class() == ErrorClass::InvalidArgType <==> !(arg is Number)
            &&& e.class() == ErrorClass::OutOfRange <==> arg is Number
        },
        !(arg is Number) ==> integer_in(arg, name, min, max) == Err::<i64, HistogramError>(
            HistogramError::NotANumber(name),
        ),
        arg is Undefined ==> option_in(arg, default, name, min, max) == Ok::<i64, HistogramError>(
            default,
        ),
        !(arg is Undefined) ==> option_in(arg, default, name, min, max) == integer_in(
            arg,
            name,
            min,
            max,
        ),
{
}

/// Options within their bounds make a histogram with exactly them: the lowest
/// from 1 on, the highest from twice that, the figures from 1 to 5.
pub proof fn law_options_are_taken_as_given(lowest: i64, highest: i64, figures: i64)
    ensures
        ({
            let r = resolved(
                CreateOptions::Given {
                    lowest: JsArg::Number(JsNumber::Integer(lowest)),
                    highest: JsArg::Number(JsNumber::Integer(highest)),
                    figures: JsArg::Number(JsNumber::Integer(figures)),
                },
            );
            let low_ok = 1 <= lowest <= 9_007_199_254_740_991;
            let high_ok = 2 * lowest <= highest <= 9_007_199_254_740_991;
            let figures_ok = 1 <= figures <= 5;
            &&& low_ok && high_ok && figures_ok ==> r == Ok::<HistogramRange, HistogramError>(
                HistogramRange { lowest, highest, figures: figures as u32 },
            )
            &&& !low_ok ==> r == Err::<HistogramRange, HistogramError>(
                HistogramError::OutOfBounds {
                    name: ArgName::Lowest,
                    min: 1,
                    max: Some(9_007_199_254_740_991i64),
                },
            )
            &&& low_ok && !high_ok ==> r == Err::<HistogramRange, HistogramError>(
                HistogramError::OutOfBounds {
                    name: ArgName::Highest,
                    min: (2 * lowest) as i64,
                    max: Some(9_007_199_254_740_991i64),
                },
            )
            &&& low_ok && high_ok && !figures_ok ==> r == Err::<HistogramRange, HistogramError>(
                HistogramError::OutOfBounds { name: ArgName::Figures, min: 1, max: Some(5i64) },
            )
        }),
{
}

/// Options that are left out have their defaults, and options that are no
/// object are refused.
pub proof fn law_options_left_out_have_defaults(lowest: i64)
    requires
        1 <= lowest <= 4_503_599_627_370_495,
    ensures
        resolved(
            CreateOptions::Given {
                lowest: JsArg::Number(JsNumber::Integer(lowest)),
                highest: JsArg::Undefined,
                figures: JsArg::Undefined,
            },
        ) == Ok::<HistogramRange, HistogramError>(
            HistogramRange { lowest, highest: 9_007_199_254_740_991, figures: 3 },
        ),
        resolved(CreateOptions::Omitted) == Ok::<HistogramRange, HistogramError>(
            HistogramRange { lowest: 1, highest: 9_007_199_254_740_991, figures: 3 },
        ),
        resolved(CreateOptions::NotAnObject) == Err::<HistogramRange, HistogramError>(
            HistogramError::NotAnObject(ArgName::Options),
        ),
{
}

/// A monitor takes any resolution from 1 on, or none.
pub proof fn law_monitors_take_any_resolution(n: i64)
    ensures
        n >= 1 ==> monitor_error(
            MonitorOptions::Given { resolution: JsArg::Number(JsNumber::Integer(n)) },
        ) is None,
        n < 1 ==> monitor_error(
            MonitorOptions::Given { resolution: JsArg::Number(JsNumber::Integer(n)) },
        ) == Some(
            HistogramError::OutOfBounds { name: ArgName::Resolution, min: 1, max: None },
        ),
        monitor_error(MonitorOptions::Given { resolution: JsArg::Undefined }) is None,
        monitor_error(MonitorOptions::Omitted) is None,
        monitor_error(MonitorOptions::NotAnObject) == Some(
            HistogramError::NotAnObject(ArgName::Options),
        ),
{
}

/// A value to record is a big integer, or an integer from 1 on that every
/// smaller one can be told from.
pub proof fn law_recordable_values(n: i64, arg: JsArg)
    ensures
        recordable(JsArg::BigInt(n)) == Ok::<i64, HistogramError>(n),
        1 <= n <= 9_007_199_254_740_991 ==> recordable(JsArg::Number(JsNumber::Integer(n)))
            == Ok::<i64, HistogramError>(n),
        n < 1 || n > 9_007_199_254_740_991 ==> recordable(JsArg::Number(JsNumber::Integer(n)))
            == Err::<i64, HistogramError>(
            HistogramError::OutOfBounds {
                name: ArgName::Val,
                min: 1,
                max: Some(9_007_199_254_740_991i64),
            },
        ),
        !(arg is Number) && !(arg is BigInt) ==> recordable(arg) == Err::<i64, HistogramError>(
            HistogramError::NotANumber(ArgName::Val),
        ),
{
}

/// A handle names the histogram of its number, where there is one.
pub proof fn law_handles_name_their_histogram(store: &HistogramStore, id: usize, arg: JsArg)
    ensures
        id < store.histograms@.len() ==> handle_of(store, JsArg::Histogram(id)) == Some(id),
        id >= store.histograms@.len() ==> handle_of(store, JsArg::Histogram(id)) is None,
        !(arg is Histogram) ==> handle_of(store, arg) is None,
{
}

// ---------------------------------------------------------------------------
// Deltas
// ---------------------------------------------------------------------------

/// A delta is the time since the one before: nothing where the clock went
/// back, and no more than fits.
pub proof fn law_deltas_are_the_time_between(previous: u128, now: u128)
    ensures
        previous <= now && now - previous <= i64::MAX ==> delta(previous, now) == now - previous,
        now < previous ==> delta(previous, now) == 0,
        now - previous > i64::MAX ==> delta(previous, now) == i64::MAX,
{
}

/// The first delta only starts the clock; each later one records the time
/// since the one before, and starts it anew.
pub proof fn law_deltas_follow_each_other(s: HistState, a: u128, b: u128)
    requires
        s.prev_delta is None,
        a <= b,
        b - a <= i64::MAX,
    ensures
        ({
            let one = delta_noted(s, a);
            let two = delta_noted(one, b);
            &&& one == (HistState { prev_delta: Some(a), ..s })
            &&& two == (HistState { prev_delta: Some(b), ..one.noted(b - a, 1) })
            &&& two.total + two.exceeds == s.total + s.exceeds + 1
        }),
{
}

// ---------------------------------------------------------------------------
// Properties
// ---------------------------------------------------------------------------

/// A property is what its name says of the histogram, as a number or, under
/// the longer name, as a big integer.
pub proof fn law_properties_are_what_they_are_called(h: &Histogram, v: Option<PropertyValue>)
    ensures
        is_property_value(h, property_named("count"@), v) <==> v == Some(
            PropertyValue::Number(h.total_count as i64),
        ),
        is_property_value(h, property_named("countBigInt"@), v) <==> v == Some(
            PropertyValue::BigInt(h.total_count as i64),
        ),
        is_property_value(h, property_named("min"@), v) <==> v == Some(
            PropertyValue::Number(h@.min() as i64),
        ),
        is_property_value(h, property_named("minBigInt"@), v) <==> v == Some(
            PropertyValue::BigInt(h@.min() as i64),
        ),
        is_property_value(h, property_named("max"@), v) <==> v == Some(
            PropertyValue::Number(h@.max() as i64),
        ),
        is_property_value(h, property_named("maxBigInt"@), v) <==> v == Some(
            PropertyValue::BigInt(h@.max() as i64),
        ),
        is_property_value(h, property_named("exceeds"@), v) <==> v == Some(
            PropertyValue::Number(h.exceeds as i64),
        ),
        is_property_value(h, property_named("exceedsBigInt"@), v) <==> v == Some(
            PropertyValue::BigInt(h.exceeds as i64),
        ),
{
    lemma_names_differ();
}

/// The mean is the sum of the values over their number, the deviation comes
/// with the count and median of every used counter, and the percentiles with
/// the map that was handed out before.
pub proof fn law_derived_properties(h: &Histogram, v: Option<PropertyValue>)
    ensures
        is_property_value(h, property_named("mean"@), v) ==> (v matches Some(
            PropertyValue::Mean(m),
        ) && match m {
            None => h.total_count == 0,
            Some(p) => p.0 == h@.weighted(h@.counts.len() as int) && p.1 == h.total_count && p.1
                != 0,
        }),
        is_property_value(h, property_named("stddev"@), v) ==> (v matches Some(
            PropertyValue::StdDev(m),
        ) && m.medians@ == h@.used_upto(h@.counts.len() as int) && match m.mean {
            None => h.total_count == 0,
            Some(p) => p.0 == h@.weighted(h@.counts.len() as int) && p.1 == h.total_count && p.1
                != 0,
        }),
        is_property_value(h, property_named("percentiles"@), v) ==> (v matches Some(
            PropertyValue::Percentiles { cached, entries, as_bigint },
        ) && cached == h.map_bits && !as_bigint && h@.is_percentile_list(entries@)),
        is_property_value(h, property_named("percentilesBigInt"@), v) ==> (v matches Some(
            PropertyValue::Percentiles { cached, entries, as_bigint },
        ) && cached == h.map_bits && as_bigint && h@.is_percentile_list(entries@)),
        is_property_value(h, property_named("constructor"@), v) ==> (v matches Some(
            PropertyValue::Constructor(name),
        ) && (h.kind == HistogramKind::Eld ==> name@ == "ELDHistogram"@) && (h.kind
            == HistogramKind::Recordable ==> name@ == "RecordableHistogram"@)),
{
    lemma_names_differ();
}

/// The name of a property.
pub open spec fn property_name(p: HistogramProperty) -> Seq<char> {
    match p {
        HistogramProperty::Count => "count"@,
        HistogramProperty::CountBigInt => "countBigInt"@,
        HistogramProperty::Min => "min"@,
        HistogramProperty::MinBigInt => "minBigInt"@,
        HistogramProperty::Max => "max"@,
        HistogramProperty::MaxBigInt => "maxBigInt"@,
        HistogramProperty::Mean => "mean"@,
        HistogramProperty::StdDev => "stddev"@,
        HistogramProperty::Exceeds => "exceeds"@,
        HistogramProperty::ExceedsBigInt => "exceedsBigInt"@,
        HistogramProperty::Percentiles => "percentiles"@,
        HistogramProperty::PercentilesBigInt => "percentilesBigInt"@,
        HistogramProperty::Constructor => "constructor"@,
        HistogramProperty::Unknown => Seq::empty(),
    }
}

proof fn lemma_property_names_apart(p: HistogramProperty, k: HistogramProperty)
    requires
        p != k,
        !(p is Unknown),
        !(k is Unknown),
    ensures
        property_name(p) != property_name(k),
{
    reveal_strlit("count");
    reveal_strlit("countBigInt");
    reveal_strlit("min");
    reveal_strlit("minBigInt");
    reveal_strlit("max");
    reveal_strlit("maxBigInt");
    reveal_strlit("mean");
    reveal_strlit("stddev");
    reveal_strlit("exceeds");
    reveal_strlit("exceedsBigInt");
    reveal_strlit("percentiles");
    reveal_strlit("percentilesBigInt");
    reveal_strlit("constructor");
    let (a, b) = (property_name(p), property_name(k));
    if a.len() == b.len() {
        assert(a[0] != b[0] || a[1] != b[1] || a[2] != b[2]);
    }
}

/// Every property goes by its name.
pub proof fn law_properties_go_by_their_names(p: HistogramProperty)
    requires
        !(p is Unknown),
    ensures
        property_named(property_name(p)) == p,
{
    let k = property_named(property_name(p));
    if k != p {
        if !(k is Unknown) {
            lemma_property_names_apart(p, k);
        }
    }
}

proof fn lemma_names_differ()
    ensures
        property_named("count"@) == HistogramProperty::Count,
        property_named("countBigInt"@) == HistogramProperty::CountBigInt,
        property_named("min"@) == HistogramProperty::Min,
        property_named("minBigInt"@) == HistogramProperty::MinBigInt,
        property_named("max"@) == HistogramProperty::Max,
        property_named("maxBigInt"@) == HistogramProperty::MaxBigInt,
        property_named("mean"@) == HistogramProperty::Mean,
        property_named("stddev"@) == HistogramProperty::StdDev,
        property_named("exceeds"@) == HistogramProperty::Exceeds,
        property_named("exceedsBigInt"@) == HistogramProperty::ExceedsBigInt,
        property_named("percentiles"@) == HistogramProperty::Percentiles,
        property_named("percentilesBigInt"@) == HistogramProperty::PercentilesBigInt,
        property_named("constructor"@) == HistogramProperty::Constructor,
{
    law_properties_go_by_their_names(HistogramProperty::Count);
    law_properties_go_by_their_names(HistogramProperty::CountBigInt);
    law_properties_go_by_their_names(HistogramProperty::Min);
    law_properties_go_by_their_names(HistogramProperty::MinBigInt);
    law_properties_go_by_their_names(HistogramProperty::Max);
    law_properties_go_by_their_names(HistogramProperty::MaxBigInt);
    law_properties_go_by_their_names(HistogramProperty::Mean);
    law_properties_go_by_their_names(HistogramProperty::StdDev);
    law_properties_go_by_their_names(HistogramProperty::Exceeds);
    law_properties_go_by_their_names(HistogramProperty::ExceedsBigInt);
    law_properties_go_by_their_names(HistogramProperty::Percentiles);
    law_properties_go_by_their_names(HistogramProperty::PercentilesBigInt);
    law_properties_go_by_their_names(HistogramProperty::Constructor);
}

/// Every map of percentiles that was handed out is shown to the collector.
pub proof fn law_maps_stay_alive(hs: Seq<Histogram>, n: int, i: int)
    requires
        0 <= i < n <= hs.len(),
        hs[i].map_bits != 0,
    ensures
        map_visits(hs, n).contains(Visit::Word(hs[i].map_bits)),
    decreases n,
{
    let prev = map_visits(hs, n - 1);
    let now = map_visits(hs, n);
    if i == n - 1 {
        assert(now.last() == Visit::Word(hs[i].map_bits));
    } else {
        law_maps_stay_alive(hs, n - 1, i);
        let k = choose|k: int| 0 <= k < prev.len() && prev[k] == Visit::Word(hs[i].map_bits);
        assert(now[k] == prev[k]);
    }
}

// ---------------------------------------------------------------------------
// Methods
// ---------------------------------------------------------------------------

/// A recorded value is counted once, among the values or among those out of
/// range; a value that cannot be recorded changes nothing and is told why.
pub proof fn law_records_count_once(
    before: &HistogramStore,
    after: &HistogramStore,
    id: int,
    arg: JsArg,
    percentile: PercentileArg,
    now_ns: u128,
    r: MethodResult,
)
    requires
        method_effect(
            before,
            after,
            id,
            HistogramMethod::Record,
            arg,
            percentile,
            now_ns,
            r,
        ),
    ensures
        ({
            let h = before.histograms@[id]@;
            let g = after.histograms@[id]@;
            &&& recordable(arg) matches Ok(n) ==> {
                &&& r == MethodResult::Undefined
                &&& 0 <= n <= h.highest ==> g.total == h.total + 1 && g.exceeds == h.exceeds
                &&& n < 0 || n > h.highest ==> g.total == h.total && g.exceeds == h.exceeds + 1
                    && g.counts == h.counts
            }
            &&& recordable(arg) matches Err(e) ==> r == MethodResult::Throw(e) && g == h
        }),
{
}

/// A monitor is enabled and disabled, and tells whether that changed anything;
/// a histogram that is no monitor is never enabled.
pub proof fn law_enabling_is_told(
    before: &HistogramStore,
    after: &HistogramStore,
    id: int,
    enable: bool,
    arg: JsArg,
    percentile: PercentileArg,
    now_ns: u128,
    r: MethodResult,
)
    requires
        method_effect(
            before,
            after,
            id,
            if enable {
                HistogramMethod::Enable
            } else {
                HistogramMethod::Disable
            },
            arg,
            percentile,
            now_ns,
            r,
        ),
    ensures
        ({
            let h = before.histograms@[id];
            let g = after.histograms@[id];
            &&& h.kind == HistogramKind::Eld ==> g.enabled == enable && r == MethodResult::Bool(
                h.enabled != enable,
            )
            &&& h.kind == HistogramKind::Recordable ==> g == h && r == MethodResult::Bool(false)
            &&& g == (Histogram { enabled: g.enabled, ..h })
        }),
{
}

/// Adding takes a histogram; what is undefined or null, or none, is refused.
/// A histogram added to itself stays as it is.
pub proof fn law_adding_takes_a_histogram(
    before: &HistogramStore,
    after: &HistogramStore,
    id: int,
    arg: JsArg,
    percentile: PercentileArg,
    now_ns: u128,
    r: MethodResult,
)
    requires
        0 <= id < before.histograms@.len(),
        method_effect(
            before,
            after,
            id,
            HistogramMethod::AddOther,
            arg,
            percentile,
            now_ns,
            r,
        ),
    ensures
        ({
            let h = before.histograms@[id]@;
            let g = after.histograms@[id]@;
            &&& arg is Undefined || arg is Null ==> r == MethodResult::Throw(
                HistogramError::AddNothing,
            ) && after.histograms@ == before.histograms@
            &&& !(arg is Undefined) && !(arg is Null) && !(arg is Histogram) ==> r
                == MethodResult::Throw(HistogramError::AddNoHistogram) && after.histograms@
                == before.histograms@
            &&& arg matches JsArg::Histogram(other) ==> {
                &&& other < before.histograms@.len() ==> r == MethodResult::Undefined
                &&& other == id ==> g == h
                &&& other < before.histograms@.len() && other != id ==> ({
                    let o = before.histograms@[other as int]@;
                    g == h.added(o, o.counts.len() as int)
                })
            }
        }),
{
}

/// A percentile is read as a number or as a big integer and changes nothing;
/// so is one that is refused.
pub proof fn law_percentiles_only_read(
    before: &HistogramStore,
    after: &HistogramStore,
    id: int,
    bigint: bool,
    arg: JsArg,
    percentile: PercentileArg,
    now_ns: u128,
    r: MethodResult,
)
    requires
        method_effect(
            before,
            after,
            id,
            if bigint {
                HistogramMethod::PercentileBigInt
            } else {
                HistogramMethod::Percentile
            },
            arg,
            percentile,
            now_ns,
            r,
        ),
    ensures
        ({
            let h = before.histograms@[id]@;
            &&& after.histograms@ == before.histograms@
            &&& percentile matches PercentileArg::Rank(rank) ==> ({
                let v = h.at_rank(rank as int) as i64;
                &&& bigint ==> r == MethodResult::BigInt(v)
                &&& !bigint ==> r == MethodResult::Number(v)
            })
            &&& percentile is NotANumber ==> r == MethodResult::Throw(
                HistogramError::PercentileNotANumber,
            )
            &&& percentile is OutOfRange ==> r == MethodResult::Throw(
                HistogramError::PercentileOutOfRange,
            )
        }),
{
}

/// The figures that a histogram is written out with are those that its
/// properties give.
pub proof fn law_json_holds_the_figures(
    before: &HistogramStore,
    after: &HistogramStore,
    id: int,
    arg: JsArg,
    percentile: PercentileArg,
    now_ns: u128,
    r: MethodResult,
)
    requires
        method_effect(
            before,
            after,
            id,
            HistogramMethod::ToJson,
            arg,
            percentile,
            now_ns,
            r,
        ),
    ensures
        ({
            let h = before.histograms@[id];
            &&& after.histograms@ == before.histograms@
            &&& r matches MethodResult::Json(j)
            &&& j.count == h@.total
            &&& j.min == h@.min()
            &&& j.max == h@.max()
            &&& j.exceeds == h@.exceeds
            &&& h@.is_percentile_list(j.percentiles@)
            &&& j.moments.medians@ == h@.used_upto(h@.counts.len() as int)
        }),
{
}

/// A reset takes all values out.
pub proof fn law_reset_takes_everything_out(
    before: &HistogramStore,
    after: &HistogramStore,
    id: int,
    arg: JsArg,
    percentile: PercentileArg,
    now_ns: u128,
    r: MethodResult,
    i: int,
)
    requires
        method_effect(
            before,
            after,
            id,
            HistogramMethod::Reset,
            arg,
            percentile,
            now_ns,
            r,
        ),
    ensures
        ({
            let h = before.histograms@[id]@;
            let g = after.histograms@[id]@;
            &&& r == MethodResult::Undefined
            &&& g.total == 0 && g.exceeds == 0 && g.max_value == 0 && g.min_value == i64::MAX
            &&& g.counts.len() == h.counts.len()
            &&& 0 <= i < h.counts.len() ==> g.counts[i] == 0
            &&& g.enabled == h.enabled && g.prev_delta == h.prev_delta
        }),
{
}

/// The name of a method.
pub open spec fn method_name(p: HistogramMethod) -> Seq<char> {
    match p {
        HistogramMethod::RecordableConstructor => "RecordableHistogram"@,
        HistogramMethod::EldConstructor => "ELDHistogram"@,
        HistogramMethod::Record => "record"@,
        HistogramMethod::RecordDelta => "recordDelta"@,
        HistogramMethod::AddOther => "add"@,
        HistogramMethod::Reset => "reset"@,
        HistogramMethod::Enable => "enable"@,
        HistogramMethod::Disable => "disable"@,
        HistogramMethod::Percentile => "percentile"@,
        HistogramMethod::PercentileBigInt => "percentileBigInt"@,
        HistogramMethod::ToJson => "toJSON"@,
        HistogramMethod::Unknown => Seq::empty(),
    }
}

proof fn lemma_method_names_apart(p: HistogramMethod, k: HistogramMethod)
    requires
        p != k,
        !(p is Unknown),
        !(k is Unknown),
    ensures
        method_name(p) != method_name(k),
{
    reveal_strlit("RecordableHistogram");
    reveal_strlit("ELDHistogram");
    reveal_strlit("record");
    reveal_strlit("recordDelta");
    reveal_strlit("add");
    reveal_strlit("reset");
    reveal_strlit("enable");
    reveal_strlit("disable");
    reveal_strlit("percentile");
    reveal_strlit("percentileBigInt");
    reveal_strlit("toJSON");
    let (a, b) = (method_name(p), method_name(k));
    if a.len() == b.len() {
        assert(a[0] != b[0] || a[1] != b[1] || a[2] != b[2]);
    }
}

/// Every method goes by its name, and by no other.
pub proof fn law_methods_go_by_their_names(m: HistogramMethod, n: Seq<char>)
    requires
        !(m is Unknown),
    ensures
        method_named(n) == m <==> n == method_name(m),
{
    let k = method_named(method_name(m));
    if k != m {
        if !(k is Unknown) {
            lemma_method_names_apart(m, k);
        }
    }
}

} // verus!
