//! Histograms as programs see them: handles, options, properties, methods and
//! errors.

use vstd::prelude::*;
use vstd::arithmetic::power::*;
use vstd::arithmetic::power2::*;
use vstd::string::*;
use crate::hdr::Shape;
use crate::histogram::{
    can_track, is_new, is_shape_for, HistState, Histogram, HistogramKind, Tick,
};
use crate::roots::{RuntimeRootVisitor, Visit};
use crate::text::text_eq;

verus! {

/// The greatest integer that every smaller one can be told from.
pub const MAX_SAFE_INTEGER: i64 = 9_007_199_254_740_991;

/// The range of event-loop delays: one hour in nanoseconds.
pub const ELD_HIGHEST: i64 = 3_600_000_000_000;

/// A number that a program passes.
#[derive(Clone, Copy, PartialEq, Eq, Structural, Debug)]
pub enum JsNumber {
    /// An integer of 64 bits.
    Integer(i64),
    /// An integer beyond 64 bits.
    HugeInteger { negative: bool },
    /// A fraction, an infinity, or no number.
    NotInteger,
}

/// A value that a program passes.
#[derive(Clone, Copy, PartialEq, Eq, Structural, Debug)]
pub enum JsArg {
    Undefined,
    Null,
    Number(JsNumber),
    /// A big integer, cut to 64 bits.
    BigInt(i64),
    /// The handle of a histogram, with the number that it carries.
    Histogram(usize),
    /// Anything else.
    Other,
}

/// What an error is about.
#[derive(Clone, Copy, PartialEq, Eq, Structural, Debug)]
pub enum ArgName {
    Options,
    Lowest,
    Highest,
    Figures,
    Resolution,
    Val,
}

impl ArgName {
    /// The name in messages.
    pub open spec fn text(self) -> Seq<char> {
        match self {
            ArgName::Options => "options"@,
            ArgName::Lowest => "options.lowest"@,
            ArgName::Highest => "options.highest"@,
            ArgName::Figures => "options.figures"@,
            ArgName::Resolution => "options.resolution"@,
            ArgName::Val => "val"@,
        }
    }

    /// The name in messages.
    pub fn as_str(self) -> (s: &'static str)
        ensures
            s@ == self.text(),
    {
        match self {
            ArgName::Options => "options",
            ArgName::Lowest => "options.lowest",
            ArgName::Highest => "options.highest",
            ArgName::Figures => "options.figures",
            ArgName::Resolution => "options.resolution",
            ArgName::Val => "val",
        }
    }
}

/// What is thrown.
#[derive(Clone, Copy, PartialEq, Eq, Structural, Debug)]
pub enum HistogramError {
    /// The argument is no object.
    NotAnObject(ArgName),
    /// The argument is no number.
    NotANumber(ArgName),
    /// The argument is no integer.
    NotAnInteger(ArgName),
    /// The argument is out of bounds; there may be no upper one.
    OutOfBounds { name: ArgName, min: i64, max: Option<i64> },
    /// A histogram is added that is undefined or null.
    AddNothing,
    /// What is added is no histogram.
    AddNoHistogram,
    /// The percentile is no number.
    PercentileNotANumber,
    /// The percentile is not above 0 and at most 100.
    PercentileOutOfRange,
    /// Histograms are not made by their constructors.
    IllegalConstructor,
}

/// The class of an error, with the code of a type error that has one.
#[derive(Clone, Copy, PartialEq, Eq, Structural, Debug)]
pub enum ErrorClass {
    InvalidArgType,
    OutOfRange,
    IllegalConstructor,
    PlainTypeError,
}

impl HistogramError {
    /// The class of the error.
    pub open spec fn class(self) -> ErrorClass {
        match self {
            HistogramError::NotAnObject(_)
            | HistogramError::NotANumber(_)
            | HistogramError::AddNoHistogram
            | HistogramError::PercentileNotANumber => ErrorClass::InvalidArgType,
            HistogramError::NotAnInteger(_)
            | HistogramError::OutOfBounds { .. }
            | HistogramError::PercentileOutOfRange => ErrorClass::OutOfRange,
            HistogramError::AddNothing => ErrorClass::PlainTypeError,
            HistogramError::IllegalConstructor => ErrorClass::IllegalConstructor,
        }
    }

    /// The class of the error.
    pub fn error_class(&self) -> (c: ErrorClass)
        ensures
            c == self.class(),
    {
        match self {
            HistogramError::NotAnObject(_)
            | HistogramError::NotANumber(_)
            | HistogramError::AddNoHistogram
            | HistogramError::PercentileNotANumber => ErrorClass::InvalidArgType,
            HistogramError::NotAnInteger(_)
            | HistogramError::OutOfBounds { .. }
            | HistogramError::PercentileOutOfRange => ErrorClass::OutOfRange,
            HistogramError::AddNothing => ErrorClass::PlainTypeError,
            HistogramError::IllegalConstructor => ErrorClass::IllegalConstructor,
        }
    }

    /// The text of a message. That of a range error ends where the value that
    /// was received follows, and, for bounds, after the bounds have been left
    /// to the caller: `head` stops before them.
    pub open spec fn head(self) -> Seq<char> {
        match self {
            HistogramError::NotAnObject(n) => "The \""@ + n.text()
                + "\" argument must be of type object"@,
            HistogramError::NotANumber(n) => "The \""@ + n.text()
                + "\" argument must be of type number"@,
            HistogramError::NotAnInteger(n) => "The value of \""@ + n.text()
                + "\" is out of range. It must be an integer. Received "@,
            HistogramError::OutOfBounds { name, .. } => "The value of \""@ + name.text()
                + "\" is out of range. It must be >= "@,
            HistogramError::AddNothing =>
                "Cannot read properties of undefined (reading 'Symbol(kRecordable)')"@,
            HistogramError::AddNoHistogram =>
                "The \"other\" argument must be an instance of RecordableHistogram"@,
            HistogramError::PercentileNotANumber =>
                "The \"percentile\" argument must be of type number"@,
            HistogramError::PercentileOutOfRange =>
                "The value of \"percentile\" is out of range. It must be > 0 && <= 100. Received "@,
            HistogramError::IllegalConstructor => "Illegal constructor"@,
        }
    }

    /// The text of a message, up to the numbers that only range errors have.
    pub fn message_head(&self) -> (s: String)
        ensures
            s@ == self.head(),
    {
        match self {
            HistogramError::NotAnObject(n) => framed(
                "The \"",
                n.as_str(),
                "\" argument must be of type object",
            ),
            HistogramError::NotANumber(n) => framed(
                "The \"",
                n.as_str(),
                "\" argument must be of type number",
            ),
            HistogramError::NotAnInteger(n) => framed(
                "The value of \"",
                n.as_str(),
                "\" is out of range. It must be an integer. Received ",
            ),
            HistogramError::OutOfBounds { name, .. } => framed(
                "The value of \"",
                name.as_str(),
                "\" is out of range. It must be >= ",
            ),
            HistogramError::AddNothing =>
                "Cannot read properties of undefined (reading 'Symbol(kRecordable)')".to_owned(),
            HistogramError::AddNoHistogram =>
                "The \"other\" argument must be an instance of RecordableHistogram".to_owned(),
            HistogramError::PercentileNotANumber =>
                "The \"percentile\" argument must be of type number".to_owned(),
            HistogramError::PercentileOutOfRange =>
                "The value of \"percentile\" is out of range. It must be > 0 && <= 100. Received ".to_owned(),
            HistogramError::IllegalConstructor => "Illegal constructor".to_owned(),
        }
    }
}

fn framed(before: &str, name: &str, after: &str) -> (s: String)
    ensures
        s@ == before@ + name@ + after@,
{
    let mut s: String = before.to_owned();
    s.append(name);
    s.append(after);
    s
}

// ---------------------------------------------------------------------------
// Options
// ---------------------------------------------------------------------------

/// An integer within bounds, or the error.
pub open spec fn integer_in(arg: JsArg, name: ArgName, min: i64, max: Option<i64>) -> Result<
    i64,
    HistogramError,
> {
    let out = Err(HistogramError::OutOfBounds { name, min, max });
    match arg {
        JsArg::Number(JsNumber::Integer(n)) => if n < min || (max matches Some(m) && n > m) {
            out
        } else {
            Ok(n)
        },
        JsArg::Number(JsNumber::HugeInteger { negative }) => if negative || max is Some {
            out
        } else {
            Ok(i64::MAX)
        },
        JsArg::Number(JsNumber::NotInteger) => Err(HistogramError::NotAnInteger(name)),
        _ => Err(HistogramError::NotANumber(name)),
    }
}

/// Require an integer within bounds. Without an upper bound, an integer
/// beyond 64 bits counts as the greatest.
pub fn validate_integer(arg: JsArg, name: ArgName, min: i64, max: Option<i64>) -> (r: Result<
    i64,
    HistogramError,
>)
    ensures
        r == integer_in(arg, name, min, max),
{
    match arg {
        JsArg::Number(JsNumber::Integer(n)) => {
            let too_great: bool = match max {
                Some(m) => n > m,
                None => false,
            };
            if n < min || too_great {
                Err(HistogramError::OutOfBounds { name, min, max })
            } else {
                Ok(n)
            }
        },
        JsArg::Number(JsNumber::HugeInteger { negative }) => {
            if negative || max.is_some() {
                Err(HistogramError::OutOfBounds { name, min, max })
            } else {
                Ok(i64::MAX)
            }
        },
        JsArg::Number(JsNumber::NotInteger) => Err(HistogramError::NotAnInteger(name)),
        _ => Err(HistogramError::NotANumber(name)),
    }
}

/// An optional integer within bounds.
pub open spec fn option_in(
    arg: JsArg,
    default: i64,
    name: ArgName,
    min: i64,
    max: Option<i64>,
) -> Result<i64, HistogramError> {
    if arg == JsArg::Undefined {
        Ok(default)
    } else {
        integer_in(arg, name, min, max)
    }
}

fn validate_option(
    arg: JsArg,
    default: i64,
    name: ArgName,
    min: i64,
    max: Option<i64>,
) -> (r: Result<i64, HistogramError>)
    ensures
        r == option_in(arg, default, name, min, max),
{
    if arg == JsArg::Undefined {
        Ok(default)
    } else {
        validate_integer(arg, name, min, max)
    }
}

/// The options that a histogram is made with.
#[derive(Clone, Copy, PartialEq, Eq, Structural, Debug)]
pub enum CreateOptions {
    /// None were given.
    Omitted,
    /// What was given is no object.
    NotAnObject,
    /// These were given.
    Given { lowest: JsArg, highest: JsArg, figures: JsArg },
}

/// The range and the precision of a histogram.
#[derive(Clone, Copy, PartialEq, Eq, Structural, Debug)]
pub struct HistogramRange {
    pub lowest: i64,
    pub highest: i64,
    pub figures: u32,
}

/// Range and precision from options, or the first error among them.
pub open spec fn resolved(options: CreateOptions) -> Result<HistogramRange, HistogramError> {
    match options {
        CreateOptions::Omitted => Ok(
            HistogramRange { lowest: 1, highest: MAX_SAFE_INTEGER, figures: 3 },
        ),
        CreateOptions::NotAnObject => Err(HistogramError::NotAnObject(ArgName::Options)),
        CreateOptions::Given { lowest, highest, figures } => {
            match option_in(lowest, 1, ArgName::Lowest, 1, Some(MAX_SAFE_INTEGER)) {
                Err(e) => Err(e),
                Ok(low) => match option_in(
                    highest,
                    MAX_SAFE_INTEGER,
                    ArgName::Highest,
                    (2 * low) as i64,
                    Some(MAX_SAFE_INTEGER),
                ) {
                    Err(e) => Err(e),
                    Ok(high) => match option_in(figures, 3, ArgName::Figures, 1, Some(5i64)) {
                        Err(e) => Err(e),
                        Ok(f) => Ok(
                            HistogramRange { lowest: low, highest: high, figures: f as u32 },
                        ),
                    },
                },
            }
        },
    }
}

/// Range and precision from options, or the first error among them.
pub fn resolve_options(options: CreateOptions) -> (r: Result<HistogramRange, HistogramError>)
    ensures
        r == resolved(options),
        r matches Ok(o) ==> 1 <= o.lowest <= MAX_SAFE_INTEGER && 0 <= o.highest
            <= MAX_SAFE_INTEGER && 1 <= o.figures <= 5,
{
    match options {
        CreateOptions::Omitted => Ok(
            HistogramRange { lowest: 1, highest: MAX_SAFE_INTEGER, figures: 3 },
        ),
        CreateOptions::NotAnObject => Err(HistogramError::NotAnObject(ArgName::Options)),
        CreateOptions::Given { lowest, highest, figures } => {
            let low: i64 = match validate_option(
                lowest,
                1,
                ArgName::Lowest,
                1,
                Some(MAX_SAFE_INTEGER),
            ) {
                Err(e) => return Err(e),
                Ok(n) => n,
            };
            let high: i64 = match validate_option(
                highest,
                MAX_SAFE_INTEGER,
                ArgName::Highest,
                2 * low,
                Some(MAX_SAFE_INTEGER),
            ) {
                Err(e) => return Err(e),
                Ok(n) => n,
            };
            let f: i64 = match validate_option(figures, 3, ArgName::Figures, 1, Some(5i64)) {
                Err(e) => return Err(e),
                Ok(n) => n,
            };
            Ok(HistogramRange { lowest: low, highest: high, figures: f as u32 })
        },
    }
}

// ---------------------------------------------------------------------------
// The registry
// ---------------------------------------------------------------------------

/// All histograms of a thread. A handle carries its number.
pub struct HistogramStore {
    pub histograms: Vec<Histogram>,
}

impl HistogramStore {
    /// Every histogram is in order.
    pub open spec fn well_formed(&self) -> bool {
        forall|i: int|
            0 <= i < self.histograms@.len() ==> #[trigger] self.histograms@[i]@.well_formed()
    }

    /// Only histogram `id` may be different.
    pub open spec fn same_but(&self, other: &HistogramStore, id: int) -> bool {
        &&& self.histograms@.len() == other.histograms@.len()
        &&& forall|i: int|
            0 <= i < self.histograms@.len() && i != id ==> #[trigger] self.histograms@[i]
                == other.histograms@[i]
    }
}

/// Register a histogram; the result is its number.
fn register(store: &mut HistogramStore, h: Histogram) -> (id: usize)
    requires
        old(store).well_formed(),
        h@.well_formed(),
    ensures
        final(store).well_formed(),
        final(store).histograms@ == old(store).histograms@.push(h),
        id == old(store).histograms@.len(),
{
    let id: usize = store.histograms.len();
    store.histograms.push(h);
    id
}

/// Make a recordable histogram; the result is its number.
pub fn js_perf_create_histogram(store: &mut HistogramStore, options: CreateOptions) -> (r: Result<
    usize,
    HistogramError,
>)
    requires
        old(store).well_formed(),
        resolved(options) matches Ok(o) ==> can_track(o.lowest as int, o.figures),
    ensures
        final(store).well_formed(),
        match resolved(options) {
            Err(e) => r == Err::<usize, HistogramError>(e) && final(store).histograms@ == old(store).histograms@,
            Ok(o) => {
                let n = old(store).histograms@.len();
                &&& r == Ok::<usize, HistogramError>(n as usize)
                &&& final(store).histograms@.len() == n + 1
                &&& final(store).histograms@.take(n as int) == old(store).histograms@
                &&& is_new(
                    final(store).histograms@[n as int]@,
                    o.lowest as int,
                    o.highest as int,
                    o.figures,
                )
                &&& final(store).histograms@[n as int].is_fresh(HistogramKind::Recordable)
            },
        },
{
    match resolve_options(options) {
        Err(e) => Err(e),
        Ok(o) => {
            let h: Histogram = Histogram::new(
                HistogramKind::Recordable,
                o.lowest,
                o.highest,
                o.figures,
            );
            let ghost before = store.histograms@;
            let id: usize = register(store, h);
            assert(store.histograms@.take(before.len() as int) =~= before);
            Ok(id)
        },
    }
}

/// The options of an event-loop monitor.
#[derive(Clone, Copy, PartialEq, Eq, Structural, Debug)]
pub enum MonitorOptions {
    Omitted,
    NotAnObject,
    Given { resolution: JsArg },
}

/// The error in the options of an event-loop monitor, if there is one.
pub open spec fn monitor_error(options: MonitorOptions) -> Option<HistogramError> {
    match options {
        MonitorOptions::Omitted => None,
        MonitorOptions::NotAnObject => Some(HistogramError::NotAnObject(ArgName::Options)),
        MonitorOptions::Given { resolution } => match option_in(
            resolution,
            1,
            ArgName::Resolution,
            1,
            None,
        ) {
            Ok(_) => None,
            Err(e) => Some(e),
        },
    }
}

proof fn lemma_eld_fits()
    ensures
        can_track(1, 3),
{
    lemma2_to64();
    lemma_pow1(10);
    lemma_pow_adds(10, 1, 1);
    lemma_pow_adds(10, 2, 1);
    let shape = Shape { unit: 0, half: 10 };
    assert(is_shape_for(shape, 1, 3));
    assert(shape.well_formed());
}

/// Make a histogram of event-loop delays; the result is its number.
pub fn js_perf_monitor_event_loop_delay(
    store: &mut HistogramStore,
    options: MonitorOptions,
) -> (r: Result<usize, HistogramError>)
    requires
        old(store).well_formed(),
    ensures
        final(store).well_formed(),
        match monitor_error(options) {
            Some(e) => r == Err::<usize, HistogramError>(e) && final(store).histograms@ == old(store).histograms@,
            None => {
                let n = old(store).histograms@.len();
                &&& r == Ok::<usize, HistogramError>(n as usize)
                &&& final(store).histograms@.len() == n + 1
                &&& final(store).histograms@.take(n as int) == old(store).histograms@
                &&& is_new(final(store).histograms@[n as int]@, 1, ELD_HIGHEST as int, 3)
                &&& final(store).histograms@[n as int].is_fresh(HistogramKind::Eld)
            },
        },
{
    match options {
        MonitorOptions::Omitted => {},
        MonitorOptions::NotAnObject => return Err(HistogramError::NotAnObject(ArgName::Options)),
        MonitorOptions::Given { resolution } => {
            match validate_option(resolution, 1, ArgName::Resolution, 1, None) {
                Ok(_) => {},
                Err(e) => return Err(e),
            }
        },
    }
    proof {
        lemma_eld_fits();
    }
    let h: Histogram = Histogram::new(HistogramKind::Eld, 1, ELD_HIGHEST, 3);
    let ghost before = store.histograms@;
    let id: usize = register(store, h);
    assert(store.histograms@.take(before.len() as int) =~= before);
    Ok(id)
}

/// The number of the histogram that a value is the handle of.
pub open spec fn handle_of(store: &HistogramStore, arg: JsArg) -> Option<usize> {
    match arg {
        JsArg::Histogram(id) => if id < store.histograms@.len() {
            Some(id)
        } else {
            None
        },
        _ => None,
    }
}

/// The number of the histogram that a value is the handle of.
pub fn histogram_id_from_value(store: &HistogramStore, arg: JsArg) -> (id: Option<usize>)
    ensures
        id == handle_of(store, arg),
{
    match arg {
        JsArg::Histogram(id) => if id < store.histograms.len() {
            Some(id)
        } else {
            None
        },
        _ => None,
    }
}

/// Record how long a wrapped call took, where a histogram was given for it.
pub fn record_timerify_duration(store: &mut HistogramStore, histogram: JsArg, nanoseconds: i64)
    requires
        old(store).well_formed(),
        handle_of(old(store), histogram) matches Some(id) ==> old(store).histograms@[id as int]@.noted(
            nanoseconds as int,
            1,
        ).fits(),
    ensures
        final(store).well_formed(),
        match handle_of(old(store), histogram) {
            Some(id) => {
                &&& final(store).same_but(old(store), id as int)
                &&& final(store).histograms@[id as int]@ == old(store).histograms@[id as int]@.noted(
                    nanoseconds as int,
                    1,
                )
            },
            None => final(store).histograms@ == old(store).histograms@,
        },
{
    match histogram_id_from_value(store, histogram) {
        None => {},
        Some(id) => {
            store.histograms[id].record(nanoseconds);
        },
    }
}

/// Show the collector the map that each histogram hands its percentiles out
/// in.
pub fn scan_histogram_roots_mut(store: &mut HistogramStore, visitor: &mut RuntimeRootVisitor)
    ensures
        final(visitor).known() == old(visitor).known(),
        final(visitor).visits@ == old(visitor).visits@ + map_visits(
            old(store).histograms@,
            old(store).histograms@.len() as int,
        ),
        final(store).histograms@.len() == old(store).histograms@.len(),
        forall|i: int|
            0 <= i < old(store).histograms@.len() ==> {
                let was = old(store).histograms@[i];
                let now = #[trigger] final(store).histograms@[i];
                now == (Histogram {
                    map_bits: if was.map_bits == 0 {
                        0
                    } else {
                        old(visitor).known().new_word(was.map_bits)
                    },
                    ..was
                })
            },
{
    let ghost before = store.histograms@;
    let ghost visits = visitor.visits@;
    let n: usize = store.histograms.len();
    let mut i: usize = 0;
    assert(visits =~= visits + map_visits(before, 0));
    while i < n
        invariant
            i <= n,
            n == before.len(),
            store.histograms@.len() == n,
            visitor.known() == old(visitor).known(),
            visitor.visits@ == visits + map_visits(before, i as int),
            forall|k: int|
                0 <= k < n ==> {
                    let was = before[k];
                    let now = #[trigger] store.histograms@[k];
                    now == (Histogram {
                        map_bits: if k >= i {
                            was.map_bits
                        } else if was.map_bits == 0 {
                            0
                        } else {
                            old(visitor).known().new_word(was.map_bits)
                        },
                        ..was
                    })
                },
        decreases n - i,
    {
        let ghost was = store.histograms@;
        let bits: u64 = store.histograms[i].map_bits;
        assert(was[i as int] == before[i as int]);
        if bits != 0 {
            let now: u64 = visitor.visit_nanbox_slot(bits);
            store.histograms[i].map_bits = now;
            assert(visitor.visits@ =~= visits + map_visits(before, i + 1));
        }
        assert forall|k: int| 0 <= k < n implies {
            let b = before[k];
            let now = #[trigger] store.histograms@[k];
            now == (Histogram {
                map_bits: if k >= i + 1 {
                    b.map_bits
                } else if b.map_bits == 0 {
                    0
                } else {
                    old(visitor).known().new_word(b.map_bits)
                },
                ..b
            })
        } by {
            if k != i {
                assert(store.histograms@[k] == was[k]);
            }
        }
        i = i + 1;
    }
}

/// The visits for the first `n` histograms.
pub open spec fn map_visits(hs: Seq<Histogram>, n: int) -> Seq<Visit>
    decreases n,
{
    if n <= 0 {
        Seq::empty()
    } else if hs[n - 1].map_bits != 0 {
        map_visits(hs, n - 1).push(Visit::Word(hs[n - 1].map_bits))
    } else {
        map_visits(hs, n - 1)
    }
}

// ---------------------------------------------------------------------------
// Properties
// ---------------------------------------------------------------------------

/// The properties of a histogram.
#[derive(Clone, Copy, PartialEq, Eq, Structural, Debug)]
pub enum HistogramProperty {
    Count,
    CountBigInt,
    Min,
    MinBigInt,
    Max,
    MaxBigInt,
    Mean,
    StdDev,
    Exceeds,
    ExceedsBigInt,
    Percentiles,
    PercentilesBigInt,
    Constructor,
    Unknown,
}

/// The property of a name.
pub open spec fn property_named(n: Seq<char>) -> HistogramProperty {
    if n == "count"@ {
        HistogramProperty::Count
    } else if n == "countBigInt"@ {
        HistogramProperty::CountBigInt
    } else if n == "min"@ {
        HistogramProperty::Min
    } else if n == "minBigInt"@ {
        HistogramProperty::MinBigInt
    } else if n == "max"@ {
        HistogramProperty::Max
    } else if n == "maxBigInt"@ {
        HistogramProperty::MaxBigInt
    } else if n == "mean"@ {
        HistogramProperty::Mean
    } else if n == "stddev"@ {
        HistogramProperty::StdDev
    } else if n == "exceeds"@ {
        HistogramProperty::Exceeds
    } else if n == "exceedsBigInt"@ {
        HistogramProperty::ExceedsBigInt
    } else if n == "percentiles"@ {
        HistogramProperty::Percentiles
    } else if n == "percentilesBigInt"@ {
        HistogramProperty::PercentilesBigInt
    } else if n == "constructor"@ {
        HistogramProperty::Constructor
    } else {
        HistogramProperty::Unknown
    }
}

/// The property of a name.
pub fn property_of(n: &str) -> (p: HistogramProperty)
    ensures
        p == property_named(n@),
{
    if text_eq(n, "count") {
        HistogramProperty::Count
    } else if text_eq(n, "countBigInt") {
        HistogramProperty::CountBigInt
    } else if text_eq(n, "min") {
        HistogramProperty::Min
    } else if text_eq(n, "minBigInt") {
        HistogramProperty::MinBigInt
    } else if text_eq(n, "max") {
        HistogramProperty::Max
    } else if text_eq(n, "maxBigInt") {
        HistogramProperty::MaxBigInt
    } else if text_eq(n, "mean") {
        HistogramProperty::Mean
    } else if text_eq(n, "stddev") {
        HistogramProperty::StdDev
    } else if text_eq(n, "exceeds") {
        HistogramProperty::Exceeds
    } else if text_eq(n, "exceedsBigInt") {
        HistogramProperty::ExceedsBigInt
    } else if text_eq(n, "percentiles") {
        HistogramProperty::Percentiles
    } else if text_eq(n, "percentilesBigInt") {
        HistogramProperty::PercentilesBigInt
    } else if text_eq(n, "constructor") {
        HistogramProperty::Constructor
    } else {
        HistogramProperty::Unknown
    }
}

/// The figures of a histogram, for its mean and its standard deviation.
pub struct Moments {
    /// Sum of all values and their number; nothing while there are none.
    pub mean: Option<(u128, u64)>,
    /// Count and middle of every used counter.
    pub medians: Vec<(u64, i64)>,
}

/// The value of a property.
pub enum PropertyValue {
    Number(i64),
    BigInt(i64),
    Mean(Option<(u128, u64)>),
    StdDev(Moments),
    /// The map of percentiles: the one handed out before, or 0, is cleared and
    /// filled with these, as big integers or as numbers. `remember_map` keeps
    /// it.
    Percentiles { cached: u64, entries: Vec<(Tick, i64)>, as_bigint: bool },
    /// The constructor of this name.
    Constructor(&'static str),
}

/// The moments of a histogram.
pub open spec fn are_moments(h: &Histogram, m: Moments) -> bool {
    &&& is_mean(h, m.mean)
    &&& m.medians@ == h@.used_upto(h@.counts.len() as int)
}

/// The parts of a histogram's mean.
pub open spec fn is_mean(h: &Histogram, m: Option<(u128, u64)>) -> bool {
    match m {
        None => h.total_count == 0,
        Some(p) => h.total_count != 0 && p.0 == h@.weighted(h@.counts.len() as int) && p.1
            == h.total_count,
    }
}

/// The value of a property of a histogram; nothing for a name that is none.
pub open spec fn is_property_value(
    h: &Histogram,
    p: HistogramProperty,
    v: Option<PropertyValue>,
) -> bool {
    match p {
        HistogramProperty::Count => v == Some(PropertyValue::Number(h.total_count as i64)),
        HistogramProperty::CountBigInt => v == Some(PropertyValue::BigInt(h.total_count as i64)),
        HistogramProperty::Min => v == Some(PropertyValue::Number(h@.min() as i64)),
        HistogramProperty::MinBigInt => v == Some(PropertyValue::BigInt(h@.min() as i64)),
        HistogramProperty::Max => v == Some(PropertyValue::Number(h@.max() as i64)),
        HistogramProperty::MaxBigInt => v == Some(PropertyValue::BigInt(h@.max() as i64)),
        HistogramProperty::Mean => v matches Some(PropertyValue::Mean(m)) && is_mean(h, m),
        HistogramProperty::StdDev => v matches Some(PropertyValue::StdDev(m)) && are_moments(h, m),
        HistogramProperty::Exceeds => v == Some(PropertyValue::Number(h.exceeds as i64)),
        HistogramProperty::ExceedsBigInt => v == Some(PropertyValue::BigInt(h.exceeds as i64)),
        HistogramProperty::Percentiles => v matches Some(
            PropertyValue::Percentiles { cached, entries, as_bigint },
        ) && cached == h.map_bits && h@.is_percentile_list(entries@) && !as_bigint,
        HistogramProperty::PercentilesBigInt => v matches Some(
            PropertyValue::Percentiles { cached, entries, as_bigint },
        ) && cached == h.map_bits && h@.is_percentile_list(entries@) && as_bigint,
        HistogramProperty::Constructor => v matches Some(PropertyValue::Constructor(name))
            && name@ == match h.kind {
            HistogramKind::Recordable => "RecordableHistogram"@,
            HistogramKind::Eld => "ELDHistogram"@,
        },
        HistogramProperty::Unknown => v is None,
    }
}

fn moments(h: &Histogram) -> (m: Moments)
    requires
        h@.well_formed(),
    ensures
        are_moments(h, m),
{
    Moments { mean: h.mean_parts(), medians: h.used_medians() }
}

/// Read a property of a handle; nothing where it is no handle, or the name no
/// property.
pub fn histogram_property(store: &HistogramStore, receiver: JsArg, property: &str) -> (v: Option<
    PropertyValue,
>)
    requires
        store.well_formed(),
    ensures
        match handle_of(store, receiver) {
            None => v is None,
            Some(id) => is_property_value(
                &store.histograms@[id as int],
                property_named(property@),
                v,
            ),
        },
{
    let id: usize = match histogram_id_from_value(store, receiver) {
        None => return None,
        Some(id) => id,
    };
    let h: &Histogram = &store.histograms[id];
    assert(store.histograms@[id as int]@.well_formed());
    match property_of(property) {
        HistogramProperty::Count => Some(PropertyValue::Number(h.total_count as i64)),
        HistogramProperty::CountBigInt => Some(PropertyValue::BigInt(h.total_count as i64)),
        HistogramProperty::Min => Some(PropertyValue::Number(h.min())),
        HistogramProperty::MinBigInt => Some(PropertyValue::BigInt(h.min())),
        HistogramProperty::Max => Some(PropertyValue::Number(h.max())),
        HistogramProperty::MaxBigInt => Some(PropertyValue::BigInt(h.max())),
        HistogramProperty::Mean => Some(PropertyValue::Mean(h.mean_parts())),
        HistogramProperty::StdDev => Some(PropertyValue::StdDev(moments(h))),
        HistogramProperty::Exceeds => Some(PropertyValue::Number(h.exceeds as i64)),
        HistogramProperty::ExceedsBigInt => Some(PropertyValue::BigInt(h.exceeds as i64)),
        HistogramProperty::Percentiles => Some(
            PropertyValue::Percentiles {
                cached: h.map_bits,
                entries: h.percentile_entries(),
                as_bigint: false,
            },
        ),
        HistogramProperty::PercentilesBigInt => Some(
            PropertyValue::Percentiles {
                cached: h.map_bits,
                entries: h.percentile_entries(),
                as_bigint: true,
            },
        ),
        HistogramProperty::Constructor => Some(PropertyValue::Constructor(h.kind.ctor_name())),
        HistogramProperty::Unknown => None,
    }
}

/// Remember the map that percentiles were handed out in.
pub fn remember_map(store: &mut HistogramStore, id: usize, map_bits: u64)
    requires
        old(store).well_formed(),
        id < old(store).histograms@.len(),
    ensures
        final(store).well_formed(),
        final(store).same_but(old(store), id as int),
        final(store).histograms@[id as int] == (Histogram {
            map_bits,
            ..old(store).histograms@[id as int]
        }),
{
    let ghost before = store.histograms@;
    store.histograms[id].map_bits = map_bits;
    assert forall|i: int| 0 <= i < store.histograms@.len() implies #[trigger] store.histograms@[i]@.well_formed() by {
        assert(before[i]@.well_formed());
    }
}

// ---------------------------------------------------------------------------
// Methods
// ---------------------------------------------------------------------------

/// The methods of a histogram.
#[derive(Clone, Copy, PartialEq, Eq, Structural, Debug)]
pub enum HistogramMethod {
    RecordableConstructor,
    EldConstructor,
    Record,
    RecordDelta,
    AddOther,
    Reset,
    Enable,
    Disable,
    Percentile,
    PercentileBigInt,
    ToJson,
    Unknown,
}

/// The method of a name.
pub open spec fn method_named(n: Seq<char>) -> HistogramMethod {
    if n == "RecordableHistogram"@ {
        HistogramMethod::RecordableConstructor
    } else if n == "ELDHistogram"@ {
        HistogramMethod::EldConstructor
    } else if n == "record"@ {
        HistogramMethod::Record
    } else if n == "recordDelta"@ {
        HistogramMethod::RecordDelta
    } else if n == "add"@ {
        HistogramMethod::AddOther
    } else if n == "reset"@ {
        HistogramMethod::Reset
    } else if n == "enable"@ {
        HistogramMethod::Enable
    } else if n == "disable"@ {
        HistogramMethod::Disable
    } else if n == "percentile"@ {
        HistogramMethod::Percentile
    } else if n == "percentileBigInt"@ {
        HistogramMethod::PercentileBigInt
    } else if n == "toJSON"@ {
        HistogramMethod::ToJson
    } else {
        HistogramMethod::Unknown
    }
}

/// The method of a name.
pub fn histogram_method_of(n: &str) -> (m: HistogramMethod)
    ensures
        m == method_named(n@),
{
    if text_eq(n, "RecordableHistogram") {
        HistogramMethod::RecordableConstructor
    } else if text_eq(n, "ELDHistogram") {
        HistogramMethod::EldConstructor
    } else if text_eq(n, "record") {
        HistogramMethod::Record
    } else if text_eq(n, "recordDelta") {
        HistogramMethod::RecordDelta
    } else if text_eq(n, "add") {
        HistogramMethod::AddOther
    } else if text_eq(n, "reset") {
        HistogramMethod::Reset
    } else if text_eq(n, "enable") {
        HistogramMethod::Enable
    } else if text_eq(n, "disable") {
        HistogramMethod::Disable
    } else if text_eq(n, "percentile") {
        HistogramMethod::Percentile
    } else if text_eq(n, "percentileBigInt") {
        HistogramMethod::PercentileBigInt
    } else if text_eq(n, "toJSON") {
        HistogramMethod::ToJson
    } else {
        HistogramMethod::Unknown
    }
}

/// The percentile that a program asks for.
#[derive(Clone, Copy, PartialEq, Eq, Structural, Debug)]
pub enum PercentileArg {
    NotANumber,
    /// Not above 0 and at most 100.
    OutOfRange,
    /// In range; it stands for this many of the values, rounded.
    Rank(i64),
}

/// What a histogram serializes to.
pub struct HistogramJson {
    pub count: u64,
    pub min: i64,
    pub max: i64,
    pub exceeds: u64,
    pub moments: Moments,
    pub percentiles: Vec<(Tick, i64)>,
}

/// What a method returns.
pub enum MethodResult {
    /// There is no such method.
    NotFound,
    Undefined,
    Bool(bool),
    Number(i64),
    BigInt(i64),
    Json(HistogramJson),
    Throw(HistogramError),
}

/// What a histogram serializes to.
pub open spec fn is_json(h: &Histogram, j: HistogramJson) -> bool {
    &&& j.count == h.total_count
    &&& j.min == h@.min()
    &&& j.max == h@.max()
    &&& j.exceeds == h.exceeds
    &&& are_moments(h, j.moments)
    &&& h@.is_percentile_list(j.percentiles@)
}

/// What a histogram serializes to.
pub fn histogram_to_json(h: &Histogram) -> (j: HistogramJson)
    requires
        h@.well_formed(),
    ensures
        is_json(h, j),
{
    HistogramJson {
        count: h.total_count,
        min: h.min(),
        max: h.max(),
        exceeds: h.exceeds,
        moments: moments(h),
        percentiles: h.percentile_entries(),
    }
}

/// The integer to be recorded, or the error.
pub open spec fn recordable(arg: JsArg) -> Result<i64, HistogramError> {
    match arg {
        JsArg::BigInt(n) => Ok(n),
        _ => integer_in(arg, ArgName::Val, 1, Some(MAX_SAFE_INTEGER)),
    }
}

/// The integer to be recorded, or the error.
fn recordable_value(arg: JsArg) -> (r: Result<i64, HistogramError>)
    ensures
        r == recordable(arg),
{
    match arg {
        JsArg::BigInt(n) => Ok(n),
        _ => validate_integer(arg, ArgName::Val, 1, Some(MAX_SAFE_INTEGER)),
    }
}

/// Record a value that a program passes.
pub fn record_arg(h: &mut Histogram, arg: JsArg) -> (r: MethodResult)
    requires
        old(h)@.well_formed(),
        recordable(arg) matches Ok(n) ==> old(h)@.noted(n as int, 1).fits(),
    ensures
        final(h)@.well_formed(),
        match recordable(arg) {
            Ok(n) => r == MethodResult::Undefined && final(h)@ == old(h)@.noted(n as int, 1),
            Err(e) => r == MethodResult::Throw(e) && final(h)@ == old(h)@,
        },
{
    match recordable_value(arg) {
        Ok(n) => {
            h.record(n);
            MethodResult::Undefined
        },
        Err(e) => MethodResult::Throw(e),
    }
}

/// The time between two moments, at most what 63 bits hold.
pub open spec fn delta(previous: u128, now: u128) -> int {
    if now <= previous {
        0
    } else if now - previous > i64::MAX {
        i64::MAX as int
    } else {
        now - previous
    }
}

/// The time between two moments.
fn delta_between(previous: u128, now: u128) -> (d: i64)
    ensures
        d == delta(previous, now),
{
    let d: u128 = if now <= previous {
        0
    } else {
        now - previous
    };
    if d > i64::MAX as u128 {
        i64::MAX
    } else {
        d as i64
    }
}

/// A histogram after a delta: the time since the last one is recorded where
/// there was one, and the next is measured from now.
pub open spec fn delta_noted(s: HistState, now_ns: u128) -> HistState {
    HistState {
        prev_delta: Some(now_ns),
        ..match s.prev_delta {
            Some(previous) => s.noted(delta(previous, now_ns), 1),
            None => s,
        }
    }
}

/// Record the time since the last such call; the first only starts the clock.
pub fn record_delta(h: &mut Histogram, now_ns: u128)
    requires
        old(h)@.well_formed(),
        old(h).prev_delta matches Some(previous) ==> old(h)@.noted(
            delta(previous, now_ns),
            1,
        ).fits(),
    ensures
        final(h)@.well_formed(),
        final(h)@ == delta_noted(old(h)@, now_ns),
{
    let previous: Option<u128> = h.prev_delta;
    h.prev_delta = Some(now_ns);
    if let Some(previous) = previous {
        h.record(delta_between(previous, now_ns));
    }
}

/// Switch a histogram of event-loop delays on or off. True where that changed
/// anything.
pub fn set_enabled(h: &mut Histogram, want: bool) -> (changed: bool)
    ensures
        changed == (old(h).kind == HistogramKind::Eld && old(h).enabled != want),
        *final(h) == (Histogram {
            enabled: if changed {
                want
            } else {
                old(h).enabled
            },
            ..*old(h)
        }),
{
    if h.kind != HistogramKind::Eld || h.enabled == want {
        return false;
    }
    h.enabled = want;
    true
}

/// Record the values of one histogram of the store in another. Adding a
/// histogram to itself does nothing.
fn add_within(store: &mut HistogramStore, id: usize, other: usize)
    requires
        old(store).well_formed(),
        id < old(store).histograms@.len(),
        other < old(store).histograms@.len(),
        added_to(old(store), id as int, other as int).fits(),
    ensures
        final(store).well_formed(),
        final(store).same_but(old(store), id as int),
        final(store).histograms@[id as int]@ == added_to(old(store), id as int, other as int),
{
    if id == other {
        return;
    }
    let ghost before = store.histograms@;
    assert(before[id as int]@.well_formed());
    assert(before[other as int]@.well_formed());
    let mut target: Histogram = store.histograms.remove(id);
    let place: usize = if other > id {
        other - 1
    } else {
        other
    };
    assert(store.histograms@[place as int] == before[other as int]);
    target.add(&store.histograms[place]);
    let ghost rest = store.histograms@;
    store.histograms.insert(id, target);
    assert forall|i: int| 0 <= i < before.len() && i != id implies #[trigger] store.histograms@[i]
        == before[i] by {
        if i < id {
            assert(store.histograms@[i] == rest[i]);
        } else {
            assert(store.histograms@[i] == rest[i - 1]);
        }
    }
    assert forall|i: int| 0 <= i < store.histograms@.len() implies #[trigger] store.histograms@[i]@.well_formed() by {
        if i != id {
            assert(before[i]@.well_formed());
        }
    }
}

/// One histogram with the values of another added.
pub open spec fn added_to(store: &HistogramStore, id: int, other: int) -> HistState {
    let h = store.histograms@[id]@;
    let o = store.histograms@[other]@;
    if id == other {
        h
    } else {
        h.added(o, o.counts.len() as int)
    }
}

/// What a method call on histogram `id` returns, and what it changes: nothing
/// but that histogram, and of its handle only what the method is about.
pub open spec fn method_effect(
    before: &HistogramStore,
    after: &HistogramStore,
    id: int,
    m: HistogramMethod,
    arg: JsArg,
    percentile: PercentileArg,
    now_ns: u128,
    r: MethodResult,
) -> bool {
    let h = before.histograms@[id];
    let g = after.histograms@[id];
    let unchanged = after.histograms@ == before.histograms@;
    &&& after.same_but(before, id)
    &&& match m {
        HistogramMethod::Record => match recordable(arg) {
            Ok(n) => r == MethodResult::Undefined && g@ == h@.noted(n as int, 1),
            Err(e) => r == MethodResult::Throw(e) && g@ == h@,
        },
        HistogramMethod::RecordDelta => r == MethodResult::Undefined && g@ == delta_noted(
            h@,
            now_ns,
        ),
        HistogramMethod::AddOther => if arg == JsArg::Undefined || arg == JsArg::Null {
            r == MethodResult::Throw(HistogramError::AddNothing) && unchanged
        } else {
            match handle_of(before, arg) {
                None => r == MethodResult::Throw(HistogramError::AddNoHistogram) && unchanged,
                Some(other) => r == MethodResult::Undefined && g@ == added_to(
                    before,
                    id,
                    other as int,
                ),
            }
        },
        HistogramMethod::Reset => r == MethodResult::Undefined && g@ == h@.emptied(),
        HistogramMethod::Enable | HistogramMethod::Disable => {
            let want = m == HistogramMethod::Enable;
            let changed = h.kind == HistogramKind::Eld && h.enabled != want;
            &&& r == MethodResult::Bool(changed)
            &&& g == (Histogram {
                enabled: if changed {
                    want
                } else {
                    h.enabled
                },
                ..h
            })
        },
        HistogramMethod::Percentile | HistogramMethod::PercentileBigInt => unchanged
            && match percentile {
            PercentileArg::NotANumber => r == MethodResult::Throw(
                HistogramError::PercentileNotANumber,
            ),
            PercentileArg::OutOfRange => r == MethodResult::Throw(
                HistogramError::PercentileOutOfRange,
            ),
            PercentileArg::Rank(rank) => if m == HistogramMethod::Percentile {
                r == MethodResult::Number(h@.at_rank(rank as int) as i64)
            } else {
                r == MethodResult::BigInt(h@.at_rank(rank as int) as i64)
            },
        },
        HistogramMethod::ToJson => unchanged && (r matches MethodResult::Json(j) && is_json(
            &h,
            j,
        )),
        _ => unchanged && r == MethodResult::NotFound,
    }
}

/// The counts of the histogram concerned still fit after a call. Only calls
/// that record or add can make them too large.
pub open spec fn call_fits(
    store: &HistogramStore,
    receiver: JsArg,
    m: HistogramMethod,
    arg: JsArg,
    now_ns: u128,
) -> bool {
    match handle_of(store, receiver) {
        None => true,
        Some(id) => {
            let h = store.histograms@[id as int];
            match m {
                HistogramMethod::Record => match recordable(arg) {
                    Ok(n) => h@.noted(n as int, 1).fits(),
                    Err(_) => true,
                },
                HistogramMethod::RecordDelta => match h.prev_delta {
                    Some(previous) => h@.noted(delta(previous, now_ns), 1).fits(),
                    None => true,
                },
                HistogramMethod::AddOther => match handle_of(store, arg) {
                    Some(other) => added_to(store, id as int, other as int).fits(),
                    None => true,
                },
                _ => true,
            }
        },
    }
}

/// Do the counts still fit after a call?
pub fn call_has_room(
    store: &HistogramStore,
    receiver: JsArg,
    method: &str,
    arg: JsArg,
    now_ns: u128,
) -> (r: bool)
    requires
        store.well_formed(),
    ensures
        r == call_fits(store, receiver, method_named(method@), arg, now_ns),
{
    let id: usize = match histogram_id_from_value(store, receiver) {
        None => return true,
        Some(id) => id,
    };
    let h: &Histogram = &store.histograms[id];
    match histogram_method_of(method) {
        HistogramMethod::Record => match recordable_value(arg) {
            Ok(n) => h.has_room(n),
            Err(_) => true,
        },
        HistogramMethod::RecordDelta => match h.prev_delta {
            Some(previous) => h.has_room(delta_between(previous, now_ns)),
            None => true,
        },
        HistogramMethod::AddOther => match histogram_id_from_value(store, arg) {
            Some(other) => {
                assert(store.histograms@[other as int]@.well_formed());
                id == other || h.has_room_for_all(&store.histograms[other])
            },
            None => true,
        },
        _ => true,
    }
}

/// Call a method on a handle. `arg` is the first argument, `percentile` that
/// argument taken as a percentile of this histogram, and `now_ns` the time.
/// The constructors throw whatever they are called on.
pub fn histogram_method(
    store: &mut HistogramStore,
    receiver: JsArg,
    method: &str,
    arg: JsArg,
    percentile: PercentileArg,
    now_ns: u128,
) -> (r: MethodResult)
    requires
        old(store).well_formed(),
        call_fits(old(store), receiver, method_named(method@), arg, now_ns),
    ensures
        final(store).well_formed(),
        ({
            let m = method_named(method@);
            if m == HistogramMethod::RecordableConstructor || m == HistogramMethod::EldConstructor {
                r == MethodResult::Throw(HistogramError::IllegalConstructor) && final(store).histograms@ == old(store).histograms@
            } else {
                match handle_of(old(store), receiver) {
                    None => r == MethodResult::NotFound && final(store).histograms@ == old(store).histograms@,
                    Some(id) => method_effect(
                        old(store),
                        final(store),
                        id as int,
                        m,
                        arg,
                        percentile,
                        now_ns,
                        r,
                    ),
                }
            }
        }),
{
    let m: HistogramMethod = histogram_method_of(method);
    if m == HistogramMethod::RecordableConstructor || m == HistogramMethod::EldConstructor {
        return MethodResult::Throw(HistogramError::IllegalConstructor);
    }
    let id: usize = match histogram_id_from_value(store, receiver) {
        None => return MethodResult::NotFound,
        Some(id) => id,
    };
    assert(store.histograms@[id as int]@.well_formed());
    match m {
        HistogramMethod::Record => record_arg(&mut store.histograms[id], arg),
        HistogramMethod::RecordDelta => {
            record_delta(&mut store.histograms[id], now_ns);
            MethodResult::Undefined
        },
        HistogramMethod::AddOther => {
            if arg == JsArg::Undefined || arg == JsArg::Null {
                return MethodResult::Throw(HistogramError::AddNothing);
            }
            match histogram_id_from_value(store, arg) {
                None => MethodResult::Throw(HistogramError::AddNoHistogram),
                Some(other) => {
                    add_within(store, id, other);
                    MethodResult::Undefined
                },
            }
        },
        HistogramMethod::Reset => {
            store.histograms[id].reset();
            MethodResult::Undefined
        },
        HistogramMethod::Enable => MethodResult::Bool(set_enabled(&mut store.histograms[id], true)),
        HistogramMethod::Disable => MethodResult::Bool(
            set_enabled(&mut store.histograms[id], false),
        ),
        HistogramMethod::Percentile => match percentile {
            PercentileArg::NotANumber => MethodResult::Throw(HistogramError::PercentileNotANumber),
            PercentileArg::OutOfRange => MethodResult::Throw(HistogramError::PercentileOutOfRange),
            PercentileArg::Rank(rank) => MethodResult::Number(
                store.histograms[id].percentile(rank),
            ),
        },
        HistogramMethod::PercentileBigInt => match percentile {
            PercentileArg::NotANumber => MethodResult::Throw(HistogramError::PercentileNotANumber),
            PercentileArg::OutOfRange => MethodResult::Throw(HistogramError::PercentileOutOfRange),
            PercentileArg::Rank(rank) => MethodResult::BigInt(
                store.histograms[id].percentile(rank),
            ),
        },
        HistogramMethod::ToJson => MethodResult::Json(histogram_to_json(&store.histograms[id])),
        _ => MethodResult::NotFound,
    }
}

// ---------------------------------------------------------------------------
// Laws
// ---------------------------------------------------------------------------

/// Two handles are independent: a method called on one changes no other.
pub proof fn law_handles_are_independent(
    before: &HistogramStore,
    after: &HistogramStore,
    id: int,
    m: HistogramMethod,
    arg: JsArg,
    percentile: PercentileArg,
    now_ns: u128,
    r: MethodResult,
    other: int,
)
    requires
        method_effect(before, after, id, m, arg, percentile, now_ns, r),
        0 <= other < before.histograms@.len(),
        other != id,
    ensures
        after.histograms@[other] == before.histograms@[other],
{
}

/// What is valid by itself is valid as an option: without options the
/// defaults are used, and they are the same as options that are all missing.
pub proof fn law_missing_options_are_the_defaults()
    ensures
        resolved(CreateOptions::Omitted) == resolved(
            CreateOptions::Given {
                lowest: JsArg::Undefined,
                highest: JsArg::Undefined,
                figures: JsArg::Undefined,
            },
        ),
        resolved(CreateOptions::Omitted) is Ok,
{
}

} // verus!
