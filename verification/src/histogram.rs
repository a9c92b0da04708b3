//! Histograms of recorded values.
//!
//! Every figure that can be read, from the least value to the percentiles, is
//! a function of the bucketed counters and not of the raw values: so the
//! value of the last rank is the maximum, and that of the first rank has the
//! minimum's counter.

use vstd::prelude::*;
use vstd::arithmetic::power::*;
use vstd::arithmetic::power2::*;
use crate::hdr::{
    law_small_values_are_exact, lemma_bucket_fits, lemma_index_monotone, lemma_index_value_at,
    lemma_lowest_same_counter, lemma_shape_positive, lemma_step_bounds, lemma_value_at_index, Shape,
};
use crate::sums::{
    lemma_sum_bounds, lemma_sum_monotone, lemma_sum_step, lemma_sum_update, lemma_sum_zeros, sum_of,
};

verus! {

/// The two kinds of histograms. Only those of event-loop delays can be
/// enabled and disabled.
#[derive(Clone, Copy, PartialEq, Eq, Structural, Debug)]
pub enum HistogramKind {
    Recordable,
    Eld,
}

impl HistogramKind {
    /// The name of the constructor.
    pub fn ctor_name(self) -> (s: &'static str)
        ensures
            s@ == match self {
                HistogramKind::Recordable => "RecordableHistogram"@,
                HistogramKind::Eld => "ELDHistogram"@,
            },
    {
        match self {
            HistogramKind::Recordable => "RecordableHistogram",
            HistogramKind::Eld => "ELDHistogram",
        }
    }
}

/// A histogram.
pub struct Histogram {
    pub kind: HistogramKind,
    pub shape: Shape,
    /// The greatest value that is recorded.
    pub highest: i64,
    /// Number of buckets.
    pub buckets: u32,
    /// The counters.
    pub counts: Vec<u64>,
    /// How many values were recorded.
    pub total_count: u64,
    /// The least value recorded other than zero; the greatest number while
    /// there is none.
    pub min_value: i64,
    /// The greatest value recorded; zero while there is none.
    pub max_value: i64,
    /// How many values were out of range.
    pub exceeds: u64,
    pub enabled: bool,
    /// When a delta was last recorded, in nanoseconds.
    pub prev_delta: Option<u128>,
    /// The map that percentiles are handed out in; 0 while there is none.
    pub map_bits: u64,
}

/// The contents of a histogram: its range, what was recorded, and what belongs
/// to the handle.
pub ghost struct HistState {
    pub kind: HistogramKind,
    pub shape: Shape,
    pub highest: int,
    pub buckets: int,
    pub counts: Seq<u64>,
    pub total: int,
    pub min_value: int,
    pub max_value: int,
    pub exceeds: int,
    pub enabled: bool,
    pub prev_delta: Option<u128>,
    pub map_bits: u64,
}

impl View for Histogram {
    type V = HistState;

    open spec fn view(&self) -> HistState {
        HistState {
            kind: self.kind,
            shape: self.shape,
            highest: self.highest as int,
            buckets: self.buckets as int,
            counts: self.counts@,
            total: self.total_count as int,
            min_value: self.min_value as int,
            max_value: self.max_value as int,
            exceeds: self.exceeds as int,
            enabled: self.enabled,
            prev_delta: self.prev_delta,
            map_bits: self.map_bits,
        }
    }
}

impl HistState {
    /// The counters are there, and they sum up to the total.
    pub open spec fn counters_ok(self) -> bool {
        &&& self.shape.well_formed()
        &&& self.highest <= i64::MAX
        &&& self.buckets == 1 + self.shape.bucket(self.highest)
        &&& self.buckets >= 1
        &&& self.shape.unit + self.shape.half + self.buckets <= 63
        &&& self.counts.len() == (self.buckets + 1) * self.shape.steps()
        &&& sum_of(self.counts) == self.total
        &&& 0 <= self.max_value <= i64::MAX
        &&& 1 <= self.min_value <= i64::MAX
    }

    /// No counter is used beyond that of the greatest value, and that one is
    /// used where there is one; likewise for the least, zero aside. All values
    /// are in range.
    pub open spec fn extremes_ok(self) -> bool {
        &&& forall|i: int|
            0 <= i < self.counts.len() && #[trigger] self.counts[i] > 0 ==> i <= self.shape.index(
                self.max_value,
            )
        &&& self.max_value > 0 ==> self.used(self.shape.index(self.max_value))
        &&& forall|i: int|
            0 < i < self.counts.len() && #[trigger] self.counts[i] > 0 ==> self.shape.index(
                self.min_value,
            ) <= i
        &&& self.min_value < i64::MAX ==> self.used(self.shape.index(self.min_value))
        &&& self.total > 0 ==> self.max_value <= self.highest
    }

    pub open spec fn well_formed(self) -> bool {
        self.counters_ok() && self.extremes_ok()
    }

    /// The counter is there and was used.
    pub open spec fn used(self, i: int) -> bool {
        0 <= i < self.counts.len() && self.counts[i] > 0
    }

    /// The value is in range.
    pub open spec fn tracked_value(self, v: int) -> bool {
        0 <= v <= self.highest
    }

    /// The counts fit into 64 bits.
    pub open spec fn fits(self) -> bool {
        self.total <= u64::MAX && self.exceeds <= u64::MAX
    }

    /// A value recorded `n` times, where it is in range.
    pub open spec fn recorded(self, v: int, n: int) -> HistState {
        let i = self.shape.index(v);
        HistState {
            counts: self.counts.update(i, (self.counts[i] + n) as u64),
            total: self.total + n,
            min_value: if v != 0 && v < self.min_value {
                v
            } else {
                self.min_value
            },
            max_value: if v > self.max_value {
                v
            } else {
                self.max_value
            },
            ..self
        }
    }

    /// A value recorded `n` times, or counted as out of range.
    pub open spec fn noted(self, v: int, n: int) -> HistState {
        if self.tracked_value(v) {
            self.recorded(v, n)
        } else {
            HistState { exceeds: self.exceeds + n, ..self }
        }
    }

    /// The histogram without its values.
    pub open spec fn emptied(self) -> HistState {
        HistState {
            counts: Seq::new(self.counts.len(), |i: int| 0u64),
            total: 0,
            min_value: i64::MAX as int,
            max_value: 0,
            exceeds: 0,
            ..self
        }
    }

    /// The least value that the least one cannot be told from; the greatest
    /// number while there is none.
    pub open spec fn min(self) -> int {
        if self.counts[0] > 0 {
            0
        } else if self.total == 0 {
            i64::MAX as int
        } else {
            self.shape.lowest(self.min_value)
        }
    }

    /// The greatest value that the greatest one cannot be told from; zero
    /// while there is none.
    pub open spec fn max(self) -> int {
        if self.total == 0 {
            0
        } else {
            self.shape.highest(self.max_value)
        }
    }

    /// How many values the first `n` counters count.
    pub open spec fn counted(self, n: int) -> int {
        sum_of(self.counts.take(n))
    }

    /// The first counter from `i` on with which `rank` values are counted, or
    /// the number of counters.
    pub open spec fn rank_index(self, rank: int, i: int) -> int
        decreases self.counts.len() - i,
    {
        if i >= self.counts.len() {
            self.counts.len() as int
        } else if self.counted(i + 1) >= rank {
            i
        } else {
            self.rank_index(rank, i + 1)
        }
    }

    /// The greatest value that a counter stands for.
    pub open spec fn top_of(self, i: int) -> int {
        self.shape.highest(self.shape.value_at(i))
    }

    /// The value that `rank` values do not exceed.
    pub open spec fn at_rank(self, rank: int) -> int {
        let i = self.rank_index(if rank < 1 {
            1
        } else {
            rank
        }, 0);
        if i < self.counts.len() {
            self.top_of(i)
        } else {
            0
        }
    }
}

// ---------------------------------------------------------------------------
// Making a histogram
// ---------------------------------------------------------------------------

/// The place of the highest one bit: `2^unit <= lowest < 2^(unit + 1)`.
pub open spec fn is_unit_for(unit: u32, lowest: int) -> bool {
    pow2(unit as nat) <= lowest < pow2((unit + 1) as nat)
}

/// The number of steps that `figures` significant decimal digits need:
/// `2^(half - 1) < 10^figures <= 2^half`.
pub open spec fn is_half_for(half: u32, figures: u32) -> bool {
    pow2((half - 1) as nat) < pow(10, figures as nat) <= pow2(half as nat)
}

/// The unit of a least value to be told apart.
pub fn unit_magnitude(lowest: i64) -> (unit: u32)
    requires
        lowest >= 1,
    ensures
        is_unit_for(unit, lowest as int),
        unit <= 62,
{
    let mut unit: u32 = 0;
    let mut p: u64 = 1;
    proof {
        lemma2_to64();
    }
    while p * 2 <= lowest as u64
        invariant
            1 <= lowest,
            p == pow2(unit as nat),
            p <= lowest,
            unit <= 62,
        decreases lowest - p,
    {
        proof {
            lemma2_to64();
            lemma2_to64_rest();
            lemma_pow2_unfold((unit + 1) as nat);
            lemma_pow2_pos(unit as nat);
            assert(unit != 62);
        }
        p = p * 2;
        unit = unit + 1;
    }
    proof {
        lemma_pow2_unfold((unit + 1) as nat);
    }
    unit
}

/// The steps that significant digits need.
pub fn half_magnitude(figures: u32) -> (half: u32)
    requires
        1 <= figures <= 5,
    ensures
        is_half_for(half, figures),
        4 <= half <= 17,
{
    proof {
        lemma2_to64();
        lemma_pow1(10);
        lemma_pow_adds(10, 1, 1);
        lemma_pow_adds(10, 2, 1);
        lemma_pow_adds(10, 3, 1);
        lemma_pow_adds(10, 4, 1);
    }
    if figures == 1 {
        4
    } else if figures == 2 {
        7
    } else if figures == 3 {
        10
    } else if figures == 4 {
        14
    } else {
        17
    }
}

/// The shape with a given unit and precision.
pub open spec fn is_shape_for(shape: Shape, lowest: int, figures: u32) -> bool {
    is_unit_for(shape.unit, lowest) && is_half_for(shape.half, figures)
}

/// A histogram with this least value and precision can be made.
pub open spec fn can_track(lowest: int, figures: u32) -> bool {
    exists|shape: Shape| is_shape_for(shape, lowest, figures) && #[trigger] shape.well_formed()
}

proof fn lemma_magnitude_unique(a: nat, b: nat, x: int)
    requires
        pow2(a) <= x < pow2(a + 1),
        pow2(b) <= x < pow2(b + 1),
    ensures
        a == b,
{
    if a < b {
        if a + 1 < b {
            lemma_pow2_strictly_increases(a + 1, b);
        }
    }
    if b < a {
        if b + 1 < a {
            lemma_pow2_strictly_increases(b + 1, a);
        }
    }
}

proof fn lemma_half_unique(a: u32, b: u32, figures: u32)
    requires
        1 <= figures <= 5,
        is_half_for(a, figures),
        is_half_for(b, figures),
        a >= 1,
    ensures
        a == b,
{
    let x = pow(10, figures as nat);
    lemma_pow_positive(10, figures as nat);
    lemma2_to64();
    if b == 0 {
        lemma_pow1(10);
        if figures > 1 {
            lemma_pow_increases(10, 1, figures as nat);
        }
    }
    if a < b {
        if a < b - 1 {
            lemma_pow2_strictly_increases(a as nat, (b - 1) as nat);
        }
    }
    if b < a {
        if b < a - 1 {
            lemma_pow2_strictly_increases(b as nat, (a - 1) as nat);
        }
    }
}

/// The shape for a given unit and precision is the only one.
proof fn lemma_shape_unique(a: Shape, b: Shape, lowest: int, figures: u32)
    requires
        1 <= figures <= 5,
        is_shape_for(a, lowest, figures),
        is_shape_for(b, lowest, figures),
        a.half >= 1,
    ensures
        a == b,
{
    lemma_magnitude_unique(a.unit as nat, b.unit as nat, lowest);
    lemma_half_unique(a.half, b.half, figures);
}

/// Can a histogram with this least value and precision be made?
pub fn histogram_fits(lowest: i64, figures: u32) -> (r: bool)
    requires
        lowest >= 1,
        1 <= figures <= 5,
    ensures
        r == can_track(lowest as int, figures),
{
    let shape: Shape = Shape { unit: unit_magnitude(lowest), half: half_magnitude(figures) };
    let r: bool = shape.unit + shape.half <= 61;
    proof {
        if r {
            assert(shape.well_formed());
        } else if can_track(lowest as int, figures) {
            let other = choose|other: Shape|
                is_shape_for(other, lowest as int, figures) && #[trigger] other.well_formed();
            lemma_shape_unique(shape, other, lowest as int, figures);
        }
    }
    r
}

/// A new histogram: empty, with a counter for every value up to `highest`.
pub open spec fn is_new(s: HistState, lowest: int, highest: int, figures: u32) -> bool {
    &&& is_shape_for(s.shape, lowest, figures)
    &&& s.highest == highest
    &&& s.buckets == 1 + s.shape.bucket(highest)
    &&& s.counts.len() == (s.buckets + 1) * s.shape.steps()
    &&& s == s.emptied()
}

proof fn lemma_empty_ok(s: HistState)
    requires
        s.shape.well_formed(),
        s.highest <= i64::MAX,
        s.buckets == 1 + s.shape.bucket(s.highest),
        s.buckets >= 1,
        s.shape.unit + s.shape.half + s.buckets <= 63,
        s.counts.len() == (s.buckets + 1) * s.shape.steps(),
    ensures
        s.emptied().well_formed(),
{
    lemma_sum_zeros(s.emptied().counts);
}

impl Histogram {
    /// Make an empty histogram that tells values from `lowest` on apart to
    /// `figures` significant digits, with a counter for every value up to
    /// `highest`.
    pub fn new(kind: HistogramKind, lowest: i64, highest: i64, figures: u32) -> (h: Histogram)
        requires
            lowest >= 1,
            1 <= figures <= 5,
            can_track(lowest as int, figures),
        ensures
            h@.well_formed(),
            is_new(h@, lowest as int, highest as int, figures),
            h.is_fresh(kind),
    {
        let shape: Shape = Shape { unit: unit_magnitude(lowest), half: half_magnitude(figures) };
        proof {
            let other = choose|other: Shape|
                is_shape_for(other, lowest as int, figures) && #[trigger] other.well_formed();
            lemma_shape_unique(shape, other, lowest as int, figures);
        }
        let top: u32 = if highest < 0 {
            proof {
                lemma_shape_positive(shape);
            }
            0
        } else {
            proof {
                lemma_bucket_fits(shape, highest as int);
            }
            shape.bucket_index(highest)
        };
        let steps: u64 = 1u64 << (shape.half as u64);
        proof {
            vstd::bits::lemma_u64_pow2_no_overflow(shape.half as nat);
            vstd::bits::lemma_u64_shl_is_mul(1, shape.half as u64);
            lemma2_to64();
            if shape.half < 17 {
                lemma_pow2_strictly_increases(shape.half as nat, 17);
            }
            assert((top + 2) * steps <= 64 * 0x20000) by (nonlinear_arith)
                requires
                    0 <= top <= 62,
                    0 <= steps <= 0x20000,
            ;
        }
        let len: usize = ((top as u64 + 2) * steps) as usize;
        let counts: Vec<u64> = vec![0u64; len];
        let h = Histogram {
            kind,
            shape,
            highest,
            buckets: top + 1,
            counts,
            total_count: 0,
            min_value: i64::MAX,
            max_value: 0,
            exceeds: 0,
            enabled: false,
            prev_delta: None,
            map_bits: 0,
        };
        proof {
            assert(h@.counts =~= h@.emptied().counts);
            lemma_empty_ok(h@);
        }
        h
    }
}

// ---------------------------------------------------------------------------
// Recording
// ---------------------------------------------------------------------------

/// Every value in range has a counter.
proof fn lemma_tracked_has_a_counter(s: HistState, v: int)
    requires
        s.buckets == 1 + s.shape.bucket(s.highest),
        s.counts.len() == (s.buckets + 1) * s.shape.steps(),
        s.tracked_value(v),
    ensures
        0 <= s.shape.index(v) < s.counts.len(),
{
    lemma_value_at_index(s.shape, v);
    lemma_index_monotone(s.shape, v, s.highest);
    lemma_step_bounds(s.shape, s.highest);
    lemma_shape_positive(s.shape);
    let b = s.shape.bucket(s.highest);
    let h = s.shape.steps();
    assert(b * h + 2 * h == (b + 2) * h) by (nonlinear_arith);
}

/// Recording keeps the counters in order.
proof fn lemma_recorded_counters_ok(s: HistState, v: int, n: int)
    requires
        s.counters_ok(),
        s.tracked_value(v),
        0 <= n,
        s.total + n <= u64::MAX,
    ensures
        s.recorded(v, n).counters_ok(),
        s.counts[s.shape.index(v)] + n <= u64::MAX,
{
    let k = s.shape.index(v);
    lemma_tracked_has_a_counter(s, v);
    lemma_sum_bounds(s.counts, k);
    lemma_sum_update(s.counts, k, (s.counts[k] + n) as u64);
}

/// Recording keeps the counters and the extremes in order.
proof fn lemma_recorded_ok(s: HistState, v: int, n: int)
    requires
        s.well_formed(),
        s.tracked_value(v),
        0 < n,
        s.total + n <= u64::MAX,
    ensures
        s.recorded(v, n).well_formed(),
{
    let t = s.recorded(v, n);
    let k = s.shape.index(v);
    lemma_value_at_index(s.shape, v);
    lemma_tracked_has_a_counter(s, v);
    lemma_sum_bounds(s.counts, k);
    lemma_recorded_counters_ok(s, v, n);
    if s.max_value > 0 {
        lemma_sum_bounds(s.counts, s.shape.index(s.max_value));
    }
    assert forall|i: int| 0 <= i < t.counts.len() && #[trigger] t.counts[i] > 0 implies i
        <= t.shape.index(t.max_value) by {
        if v > s.max_value {
            lemma_index_monotone(s.shape, s.max_value, v);
        } else {
            lemma_index_monotone(s.shape, v, s.max_value);
        }
        if i != k {
            assert(s.counts[i] > 0);
        }
    }
    if t.max_value > 0 {
        let m = s.shape.index(t.max_value);
        if v <= s.max_value {
            assert(s.used(m));
        }
        assert(t.used(m));
    }
    assert forall|i: int| 0 < i < t.counts.len() && #[trigger] t.counts[i] > 0 implies t.shape.index(
        t.min_value,
    ) <= i by {
        if v != 0 && v < s.min_value {
            lemma_index_monotone(s.shape, v, s.min_value);
        } else if v != 0 {
            lemma_index_monotone(s.shape, s.min_value, v);
        } else {
            lemma_index_of_zero(s.shape);
        }
        if i != k {
            assert(s.counts[i] > 0);
        }
    }
    if t.min_value < i64::MAX {
        let m = s.shape.index(t.min_value);
        if !(v != 0 && v < s.min_value) {
            assert(s.used(m));
        }
        assert(t.used(m));
    }
}

/// Zero has the first counter.
proof fn lemma_index_of_zero(s: Shape)
    ensures
        s.index(0) == 0,
        s.lowest(0) == 0,
        s.bucket(0) == 0,
{
    lemma_shape_positive(s);
    lemma_step_bounds(s, 0);
    assert(0int / s.width(0) == 0) by {
        vstd::arithmetic::div_mod::lemma_div_basics(s.width(0));
    }
    assert(0 * s.steps() == 0);
    assert(0 * s.width(0) == 0);
}

impl Histogram {
    /// The handle is as new: not enabled, with no delta started and no map
    /// handed out.
    pub open spec fn is_fresh(&self, kind: HistogramKind) -> bool {
        &&& self.kind == kind
        &&& !self.enabled
        &&& self.prev_delta is None
        &&& self.map_bits == 0
    }

    /// Record a value `count` times. False, with nothing recorded, where it is
    /// out of range.
    pub fn record_values(&mut self, value: i64, count: u64) -> (r: bool)
        requires
            old(self)@.counters_ok(),
            old(self)@.tracked_value(value as int) ==> old(self).total_count + count <= u64::MAX,
        ensures
            final(self)@.counters_ok(),
            old(self)@.well_formed() && count > 0 ==> final(self)@.well_formed(),
            r == old(self)@.tracked_value(value as int),
            final(self)@ == if r {
                old(self)@.recorded(value as int, count as int)
            } else {
                old(self)@
            },
    {
        if value < 0 || value > self.highest {
            return false;
        }
        let index: u64 = self.shape.counts_index_for(value);
        assert(index < self.counts.len()) by {
            lemma_tracked_has_a_counter(self@, value as int);
        }
        proof {
            lemma_recorded_counters_ok(self@, value as int, count as int);
            if self@.well_formed() && count > 0 {
                lemma_recorded_ok(self@, value as int, count as int);
            }
        }
        let c: u64 = self.counts[index as usize];
        self.counts.set(index as usize, c + count);
        self.total_count = self.total_count + count;
        if value != 0 && value < self.min_value {
            self.min_value = value;
        }
        if value > self.max_value {
            self.max_value = value;
        }
        true
    }

    /// Record a value, or count it as out of range.
    pub fn record(&mut self, value: i64)
        requires
            old(self)@.well_formed(),
            old(self)@.noted(value as int, 1).fits(),
        ensures
            final(self)@.well_formed(),
            final(self)@ == old(self)@.noted(value as int, 1),
    {
        if !self.record_values(value, 1) {
            self.exceeds = self.exceeds + 1;
        }
    }

    /// Do the counts fit when one more value is recorded?
    pub fn has_room(&self, value: i64) -> (r: bool)
        ensures
            r == self@.noted(value as int, 1).fits(),
    {
        if value < 0 || value > self.highest {
            self.exceeds < u64::MAX
        } else {
            self.total_count < u64::MAX
        }
    }

    /// Forget all values.
    pub fn reset(&mut self)
        requires
            old(self)@.well_formed(),
        ensures
            final(self)@.well_formed(),
            final(self)@ == old(self)@.emptied(),
    {
        let ghost before = self@;
        let n: usize = self.counts.len();
        let mut i: usize = 0;
        while i < n
            invariant
                i <= n,
                n == self.counts@.len(),
                n == before.counts.len(),
                self@ == (HistState { counts: self.counts@, ..before }),
                forall|k: int| 0 <= k < i ==> #[trigger] self.counts@[k] == 0,
            decreases n - i,
        {
            self.counts.set(i, 0);
            i = i + 1;
        }
        self.total_count = 0;
        self.min_value = i64::MAX;
        self.max_value = 0;
        self.exceeds = 0;
        proof {
            lemma_empty_ok(before);
            assert(self@.counts =~= before.emptied().counts);
        }
    }

    /// The least value that the least value recorded cannot be told from.
    pub fn min(&self) -> (v: i64)
        requires
            self@.well_formed(),
        ensures
            v == self@.min(),
    {
        proof {
            lemma_counters_exist(self@);
        }
        if self.counts[0] > 0 {
            0
        } else if self.total_count == 0 {
            i64::MAX
        } else {
            self.shape.lowest_equivalent(self.min_value)
        }
    }

    /// The greatest value that the greatest value recorded cannot be told
    /// from.
    pub fn max(&self) -> (v: i64)
        requires
            self@.well_formed(),
        ensures
            v == self@.max(),
    {
        if self.total_count == 0 {
            0
        } else {
            self.shape.highest_equivalent(self.max_value)
        }
    }
}

/// There is a counter, and every counter's value fits.
proof fn lemma_counters_exist(s: HistState)
    requires
        s.counters_ok(),
    ensures
        s.counts.len() >= 2,
        forall|i: int|
            0 <= i < s.counts.len() ==> s.shape.unit + s.shape.half + #[trigger] s.shape.bucket_at(i)
                <= 62,
{
    lemma_shape_positive(s.shape);
    let h = s.shape.steps();
    let b = s.buckets;
    assert((b + 1) * h >= 2) by (nonlinear_arith)
        requires
            b >= 1,
            h >= 1,
    ;
    assert forall|i: int| 0 <= i < s.counts.len() implies s.shape.unit + s.shape.half
        + #[trigger] s.shape.bucket_at(i) <= 62 by {
        assert((b + 1) * h == (b - 1 + 2) * h);
        lemma_index_value_at(s.shape, i, b - 1);
    }
}

// ---------------------------------------------------------------------------
// Means
// ---------------------------------------------------------------------------

impl HistState {
    /// The sum over the first `n` counters, each value taken at the middle of
    /// its range.
    pub open spec fn weighted(self, n: int) -> int
        decreases n,
    {
        if n <= 0 {
            0
        } else {
            self.weighted(n - 1) + self.counts[n - 1] * self.shape.median(
                self.shape.value_at(n - 1),
            )
        }
    }

    /// Count and middle of the used counters among the first `n`, in order.
    pub open spec fn used_upto(self, n: int) -> Seq<(u64, i64)>
        decreases n,
    {
        if n <= 0 {
            Seq::empty()
        } else if self.counts[n - 1] > 0 {
            self.used_upto(n - 1).push(
                (self.counts[n - 1], self.shape.median(self.shape.value_at(n - 1)) as i64),
            )
        } else {
            self.used_upto(n - 1)
        }
    }
}

/// The middle of a counter's range.
proof fn lemma_median_fits(s: HistState, i: int)
    requires
        s.counters_ok(),
        0 <= i < s.counts.len(),
    ensures
        0 <= s.shape.value_at(i) <= i64::MAX,
        0 <= s.shape.median(s.shape.value_at(i)) <= i64::MAX,
        0 <= s.shape.highest(s.shape.value_at(i)) <= i64::MAX,
{
    lemma_counters_exist(s);
    let b = s.buckets - 1;
    assert((s.buckets + 1) * s.shape.steps() == (b + 2) * s.shape.steps());
    lemma_index_value_at(s.shape, i, b);
    let v = s.shape.value_at(i);
    lemma_step_bounds(s.shape, v);
    lemma_bucket_top(s.shape, s.shape.bucket(v));
}

proof fn lemma_bucket_top(s: Shape, b: int)
    requires
        0 <= b,
        s.unit + s.half + b <= 62,
    ensures
        s.span() * pow2(b as nat) <= 0x8000_0000_0000_0000,
{
    lemma_pow2_adds((s.unit + s.half + 1) as nat, b as nat);
    lemma2_to64();
    lemma2_to64_rest();
    let e = (s.unit + s.half + 1 + b) as nat;
    if e < 63 {
        lemma_pow2_strictly_increases(e, 63);
    }
}

impl Histogram {
    /// The sum of all values, each taken at the middle of its range, and how
    /// many there are. Nothing while there are none: there is no mean then.
    pub fn mean_parts(&self) -> (r: Option<(u128, u64)>)
        requires
            self@.well_formed(),
        ensures
            r is None <==> self.total_count == 0,
            r matches Some(p) ==> p.0 == self@.weighted(self@.counts.len() as int) && p.1
                == self.total_count,
    {
        if self.total_count == 0 {
            return None;
        }
        let mut total: u128 = 0;
        let mut i: usize = 0;
        let n: usize = self.counts.len();
        assert(self@.counts.take(0) =~= Seq::empty());
        while i < n
            invariant
                i <= n,
                n == self.counts@.len(),
                self@.well_formed(),
                total == self@.weighted(i as int),
                0 <= total <= self@.counted(i as int) * i64::MAX,
            decreases n - i,
        {
            let c: u64 = self.counts[i];
            proof {
                lemma_median_fits(self@, i as int);
                lemma_counters_exist(self@);
                lemma_sum_step(self@.counts, i as int);
                lemma_sum_monotone(self@.counts, i as int, i + 1);
                let m = self@.shape.median(self@.shape.value_at(i as int));
                let a = self@.counted(i as int);
                let k: int = c as int;
                assert(0 <= k * m <= k * i64::MAX) by (nonlinear_arith)
                    requires
                        0 <= m <= i64::MAX,
                        0 <= k,
                ;
                assert((a + k) * i64::MAX == a * i64::MAX + k * i64::MAX) by (nonlinear_arith);
                assert((a + k) * i64::MAX <= 0xFFFF_FFFF_FFFF_FFFF * i64::MAX) by (nonlinear_arith)
                    requires
                        a + k <= 0xFFFF_FFFF_FFFF_FFFF,
                ;
            }
            if c != 0 {
                let v: i64 = self.shape.value_at_index(i as u64);
                let m: i64 = self.shape.median_equivalent(v);
                total = total + c as u128 * m as u128;
            } else {
                assert(0 * self@.shape.median(self@.shape.value_at(i as int)) == 0);
            }
            i = i + 1;
        }
        Some((total, self.total_count))
    }

    /// Count and middle of every used counter, in order.
    pub fn used_medians(&self) -> (r: Vec<(u64, i64)>)
        requires
            self@.well_formed(),
        ensures
            r@ == self@.used_upto(self@.counts.len() as int),
    {
        let mut r: Vec<(u64, i64)> = Vec::new();
        let mut i: usize = 0;
        let n: usize = self.counts.len();
        assert(r@ =~= Seq::empty());
        while i < n
            invariant
                i <= n,
                n == self.counts@.len(),
                self@.well_formed(),
                r@ == self@.used_upto(i as int),
            decreases n - i,
        {
            let c: u64 = self.counts[i];
            proof {
                lemma_median_fits(self@, i as int);
                lemma_counters_exist(self@);
            }
            if c > 0 {
                let v: i64 = self.shape.value_at_index(i as u64);
                let m: i64 = self.shape.median_equivalent(v);
                r.push((c, m));
            }
            i = i + 1;
        }
        r
    }

    /// The value that `rank` of the values do not exceed, up to the width of
    /// its range; a rank below one is taken as one. Zero where there are
    /// fewer values.
    pub fn percentile(&self, rank: i64) -> (v: i64)
        requires
            self@.well_formed(),
        ensures
            v == self@.at_rank(rank as int),
    {
        let wanted: u64 = if rank < 1 {
            1
        } else {
            rank as u64
        };
        let mut total: u64 = 0;
        let mut i: usize = 0;
        let n: usize = self.counts.len();
        assert(self@.counts.take(0) =~= Seq::empty());
        while i < n
            invariant
                i <= n,
                n == self.counts@.len(),
                self@.well_formed(),
                total == self@.counted(i as int),
                wanted == if rank < 1 {
                    1
                } else {
                    rank
                },
                self@.rank_index(wanted as int, 0) == self@.rank_index(wanted as int, i as int),
            decreases n - i,
        {
            proof {
                lemma_sum_step(self@.counts, i as int);
                lemma_sum_monotone(self@.counts, i as int, i + 1);
                lemma_median_fits(self@, i as int);
                lemma_counters_exist(self@);
            }
            total = total + self.counts[i];
            if total >= wanted {
                let v: i64 = self.shape.value_at_index(i as u64);
                return self.shape.highest_equivalent(v);
            }
            i = i + 1;
        }
        0
    }
}

// ---------------------------------------------------------------------------
// The list of percentiles
// ---------------------------------------------------------------------------

/// A percentile of the list: the distance to everything is halved from one to
/// the next.
#[derive(Clone, Copy, PartialEq, Eq, Structural, Debug)]
pub enum Tick {
    /// `100 - 100 / 2^k` percent.
    Halving(u32),
    /// 100 percent.
    Full,
}

impl HistState {
    /// The counter is used, and up to it the values counted make up tick `k`.
    pub open spec fn reaches(self, k: nat, i: int) -> bool {
        self.counts[i] > 0 && pow2(k) * (self.total - self.counted(i + 1)) <= self.total
    }

    /// The first counter from `i` on that reaches tick `k`, or the number of
    /// counters.
    pub open spec fn tick_index(self, k: nat, i: int) -> int
        decreases self.counts.len() - i,
    {
        if i >= self.counts.len() {
            self.counts.len() as int
        } else if self.reaches(k, i) {
            i
        } else {
            self.tick_index(k, i + 1)
        }
    }

    /// All values are counted up to the counter that reaches tick `k`.
    pub open spec fn is_last_tick(self, k: nat) -> bool {
        self.counted(self.tick_index(k, 0) + 1) == self.total
    }

    /// The list: one entry for each tick up to the first that takes all
    /// values, and one for everything. Each has the greatest value of the
    /// counter that reaches it.
    pub open spec fn is_percentile_list(self, out: Seq<(Tick, i64)>) -> bool {
        if self.total == 0 {
            out.len() == 0
        } else {
            &&& out.len() >= 2
            &&& forall|k: int|
                0 <= k < out.len() - 1 ==> #[trigger] out[k] == (
                    Tick::Halving(k as u32),
                    self.top_of(self.tick_index(k as nat, 0)) as i64,
                )
            &&& out.last() == (
                Tick::Full,
                self.top_of(self.tick_index((out.len() - 2) as nat, 0)) as i64,
            )
            &&& self.is_last_tick((out.len() - 2) as nat)
            &&& forall|k: int|
                0 <= k < out.len() - 2 ==> !#[trigger] self.is_last_tick(k as nat)
        }
    }
}

proof fn lemma_tick_index(s: HistState, k: nat, i: int)
    requires
        0 <= i <= s.counts.len(),
    ensures
        i <= s.tick_index(k, i) <= s.counts.len(),
        s.tick_index(k, i) < s.counts.len() ==> s.reaches(k, s.tick_index(k, i)),
        forall|j: int| i <= j < s.tick_index(k, i) ==> !#[trigger] s.reaches(k, j),
    decreases s.counts.len() - i,
{
    if i < s.counts.len() && !s.reaches(k, i) {
        lemma_tick_index(s, k, i + 1);
    }
}

/// A later tick is reached no earlier.
proof fn lemma_ticks_ordered(s: HistState, k: nat, i: int)
    requires
        s.counters_ok(),
        0 <= i < s.counts.len(),
        s.reaches(k + 1, i),
    ensures
        s.reaches(k, i),
{
    lemma_pow2_unfold(k + 1);
    lemma_pow2_pos(k);
    lemma_sum_monotone(s.counts, i + 1, i + 1);
    let p = pow2(k) as int;
    let r = s.total - s.counted(i + 1);
    assert(p * r <= (2 * p) * r) by (nonlinear_arith)
        requires
            p >= 0,
            r >= 0,
    ;
}

/// Looking for a tick may start where the tick before was reached.
proof fn lemma_tick_from(s: HistState, k: nat, from: int, i: int)
    requires
        s.counters_ok(),
        from == s.tick_index(k, 0),
        0 <= i <= from,
        i < s.counts.len(),
    ensures
        s.tick_index(k + 1, i) == s.tick_index(k + 1, from),
    decreases from - i,
{
    if i < from {
        lemma_tick_index(s, k, 0);
        assert(!s.reaches(k, i));
        if s.reaches(k + 1, i) {
            lemma_ticks_ordered(s, k, i);
        }
        if i + 1 < s.counts.len() {
            lemma_tick_from(s, k, from, i + 1);
        }
    }
}

/// The counter up to which everything is counted reaches every tick.
proof fn lemma_some_counter_reaches(s: HistState, k: nat, i: int)
    requires
        s.counters_ok(),
        s.total > 0,
        0 <= i <= s.counts.len(),
        s.counted(i) < s.total,
    ensures
        s.tick_index(k, i) < s.counts.len(),
    decreases s.counts.len() - i,
{
    assert(s.counts.take(s.counts.len() as int) =~= s.counts);
    if i < s.counts.len() {
        lemma_sum_step(s.counts, i);
        lemma_sum_monotone(s.counts, i + 1, i + 1);
        if !s.reaches(k, i) {
            if s.counted(i + 1) == s.total {
                assert(s.counts[i] > 0);
                assert(pow2(k) * 0 == 0);
                assert(false);
            }
            lemma_some_counter_reaches(s, k, i + 1);
        }
    }
}

impl Histogram {
    /// The list of percentiles.
    pub fn percentile_entries(&self) -> (out: Vec<(Tick, i64)>)
        requires
            self@.well_formed(),
        ensures
            self@.is_percentile_list(out@),
    {
        let mut out: Vec<(Tick, i64)> = Vec::new();
        if self.total_count == 0 {
            return out;
        }
        let ghost s = self@;
        let total: u64 = self.total_count;
        let n: usize = self.counts.len();
        let mut k: u32 = 0;
        // 2^k
        let mut distance: u128 = 1;
        let mut i: usize = 0;
        let mut cumulative: u64 = self.counts[0];
        proof {
            lemma2_to64();
            lemma_counters_exist(s);
            assert(s.counts.take(0) =~= Seq::empty());
            lemma_sum_step(s.counts, 0);
            lemma_some_counter_reaches(s, 0, 0);
            lemma_sum_monotone(s.counts, 1, 1);
        }
        loop
            invariant
                s == self@,
                s.well_formed(),
                total == s.total,
                0 < total,
                n == s.counts.len(),
                n == self.counts@.len(),
                i < n,
                cumulative == s.counted(i + 1),
                cumulative <= total,
                k <= 64,
                distance == pow2(k as nat),
                distance >= 1,
                k == 0 ==> distance == 1,
                k > 0 ==> cumulative < total,
                k > 0 ==> distance * (total - cumulative) <= 2 * total,
                s.tick_index(k as nat, 0) == s.tick_index(k as nat, i as int),
                s.tick_index(k as nat, 0) < n,
                out@.len() == k,
                forall|j: int|
                    0 <= j < k ==> #[trigger] out@[j] == (
                        Tick::Halving(j as u32),
                        s.top_of(s.tick_index(j as nat, 0)) as i64,
                    ),
                forall|j: int| 0 <= j < k ==> !#[trigger] s.is_last_tick(j as nat),
            decreases 65 - k,
        {
            // find the counter that reaches tick k
            let mut found: bool = false;
            while !found
                invariant
                    s == self@,
                    s.well_formed(),
                    total == s.total,
                    0 < total,
                    n == s.counts.len(),
                    n == self.counts@.len(),
                    i < n,
                    cumulative == s.counted(i + 1),
                    cumulative <= total,
                    k <= 64,
                    distance == pow2(k as nat),
                    distance >= 1,
                    k == 0 ==> distance == 1,
                    k > 0 ==> distance * (total - cumulative) <= 2 * total,
                    s.tick_index(k as nat, 0) == s.tick_index(k as nat, i as int),
                    s.tick_index(k as nat, 0) < n,
                    found ==> s.reaches(k as nat, i as int),
                decreases n - i + if found {
                    0int
                } else {
                    1
                },
            {
                let c: u64 = self.counts[i];
                let rest: u64 = total - cumulative;
                proof {
                    if k == 0 {
                        assert(distance * rest <= 2 * total) by (nonlinear_arith)
                            requires
                                distance == 1,
                                rest <= total,
                        ;
                    }
                }
                if c != 0 && distance * rest as u128 <= total as u128 {
                    found = true;
                } else {
                    proof {
                        assert(!s.reaches(k as nat, i as int));
                        lemma_tick_index(s, k as nat, i + 1);
                        assert(i + 1 < n);
                        lemma_sum_step(s.counts, i + 1);
                        lemma_sum_monotone(s.counts, i + 1, i + 2);
                        let d = distance as int;
                        let r = rest as int;
                        let r2 = s.total - s.counted(i + 2);
                        assert(d * r2 <= d * r) by (nonlinear_arith)
                            requires
                                r2 <= r,
                                d >= 0,
                        ;
                    }
                    i = i + 1;
                    cumulative = cumulative + self.counts[i];
                }
            }
            proof {
                lemma_median_fits(s, i as int);
                lemma_counters_exist(s);
            }
            let v: i64 = self.shape.value_at_index(i as u64);
            let last: i64 = self.shape.highest_equivalent(v);
            assert(s.tick_index(k as nat, 0) == i);
            out.push((Tick::Halving(k), last));
            if cumulative >= total {
                out.push((Tick::Full, last));
                return out;
            }
            proof {
                assert(!s.is_last_tick(k as nat));
                let d = distance as int;
                let r = total - cumulative;
                // the distance is at most the total, so there are few ticks
                assert(d <= total) by (nonlinear_arith)
                    requires
                        d * r <= total,
                        r >= 1,
                        d >= 1,
                ;
                lemma2_to64();
                lemma2_to64_rest();
                if k == 64 {
                    assert(false);
                }
                lemma_pow2_unfold((k + 1) as nat);
                assert((2 * d) * r <= 2 * total) by (nonlinear_arith)
                    requires
                        d * r <= total,
                ;
                lemma_tick_from(s, k as nat, i as int, 0);
                lemma_some_counter_reaches(s, (k + 1) as nat, 0);
            }
            k = k + 1;
            distance = distance * 2;
        }
    }
}

// ---------------------------------------------------------------------------
// Adding histograms
// ---------------------------------------------------------------------------

impl HistState {
    /// The values of the first `n` counters of another histogram recorded too,
    /// each as the least value of its counter.
    pub open spec fn added(self, other: HistState, n: int) -> HistState
        decreases n,
    {
        if n <= 0 {
            self
        } else if other.counts[n - 1] == 0 {
            self.added(other, n - 1)
        } else {
            self.added(other, n - 1).noted(
                other.shape.value_at(n - 1),
                other.counts[n - 1] as int,
            )
        }
    }
}

/// Adding only ever raises the counts, and leaves the range alone.
proof fn lemma_added_grows(s: HistState, other: HistState, a: int, b: int)
    requires
        0 <= a <= b <= other.counts.len(),
    ensures
        s.added(other, a).total <= s.added(other, b).total,
        s.added(other, a).exceeds <= s.added(other, b).exceeds,
        s.added(other, b).highest == s.highest,
        s.added(other, b).shape == s.shape,
    decreases b,
{
    if a < b {
        lemma_added_grows(s, other, a, b - 1);
    } else if b > 0 {
        lemma_added_grows(s, other, a - 1, b - 1);
    }
}

impl Histogram {
    /// Do the counts fit when all values of another histogram are recorded?
    pub fn has_room_for_all(&self, other: &Histogram) -> (r: bool)
        requires
            other@.well_formed(),
        ensures
            r == self@.added(other@, other@.counts.len() as int).fits(),
    {
        let n: usize = other.counts.len();
        let mut total: u128 = self.total_count as u128;
        let mut exceeds: u128 = self.exceeds as u128;
        let mut i: usize = 0;
        assert(other@.counts.take(0) =~= Seq::empty());
        while i < n
            invariant
                i <= n,
                n == other.counts@.len(),
                other@.well_formed(),
                total == self@.added(other@, i as int).total,
                exceeds == self@.added(other@, i as int).exceeds,
                total <= self.total_count + other@.counted(i as int),
                exceeds <= self.exceeds + other@.counted(i as int),
            decreases n - i,
        {
            let c: u64 = other.counts[i];
            proof {
                lemma_median_fits(other@, i as int);
                lemma_counters_exist(other@);
                lemma_added_grows(self@, other@, i as int, i as int);
                lemma_sum_step(other@.counts, i as int);
                lemma_sum_monotone(other@.counts, i as int, i + 1);
            }
            if c != 0 {
                let v: i64 = other.shape.value_at_index(i as u64);
                if v > self.highest {
                    exceeds = exceeds + c as u128;
                } else {
                    total = total + c as u128;
                }
            }
            i = i + 1;
        }
        total <= u64::MAX as u128 && exceeds <= u64::MAX as u128
    }

    /// Record all values of another histogram.
    pub fn add(&mut self, other: &Histogram)
        requires
            old(self)@.well_formed(),
            other@.well_formed(),
            old(self)@.added(other@, other@.counts.len() as int).fits(),
        ensures
            final(self)@.well_formed(),
            final(self)@ == old(self)@.added(other@, other@.counts.len() as int),
    {
        let ghost before = self@;
        let n: usize = other.counts.len();
        let mut i: usize = 0;
        assert(other@.counts.take(0) =~= Seq::empty());
        while i < n
            invariant
                i <= n,
                n == other.counts@.len(),
                other@.well_formed(),
                self@.well_formed(),
                self@ == before.added(other@, i as int),
                before.added(other@, n as int).fits(),
            decreases n - i,
        {
            let c: u64 = other.counts[i];
            proof {
                lemma_median_fits(other@, i as int);
                lemma_counters_exist(other@);
                lemma_added_grows(before, other@, i + 1, n as int);
            }
            if c != 0 {
                let v: i64 = other.shape.value_at_index(i as u64);
                if !self.record_values(v, c) {
                    self.exceeds = self.exceeds + c;
                }
            }
            i = i + 1;
        }
    }
}

// ---------------------------------------------------------------------------
// Laws
// ---------------------------------------------------------------------------

proof fn lemma_rank_index(s: HistState, rank: int, i: int)
    requires
        0 <= i <= s.counts.len(),
    ensures
        i <= s.rank_index(rank, i) <= s.counts.len(),
        s.rank_index(rank, i) < s.counts.len() ==> s.counted(s.rank_index(rank, i) + 1) >= rank,
        forall|j: int| i <= j < s.rank_index(rank, i) ==> s.counted(#[trigger] (j + 1)) < rank,
    decreases s.counts.len() - i,
{
    if i < s.counts.len() && s.counted(i + 1) < rank {
        lemma_rank_index(s, rank, i + 1);
    }
}

/// With fewer values than there are, the rank is reached at a counter, and
/// that counter is used.
proof fn lemma_rank_reached(s: HistState, rank: int)
    requires
        s.counters_ok(),
        1 <= rank <= s.total,
    ensures
        s.rank_index(rank, 0) < s.counts.len(),
        s.counts[s.rank_index(rank, 0)] > 0,
{
    let i = s.rank_index(rank, 0);
    let n = s.counts.len() as int;
    lemma_rank_index(s, rank, 0);
    lemma_counters_exist(s);
    assert(s.counts.take(n) =~= s.counts);
    assert(s.counts.take(0) =~= Seq::empty());
    if i >= n {
        assert(s.counted((n - 1) + 1) < rank);
        assert(false);
    }
    lemma_sum_step(s.counts, i);
    if i > 0 {
        assert(s.counted((i - 1) + 1) < rank);
    }
}

/// The values in range are those from zero to the highest one asked for, and
/// each has a counter.
pub proof fn law_values_in_range_are_tracked(
    s: HistState,
    lowest: int,
    highest: int,
    figures: u32,
    v: int,
)
    requires
        is_new(s, lowest, highest, figures),
    ensures
        s.tracked_value(v) <==> 0 <= v <= highest,
        s.tracked_value(v) ==> 0 <= s.shape.index(v) < s.counts.len(),
{
    if s.tracked_value(v) {
        lemma_tracked_has_a_counter(s, v);
    }
}

/// Where there are values, some counter is used.
proof fn lemma_some_counter_is_used(s: HistState) -> (i: int)
    requires
        s.counters_ok(),
        s.total > 0,
    ensures
        s.used(i),
{
    if forall|i: int| 0 <= i < s.counts.len() ==> #[trigger] s.counts[i] == 0 {
        lemma_sum_zeros(s.counts);
    }
    choose|i: int| 0 <= i < s.counts.len() && #[trigger] s.counts[i] != 0
}

/// The counter of the least value.
proof fn lemma_first_used(s: HistState) -> (f: int)
    requires
        s.well_formed(),
        s.total > 0,
    ensures
        s.used(f),
        forall|i: int| 0 <= i < f ==> #[trigger] s.counts[i] == 0,
        s.min() == s.shape.value_at(f),
        s.shape.index(s.min()) == f,
        s.min() >= 0,
{
    lemma_counters_exist(s);
    lemma_index_of_zero(s.shape);
    lemma_value_at_index(s.shape, 0);
    if s.counts[0] > 0 {
        0
    } else {
        let u = lemma_some_counter_is_used(s);
        let m = s.shape.index(s.min_value);
        lemma_value_at_index(s.shape, s.min_value);
        lemma_step_bounds(s.shape, s.min_value);
        lemma_lowest_same_counter(s.shape, s.min_value);
        assert(s.counts[u] > 0);
        assert(m <= u);
        if s.min_value < i64::MAX {
            assert(s.used(m));
        } else {
            assert(u <= s.shape.index(s.max_value));
            lemma_index_monotone(s.shape, s.max_value, s.min_value);
            assert(u == m);
        }
        m
    }
}

/// The counter of the greatest value.
proof fn lemma_last_used(s: HistState) -> (m: int)
    requires
        s.well_formed(),
        s.total > 0,
    ensures
        s.used(m),
        forall|i: int| m < i < s.counts.len() ==> #[trigger] s.counts[i] == 0,
        s.max() == s.top_of(m),
{
    let m = s.shape.index(s.max_value);
    lemma_value_at_index(s.shape, s.max_value);
    lemma_lowest_same_counter(s.shape, s.max_value);
    if s.max_value == 0 {
        lemma_index_of_zero(s.shape);
        let u = lemma_some_counter_is_used(s);
        assert(s.counts[u] > 0);
    }
    assert(s.used(m));
    m
}

/// The least value is the least one of the first counter that is used.
pub proof fn law_minimum_is_the_first_used_counter(s: HistState, i: int)
    requires
        s.well_formed(),
        s.used(i),
        forall|j: int| 0 <= j < i ==> #[trigger] s.counts[j] == 0,
    ensures
        s.min() == s.shape.value_at(i),
{
    lemma_sum_bounds(s.counts, i);
    let f = lemma_first_used(s);
    assert(s.counts[f] > 0 && s.counts[i] > 0);
}

/// The greatest value is the greatest one of the last counter that is used.
pub proof fn law_maximum_is_the_last_used_counter(s: HistState, i: int)
    requires
        s.well_formed(),
        s.used(i),
        forall|j: int| i < j < s.counts.len() ==> #[trigger] s.counts[j] == 0,
    ensures
        s.max() == s.top_of(i),
{
    lemma_sum_bounds(s.counts, i);
    let m = lemma_last_used(s);
    assert(s.counts[m] > 0 && s.counts[i] > 0);
}

proof fn lemma_same_counts(a: HistState, b: HistState, n: int)
    requires
        a.shape == b.shape,
        a.counts == b.counts,
    ensures
        a.weighted(n) == b.weighted(n),
        a.used_upto(n) == b.used_upto(n),
    decreases n,
{
    if n > 0 {
        lemma_same_counts(a, b, n - 1);
    }
}

proof fn lemma_same_ranks(a: HistState, b: HistState, rank: int, i: int)
    requires
        a.counts == b.counts,
    ensures
        a.rank_index(rank, i) == b.rank_index(rank, i),
    decreases a.counts.len() - i,
{
    if i < a.counts.len() && a.counted(i + 1) < rank {
        lemma_same_ranks(a, b, rank, i + 1);
    }
}

proof fn lemma_same_ticks(a: HistState, b: HistState, k: nat, i: int)
    requires
        a.counts == b.counts,
        a.total == b.total,
    ensures
        a.tick_index(k, i) == b.tick_index(k, i),
    decreases a.counts.len() - i,
{
    if i < a.counts.len() && !a.reaches(k, i) {
        lemma_same_ticks(a, b, k, i + 1);
    }
}

/// Every figure is a function of the counters: two histograms of one shape
/// with the same counters read the same, whatever values were recorded.
pub proof fn law_figures_depend_on_the_counters_alone(a: HistState, b: HistState)
    requires
        a.well_formed(),
        b.well_formed(),
        a.shape == b.shape,
        a.counts == b.counts,
    ensures
        a.total == b.total,
        a.min() == b.min(),
        a.max() == b.max(),
        a.weighted(a.counts.len() as int) == b.weighted(b.counts.len() as int),
        a.used_upto(a.counts.len() as int) == b.used_upto(b.counts.len() as int),
        forall|rank: int| #[trigger] a.at_rank(rank) == b.at_rank(rank),
        forall|out: Seq<(Tick, i64)>| #[trigger]
            a.is_percentile_list(out) == b.is_percentile_list(out),
{
    lemma_same_counts(a, b, a.counts.len() as int);
    if a.total > 0 {
        let f = lemma_first_used(a);
        law_minimum_is_the_first_used_counter(b, f);
        let m = lemma_last_used(a);
        law_maximum_is_the_last_used_counter(b, m);
    } else {
        lemma_counters_exist(a);
        lemma_sum_bounds(a.counts, 0);
    }
    assert forall|rank: int| #[trigger] a.at_rank(rank) == b.at_rank(rank) by {
        lemma_same_ranks(a, b, if rank < 1 {
            1
        } else {
            rank
        }, 0);
    }
    assert forall|out: Seq<(Tick, i64)>| #[trigger]
        a.is_percentile_list(out) == b.is_percentile_list(out) by {
        if a.is_percentile_list(out) {
            lemma_list_carries_over(a, b, out);
        }
        if b.is_percentile_list(out) {
            lemma_list_carries_over(b, a, out);
        }
    }
}

proof fn lemma_list_carries_over(a: HistState, b: HistState, out: Seq<(Tick, i64)>)
    requires
        a.shape == b.shape,
        a.counts == b.counts,
        a.total == b.total,
        a.is_percentile_list(out),
    ensures
        b.is_percentile_list(out),
{
    if a.total != 0 {
        assert forall|k: int| 0 <= k < out.len() - 1 implies #[trigger] out[k] == (
            Tick::Halving(k as u32),
            b.top_of(b.tick_index(k as nat, 0)) as i64,
        ) by {
            lemma_same_ticks(a, b, k as nat, 0);
        }
        lemma_same_ticks(a, b, (out.len() - 2) as nat, 0);
        assert forall|k: int| 0 <= k < out.len() - 2 implies !#[trigger] b.is_last_tick(k as nat) by {
            lemma_same_ticks(a, b, k as nat, 0);
            assert(!a.is_last_tick(k as nat));
        }
    }
}

/// The first value is the least one, up to the width of its range.
pub proof fn law_first_rank_is_the_minimum(s: HistState)
    requires
        s.well_formed(),
        s.total > 0,
    ensures
        s.at_rank(1) == s.shape.highest(s.min()),
{
    let i = s.rank_index(1, 0);
    lemma_rank_reached(s, 1);
    lemma_rank_index(s, 1, 0);
    assert(s.counts.take(0) =~= Seq::empty());
    // nothing is counted before the first used counter
    assert forall|j: int| 0 <= j < i implies #[trigger] s.counts[j] == 0 by {
        assert(s.counted(j + 1) < 1);
        lemma_sum_step(s.counts, j);
        lemma_sum_monotone(s.counts, j, j + 1);
    }
    law_minimum_is_the_first_used_counter(s, i);
}

/// The first value is the least one, exactly, where the unit is one and the
/// least value lies in the first bucket.
pub proof fn law_first_rank_is_exact_in_the_first_bucket(s: HistState)
    requires
        s.well_formed(),
        s.total > 0,
        s.shape.unit == 0,
        s.min() < s.shape.span(),
    ensures
        s.at_rank(1) == s.min(),
{
    law_first_rank_is_the_minimum(s);
    let f = lemma_first_used(s);
    law_small_values_are_exact(s.shape, s.min());
}

/// The last value is the greatest one.
pub proof fn law_last_rank_is_the_maximum(s: HistState)
    requires
        s.well_formed(),
        s.total > 0,
    ensures
        s.at_rank(s.total) == s.max(),
{
    let i = s.rank_index(s.total, 0);
    lemma_rank_reached(s, s.total);
    lemma_rank_index(s, s.total, 0);
    lemma_all_counted_is_last(s, i);
}

/// The used counter up to which everything is counted is that of the greatest
/// value.
proof fn lemma_all_counted_is_last(s: HistState, i: int)
    requires
        s.well_formed(),
        s.used(i),
        s.counted(i + 1) >= s.total,
    ensures
        s.max() == s.top_of(i),
{
    assert forall|j: int| i < j < s.counts.len() implies #[trigger] s.counts[j] == 0 by {
        lemma_sum_monotone(s.counts, i + 1, j);
        lemma_sum_step(s.counts, j);
        lemma_sum_monotone(s.counts, j + 1, j + 1);
    }
    law_maximum_is_the_last_used_counter(s, i);
}

/// A greater rank has no lesser value.
pub proof fn law_percentiles_keep_the_order(s: HistState, a: int, b: int)
    requires
        s.well_formed(),
        1 <= a <= b <= s.total,
    ensures
        s.at_rank(a) <= s.at_rank(b),
{
    let i = s.rank_index(a, 0);
    let j = s.rank_index(b, 0);
    lemma_rank_reached(s, a);
    lemma_rank_reached(s, b);
    lemma_rank_index(s, a, 0);
    lemma_rank_index(s, b, 0);
    if j < i {
        assert(s.counted(j + 1) < a);
        assert(false);
    }
    lemma_top_monotone(s, i, j);
}

/// A later counter stands for no lesser values.
proof fn lemma_top_monotone(s: HistState, i: int, j: int)
    requires
        s.counters_ok(),
        0 <= i <= j < s.counts.len(),
    ensures
        s.top_of(i) <= s.top_of(j),
{
    lemma_shape_positive(s.shape);
    let b = s.buckets - 1;
    assert((s.buckets + 1) * s.shape.steps() == (b + 2) * s.shape.steps());
    lemma_index_value_at(s.shape, i, b);
    lemma_index_value_at(s.shape, j, b);
    let v = s.shape.value_at(i);
    let w = s.shape.value_at(j);
    lemma_step_bounds(s.shape, v);
    lemma_step_bounds(s.shape, w);
    if i < j {
        if w <= s.shape.highest(v) {
            if w >= v {
                crate::hdr::law_equivalent_values_share_a_counter(s.shape, v, w);
            } else {
                lemma_index_monotone(s.shape, w, v);
            }
            assert(false);
        }
    }
}

/// Every recorded value is counted once, in range or out of it.
pub proof fn law_every_value_is_counted(s: HistState, v: int, n: int)
    ensures
        s.noted(v, n).total + s.noted(v, n).exceeds == s.total + s.exceeds + n,
{
}

/// A value that was recorded is among those counted up to its counter.
pub proof fn law_recorded_values_are_found(s: HistState, v: int, n: int)
    requires
        s.well_formed(),
        s.tracked_value(v),
        0 < n,
        s.total + n <= u64::MAX,
    ensures
        s.recorded(v, n).counts[s.shape.index(v)] == s.counts[s.shape.index(v)] + n,
        forall|i: int|
            0 <= i < s.counts.len() && i != s.shape.index(v) ==> #[trigger] s.recorded(v, n).counts[i]
                == s.counts[i],
{
    lemma_tracked_has_a_counter(s, v);
    lemma_recorded_counters_ok(s, v, n);
}

/// A single recorded value is read back: the only rank and the maximum are the
/// greatest value that it cannot be told from, and the minimum is the least.
pub proof fn law_a_single_value_is_read_back(s: HistState, v: int)
    requires
        s.counters_ok(),
        s.tracked_value(v),
    ensures
        ({
            let t = s.emptied().recorded(v, 1);
            &&& t.total == 1
            &&& t.at_rank(1) == s.shape.highest(v)
            &&& t.max() == s.shape.highest(v)
            &&& t.min() == s.shape.lowest(v)
        }),
{
    let e = s.emptied();
    let t = e.recorded(v, 1);
    let i = s.shape.index(v);
    lemma_empty_ok(s);
    lemma_recorded_ok(e, v, 1);
    lemma_tracked_has_a_counter(s, v);
    lemma_value_at_index(s.shape, v);
    lemma_lowest_same_counter(s.shape, v);
    assert(t.counts[i] == 1);
    assert(t.used(i));
    law_minimum_is_the_first_used_counter(t, i);
    law_first_rank_is_the_minimum(t);
}

/// Whatever is added is counted once, in range or out of it.
pub proof fn law_add_counts_everything(s: HistState, other: HistState, n: int)
    requires
        0 <= n <= other.counts.len(),
    ensures
        s.added(other, n).total + s.added(other, n).exceeds == s.total + s.exceeds + other.counted(
            n,
        ),
    decreases n,
{
    if n == 0 {
        assert(other.counts.take(0) =~= Seq::empty());
    } else {
        law_add_counts_everything(s, other, n - 1);
        lemma_sum_step(other.counts, n - 1);
    }
}

/// A later counter stands for no lesser values, and the values of a used one
/// are in range.
proof fn lemma_used_is_tracked(s: HistState, i: int)
    requires
        s.well_formed(),
        s.used(i),
    ensures
        s.tracked_value(s.shape.value_at(i)),
        s.shape.index(s.shape.value_at(i)) == i,
{
    lemma_sum_bounds(s.counts, i);
    let b = s.buckets - 1;
    assert((s.buckets + 1) * s.shape.steps() == (b + 2) * s.shape.steps());
    lemma_index_value_at(s.shape, i, b);
    let m = s.max_value;
    assert(s.counts[i] > 0);
    lemma_value_at_index(s.shape, m);
    lemma_step_bounds(s.shape, m);
    let v = s.shape.value_at(i);
    if v > m {
        lemma_index_monotone(s.shape, m, v);
        // the two share a counter, of which v is the least value
        assert(v == s.shape.lowest(m));
    }
}

/// Adding a histogram of the same shape adds counter by counter, and nothing
/// is out of range. So a histogram added to an empty one is copied.
pub proof fn law_add_copies_the_counters(s: HistState, other: HistState, n: int)
    requires
        s.well_formed(),
        other.well_formed(),
        s.shape == other.shape,
        s.highest == other.highest,
        s.total + other.total <= u64::MAX,
        0 <= n <= other.counts.len(),
    ensures
        ({
            let t = s.added(other, n);
            &&& t.shape == s.shape
            &&& t.highest == s.highest
            &&& t.counts.len() == s.counts.len()
            &&& t.exceeds == s.exceeds
            &&& t.total == s.total + other.counted(n)
            &&& forall|i: int|
                0 <= i < s.counts.len() ==> #[trigger] t.counts[i] == s.counts[i] + if i < n {
                    other.counts[i] as int
                } else {
                    0
                }
        }),
    decreases n,
{
    if n == 0 {
        assert(other.counts.take(0) =~= Seq::empty());
    } else {
        law_add_copies_the_counters(s, other, n - 1);
        lemma_sum_step(other.counts, n - 1);
        lemma_sum_monotone(other.counts, n - 1, n);
        let t = s.added(other, n - 1);
        let v = other.shape.value_at(n - 1);
        let b = s.buckets - 1;
        assert((s.buckets + 1) * s.shape.steps() == (b + 2) * s.shape.steps());
        lemma_index_value_at(s.shape, n - 1, b);
        lemma_sum_bounds(s.counts, n - 1);
        lemma_sum_bounds(other.counts, n - 1);
        if other.counts[n - 1] > 0 {
            lemma_used_is_tracked(other, n - 1);
        }
        assert(t.highest == s.highest);
        let u = s.added(other, n);
        assert forall|i: int| 0 <= i < s.counts.len() implies #[trigger] u.counts[i] == s.counts[i]
            + if i < n {
            other.counts[i] as int
        } else {
            0
        } by {
            assert(t.counts[i] == s.counts[i] + if i < n - 1 {
                other.counts[i] as int
            } else {
                0
            });
        }
    }
}

proof fn lemma_added_ok(s: HistState, other: HistState, n: int)
    requires
        s.well_formed(),
        other.well_formed(),
        0 <= n <= other.counts.len(),
        s.added(other, n).fits(),
    ensures
        s.added(other, n).well_formed(),
    decreases n,
{
    if n > 0 {
        lemma_added_grows(s, other, n - 1, n);
        lemma_added_ok(s, other, n - 1);
        if other.counts[n - 1] > 0 && s.added(other, n - 1).tracked_value(
            other.shape.value_at(n - 1),
        ) {
            lemma_recorded_ok(
                s.added(other, n - 1),
                other.shape.value_at(n - 1),
                other.counts[n - 1] as int,
            );
        }
    }
}

/// The maximum after adding a histogram of the same range is the greater of
/// the two maxima, and either may be added to the other: the counters come
/// out the same.
pub proof fn law_add_takes_the_greater_maximum(s: HistState, other: HistState)
    requires
        s.well_formed(),
        other.well_formed(),
        s.shape == other.shape,
        s.highest == other.highest,
        s.total + other.total <= u64::MAX,
        s.fits(),
        other.fits(),
    ensures
        ({
            let t = s.added(other, other.counts.len() as int);
            &&& t.well_formed()
            &&& t.total == s.total + other.total
            &&& t.max() == if s.max() >= other.max() {
                s.max()
            } else {
                other.max()
            }
            &&& t.counts == other.added(s, s.counts.len() as int).counts
        }),
{
    let n = other.counts.len() as int;
    let t = s.added(other, n);
    let u = other.added(s, s.counts.len() as int);
    law_add_copies_the_counters(s, other, n);
    law_add_copies_the_counters(other, s, s.counts.len() as int);
    assert(other.counts.take(n) =~= other.counts);
    lemma_added_ok(s, other, n);
    assert(t.counts =~= u.counts) by {
        assert forall|i: int| 0 <= i < n implies t.counts[i] == u.counts[i] by {
            assert(t.counts[i] == s.counts[i] + other.counts[i]);
            assert(u.counts[i] == other.counts[i] + s.counts[i]);
        }
    }
    lemma_sum_monotone(s.counts, 0, 0);
    lemma_sum_monotone(other.counts, 0, 0);
    assert(s.counts.take(0) =~= Seq::empty());
    assert(other.counts.take(0) =~= Seq::empty());
    if s.total > 0 && other.total > 0 {
        let a = lemma_last_used(s);
        let b = lemma_last_used(other);
        let m = if a >= b {
            a
        } else {
            b
        };
        lemma_top_monotone(s, if a >= b {
            b
        } else {
            a
        }, m);
        assert(t.counts[m] == s.counts[m] + other.counts[m]);
        assert forall|j: int| m < j < t.counts.len() implies #[trigger] t.counts[j] == 0 by {
            assert(s.counts[j] == 0 && other.counts[j] == 0);
        }
        law_maximum_is_the_last_used_counter(t, m);
    } else if s.total > 0 {
        let a = lemma_last_used(s);
        assert forall|j: int| 0 <= j < n implies #[trigger] other.counts[j] == 0 by {
            lemma_sum_bounds(other.counts, j);
        }
        assert(t.counts[a] == s.counts[a] + other.counts[a]);
        assert forall|j: int| a < j < t.counts.len() implies #[trigger] t.counts[j] == 0 by {
            assert(s.counts[j] == 0 && other.counts[j] == 0);
        }
        law_maximum_is_the_last_used_counter(t, a);
        lemma_median_fits(s, a);
    } else if other.total > 0 {
        let b = lemma_last_used(other);
        assert forall|j: int| 0 <= j < n implies #[trigger] s.counts[j] == 0 by {
            lemma_sum_bounds(s.counts, j);
        }
        assert(t.counts[b] == s.counts[b] + other.counts[b]);
        assert forall|j: int| b < j < t.counts.len() implies #[trigger] t.counts[j] == 0 by {
            assert(s.counts[j] == 0 && other.counts[j] == 0);
        }
        law_maximum_is_the_last_used_counter(t, b);
        lemma_median_fits(other, b);
    }
}

// ---------------------------------------------------------------------------
// Laws over runs
// ---------------------------------------------------------------------------

impl HistState {
    /// The histogram after values were recorded, one after the other.
    pub open spec fn noted_all(self, vs: Seq<i64>) -> HistState
        decreases vs.len(),
    {
        if vs.len() == 0 {
            self
        } else {
            self.noted_all(vs.drop_last()).noted(vs.last() as int, 1)
        }
    }

    /// Those of the values that are in range, in order.
    pub open spec fn in_range(self, vs: Seq<i64>) -> Seq<i64>
        decreases vs.len(),
    {
        if vs.len() == 0 {
            vs
        } else if self.tracked_value(vs.last() as int) {
            self.in_range(vs.drop_last()).push(vs.last())
        } else {
            self.in_range(vs.drop_last())
        }
    }
}

/// Over a run of records every value is counted once: in the total where it is
/// in range, and as out of range where it is not. The values out of range
/// change nothing else: but for their number, the histogram is as if only the
/// others had been recorded.
pub proof fn law_runs_count_every_value(s: HistState, vs: Seq<i64>)
    ensures
        ({
            let t = s.noted_all(vs);
            let kept = s.in_range(vs);
            &&& t.total + t.exceeds == s.total + s.exceeds + vs.len()
            &&& t.total == s.total + kept.len()
            &&& t.exceeds == s.exceeds + (vs.len() - kept.len())
            &&& t == (HistState { exceeds: t.exceeds, ..s.noted_all(kept) })
            &&& t.min() == s.noted_all(kept).min()
            &&& t.max() == s.noted_all(kept).max()
            &&& t.highest == s.highest
            &&& t.shape == s.shape
        }),
    decreases vs.len(),
{
    if vs.len() > 0 {
        let before = vs.drop_last();
        law_runs_count_every_value(s, before);
        let v = vs.last();
        if s.tracked_value(v as int) {
            let kept = s.in_range(vs);
            assert(kept.drop_last() =~= s.in_range(before));
        }
    }
}

/// What is done to a histogram.
pub ghost enum HistOp {
    Record(i64),
    AddAll(HistState),
    Reset,
}

impl HistState {
    /// The histogram after one step.
    pub open spec fn applied(self, op: HistOp) -> HistState {
        match op {
            HistOp::Record(v) => self.noted(v as int, 1),
            HistOp::AddAll(other) => self.added(other, other.counts.len() as int),
            HistOp::Reset => self.emptied(),
        }
    }

    /// The histogram after some steps.
    pub open spec fn after(self, ops: Seq<HistOp>) -> HistState
        decreases ops.len(),
    {
        if ops.len() == 0 {
            self
        } else {
            self.after(ops.drop_last()).applied(ops.last())
        }
    }

    /// The steps can be taken: what is added is in order, and the counts fit
    /// after each.
    pub open spec fn can_take(self, ops: Seq<HistOp>) -> bool
        decreases ops.len(),
    {
        ops.len() == 0 || {
            &&& self.can_take(ops.drop_last())
            &&& self.after(ops).fits()
            &&& ops.last() matches HistOp::AddAll(other) ==> other.well_formed()
        }
    }
}

proof fn lemma_steps_ok(s: HistState, ops: Seq<HistOp>)
    requires
        s.well_formed(),
        s.can_take(ops),
    ensures
        s.after(ops).well_formed(),
        s.after(ops).shape == s.shape,
        s.after(ops).highest == s.highest,
    decreases ops.len(),
{
    if ops.len() > 0 {
        let t = s.after(ops.drop_last());
        lemma_steps_ok(s, ops.drop_last());
        match ops.last() {
            HistOp::Record(v) => {
                if t.tracked_value(v as int) {
                    lemma_recorded_ok(t, v as int, 1);
                }
            },
            HistOp::AddAll(other) => {
                lemma_added_grows(t, other, 0, other.counts.len() as int);
                lemma_added_ok(t, other, other.counts.len() as int);
            },
            HistOp::Reset => {
                lemma_empty_ok(t);
            },
        }
    }
}

proof fn lemma_added_keeps_maximum(s: HistState, other: HistState, n: int)
    requires
        0 <= n <= other.counts.len(),
    ensures
        s.added(other, n).max_value >= s.max_value,
        s.added(other, n).total >= s.total,
    decreases n,
{
    if n > 0 {
        lemma_added_keeps_maximum(s, other, n - 1);
    }
}

/// The greatest value recorded at step `i` or later is at least that of step
/// `i`, as long as nothing is reset.
proof fn lemma_maximum_stays(s: HistState, ops: Seq<HistOp>, i: int, v: i64)
    requires
        s.well_formed(),
        s.can_take(ops),
        0 <= i < ops.len(),
        ops[i] == HistOp::Record(v),
        s.tracked_value(v as int),
        forall|j: int| i < j < ops.len() ==> !(#[trigger] ops[j] is Reset),
    ensures
        s.after(ops).max_value >= v,
        s.after(ops).total > 0,
    decreases ops.len(),
{
    let t = s.after(ops.drop_last());
    lemma_steps_ok(s, ops.drop_last());
    lemma_sum_monotone(t.counts, 0, 0);
    if i < ops.len() - 1 {
        assert(ops.drop_last()[i] == ops[i]);
        assert forall|j: int| i < j < ops.drop_last().len() implies !(
        #[trigger] ops.drop_last()[j] is Reset) by {
            assert(!(ops[j] is Reset));
        }
        lemma_maximum_stays(s, ops.drop_last(), i, v);
        assert(!(ops[ops.len() - 1] is Reset));
        if let HistOp::AddAll(other) = ops.last() {
            lemma_added_keeps_maximum(t, other, other.counts.len() as int);
        }
    } else {
        assert(t.counts.take(0) =~= Seq::empty());
    }
}

/// Whatever is recorded and added, the maximum is the value of the last rank,
/// and it is at least every value in range that was recorded since the last
/// reset.
pub proof fn law_maximum_covers_every_value(s: HistState, ops: Seq<HistOp>, i: int, v: i64)
    requires
        s.well_formed(),
        s.can_take(ops),
        0 <= i < ops.len(),
        ops[i] == HistOp::Record(v),
        s.tracked_value(v as int),
        forall|j: int| i < j < ops.len() ==> !(#[trigger] ops[j] is Reset),
    ensures
        ({
            let t = s.after(ops);
            &&& t.well_formed()
            &&& t.max() == t.at_rank(t.total)
            &&& t.max() >= v
        }),
{
    let t = s.after(ops);
    lemma_steps_ok(s, ops);
    lemma_maximum_stays(s, ops, i, v);
    law_last_rank_is_the_maximum(t);
    lemma_step_bounds(t.shape, t.max_value);
}

impl HistState {
    /// The value, or one below it, was recorded.
    pub open spec fn reaches_down_to(self, v: int) -> bool {
        self.counts[0] > 0 || (self.total > 0 && self.min_value <= v)
    }
}

proof fn lemma_recorded_keeps_minimum(s: HistState, v: int, n: int, w: int)
    requires
        s.well_formed(),
        0 < n,
        s.noted(v, n).fits(),
        s.reaches_down_to(w),
    ensures
        s.noted(v, n).reaches_down_to(w),
{
    if s.tracked_value(v) {
        lemma_tracked_has_a_counter(s, v);
        lemma_recorded_counters_ok(s, v, n);
    }
}

proof fn lemma_added_keeps_minimum(s: HistState, other: HistState, n: int, w: int)
    requires
        s.well_formed(),
        other.well_formed(),
        0 <= n <= other.counts.len(),
        s.added(other, n).fits(),
        s.reaches_down_to(w),
    ensures
        s.added(other, n).reaches_down_to(w),
    decreases n,
{
    if n > 0 {
        lemma_added_grows(s, other, n - 1, n);
        lemma_added_keeps_minimum(s, other, n - 1, w);
        lemma_added_ok(s, other, n - 1);
        if other.counts[n - 1] > 0 {
            lemma_recorded_keeps_minimum(
                s.added(other, n - 1),
                other.shape.value_at(n - 1),
                other.counts[n - 1] as int,
                w,
            );
        }
    }
}

/// The least value recorded at step `i` or later is at most that of step `i`,
/// as long as nothing is reset.
proof fn lemma_minimum_stays(s: HistState, ops: Seq<HistOp>, i: int, v: i64)
    requires
        s.well_formed(),
        s.can_take(ops),
        0 <= i < ops.len(),
        ops[i] == HistOp::Record(v),
        s.tracked_value(v as int),
        forall|j: int| i < j < ops.len() ==> !(#[trigger] ops[j] is Reset),
    ensures
        s.after(ops).reaches_down_to(v as int),
    decreases ops.len(),
{
    let t = s.after(ops.drop_last());
    lemma_steps_ok(s, ops.drop_last());
    if i < ops.len() - 1 {
        assert(ops.drop_last()[i] == ops[i]);
        assert forall|j: int| i < j < ops.drop_last().len() implies !(
        #[trigger] ops.drop_last()[j] is Reset) by {
            assert(!(ops[j] is Reset));
        }
        lemma_minimum_stays(s, ops.drop_last(), i, v);
        assert(!(ops[ops.len() - 1] is Reset));
        match ops.last() {
            HistOp::Record(w) => lemma_recorded_keeps_minimum(t, w as int, 1, v as int),
            HistOp::AddAll(other) => lemma_added_keeps_minimum(
                t,
                other,
                other.counts.len() as int,
                v as int,
            ),
            HistOp::Reset => {},
        }
    } else {
        lemma_tracked_has_a_counter(t, v as int);
        lemma_recorded_counters_ok(t, v as int, 1);
        lemma_sum_bounds(t.counts, t.shape.index(v as int));
        if v == 0 {
            lemma_index_of_zero(t.shape);
        }
    }
}

/// Whatever is recorded and added, the minimum is at most every value in range
/// that was recorded since the last reset.
pub proof fn law_minimum_is_under_every_value(s: HistState, ops: Seq<HistOp>, i: int, v: i64)
    requires
        s.well_formed(),
        s.can_take(ops),
        0 <= i < ops.len(),
        ops[i] == HistOp::Record(v),
        s.tracked_value(v as int),
        forall|j: int| i < j < ops.len() ==> !(#[trigger] ops[j] is Reset),
    ensures
        s.after(ops).min() <= v,
{
    let t = s.after(ops);
    lemma_steps_ok(s, ops);
    lemma_minimum_stays(s, ops, i, v);
    lemma_step_bounds(t.shape, t.min_value);
}

// ---------------------------------------------------------------------------
// The list of percentiles, as a whole
// ---------------------------------------------------------------------------

impl Tick {
    /// A lesser percentage: less of the way to everything is left to the
    /// other.
    pub open spec fn below(self, other: Tick) -> bool {
        match (self, other) {
            (Tick::Halving(j), Tick::Halving(k)) => pow2(j as nat) < pow2(k as nat),
            (Tick::Halving(_), Tick::Full) => true,
            _ => false,
        }
    }
}

/// A later tick is reached at no earlier counter.
proof fn lemma_tick_index_monotone(s: HistState, j: nat, k: nat)
    requires
        s.counters_ok(),
        s.total > 0,
        j <= k,
    ensures
        0 <= s.tick_index(j, 0) <= s.tick_index(k, 0) < s.counts.len(),
    decreases k - j,
{
    assert(s.counts.take(0) =~= Seq::empty());
    lemma_some_counter_reaches(s, k, 0);
    lemma_tick_index(s, j, 0);
    lemma_tick_index(s, k, 0);
    if j < k {
        let i = s.tick_index(k, 0);
        lemma_ticks_ordered(s, (k - 1) as nat, i);
        lemma_tick_index_monotone(s, j, (k - 1) as nat);
        lemma_tick_index(s, (k - 1) as nat, 0);
        if i < s.tick_index((k - 1) as nat, 0) {
            assert(!s.reaches((k - 1) as nat, i));
        }
    }
}

/// After 64 halvings less than one value is left.
proof fn lemma_ticks_end(s: HistState)
    requires
        s.counters_ok(),
        0 < s.total <= u64::MAX,
    ensures
        s.is_last_tick(64),
{
    assert(s.counts.take(0) =~= Seq::empty());
    lemma_some_counter_reaches(s, 64, 0);
    lemma_tick_index(s, 64, 0);
    let i = s.tick_index(64, 0);
    lemma_sum_monotone(s.counts, i + 1, i + 1);
    lemma2_to64();
    lemma2_to64_rest();
    let p = pow2(64) as int;
    let r = s.total - s.counted(i + 1);
    if r >= 1 {
        assert(p * r >= p) by (nonlinear_arith)
            requires
                r >= 1,
                p >= 0,
        ;
    }
}

/// In the list of percentiles the percentages increase strictly, from zero to
/// a single one for everything; the values never decrease; and the last value
/// is the maximum.
pub proof fn law_percentile_list_is_ordered(s: HistState, out: Seq<(Tick, i64)>)
    requires
        s.well_formed(),
        s.fits(),
        s.total > 0,
        s.is_percentile_list(out),
    ensures
        out.len() >= 2,
        out[0].0 == Tick::Halving(0),
        out.last().0 == Tick::Full,
        forall|i: int, j: int|
            0 <= i < j < out.len() ==> (#[trigger] out[i]).0.below((#[trigger] out[j]).0),
        forall|i: int, j: int|
            0 <= i <= j < out.len() ==> (#[trigger] out[i]).1 <= (#[trigger] out[j]).1,
        out.last().1 == s.max(),
{
    let n = out.len() as int;
    lemma_ticks_end(s);
    if n - 2 > 64 {
        assert(!s.is_last_tick(64int as nat));
    }
    assert forall|i: int, j: int| 0 <= i < j < n implies (#[trigger] out[i]).0.below(
        (#[trigger] out[j]).0,
    ) by {
        if j < n - 1 {
            lemma_pow2_strictly_increases(i as nat, j as nat);
        }
    }
    assert forall|i: int, j: int| 0 <= i <= j < n implies (#[trigger] out[i]).1 <= (
    #[trigger] out[j]).1 by {
        let a = (if i < n - 1 {
            i
        } else {
            n - 2
        }) as nat;
        let b = (if j < n - 1 {
            j
        } else {
            n - 2
        }) as nat;
        lemma_tick_index_monotone(s, a, b);
        lemma_top_monotone(s, s.tick_index(a, 0), s.tick_index(b, 0));
        lemma_median_fits(s, s.tick_index(a, 0));
        lemma_median_fits(s, s.tick_index(b, 0));
    }
    let k = (n - 2) as nat;
    lemma_tick_index_monotone(s, k, k);
    lemma_tick_index(s, k, 0);
    lemma_all_counted_is_last(s, s.tick_index(k, 0));
    lemma_median_fits(s, s.tick_index(k, 0));
}

/// A histogram that was reset reads as a new one.
pub proof fn law_reset_restores_the_empty_state(s: HistState)
    requires
        s.counters_ok(),
    ensures
        s.emptied().min() == i64::MAX,
        s.emptied().max() == 0,
        s.emptied().total == 0,
        s.emptied().exceeds == 0,
        s.emptied().emptied() == s.emptied(),
        s.emptied().is_percentile_list(Seq::empty()),
{
    lemma_counters_exist(s);
    assert(s.emptied().counts =~= s.emptied().emptied().counts);
}

/// The value at a rank is that of the counter at which so many values have been
/// counted and not before. A rank below 1 is the first, and one above all
/// values has none.
pub proof fn law_ranks_count_the_values(s: HistState, rank: int)
    requires
        s.well_formed(),
    ensures
        rank < 1 ==> s.at_rank(rank) == s.at_rank(1),
        rank >= 1 && rank > s.total ==> s.at_rank(rank) == 0,
        1 <= rank <= s.total ==> exists|i: int|
            #![trigger s.top_of(i)]
            s.used(i) && s.counted(i) < rank <= s.counted(i + 1) && s.at_rank(rank) == s.top_of(i),
{
    let n = s.counts.len() as int;
    assert(s.counts.take(n) =~= s.counts);
    assert(s.counts.take(0) =~= Seq::empty());
    if rank >= 1 {
        lemma_rank_index(s, rank, 0);
        let i = s.rank_index(rank, 0);
        if rank > s.total && i < n {
            lemma_sum_monotone(s.counts, i + 1, n);
        }
        if rank <= s.total {
            lemma_rank_reached(s, rank);
            if i > 0 {
                assert(s.counted((i - 1) + 1) < rank);
            }
            assert(s.used(i) && s.at_rank(rank) == s.top_of(i));
        }
    }
}

proof fn lemma_recorded_weighs(s: HistState, v: int, n: int, m: int)
    requires
        s.well_formed(),
        s.tracked_value(v),
        0 < n,
        s.total + n <= u64::MAX,
        0 <= m <= s.counts.len(),
    ensures
        s.recorded(v, n).weighted(m) == s.weighted(m) + if s.shape.index(v) < m {
            n * s.shape.median(v)
        } else {
            0
        },
    decreases m,
{
    lemma_tracked_has_a_counter(s, v);
    if m > 0 {
        lemma_recorded_weighs(s, v, n, m - 1);
        law_recorded_values_are_found(s, v, n);
        let t = s.recorded(v, n);
        let i = s.shape.index(v);
        if m - 1 == i {
            lemma_value_at_index(s.shape, v);
            lemma_lowest_same_counter(s.shape, v);
            let c = s.counts[i] as int;
            let d = s.shape.median(s.shape.value_at(i));
            assert(d == s.shape.median(v));
            assert((c + n) * d == c * d + n * d) by (nonlinear_arith);
            assert(t.counts[i] * d == (c + n) * d);
        } else {
            assert(t.counts[m - 1] == s.counts[m - 1]);
        }
    }
}

/// A recorded value adds the median of its counter to the sum that the mean is
/// made of, as often as it is recorded. An empty histogram has the sum 0.
pub proof fn law_recorded_values_add_to_the_mean(s: HistState, v: int, n: int)
    requires
        s.well_formed(),
        s.tracked_value(v),
        0 < n,
        s.total + n <= u64::MAX,
    ensures
        ({
            let t = s.recorded(v, n);
            let len = s.counts.len() as int;
            &&& t.weighted(len) == s.weighted(len) + n * s.shape.median(v)
            &&& s.emptied().weighted(len) == 0
        }),
{
    lemma_tracked_has_a_counter(s, v);
    lemma_recorded_weighs(s, v, n, s.counts.len() as int);
    lemma_empty_weighs_nothing(s.emptied(), s.counts.len() as int);
}

proof fn lemma_empty_weighs_nothing(s: HistState, m: int)
    requires
        0 <= m <= s.counts.len(),
        forall|i: int| 0 <= i < s.counts.len() ==> #[trigger] s.counts[i] == 0,
    ensures
        s.weighted(m) == 0,
        s.used_upto(m).len() == 0,
    decreases m,
{
    if m > 0 {
        lemma_empty_weighs_nothing(s, m - 1);
        let d = s.shape.median(s.shape.value_at(m - 1));
        assert(s.counts[m - 1] == 0);
        assert(0 * d == 0);
    }
}

/// The counters that the deviation is made of are those that are used, each
/// with its count and its median, and no other.
pub proof fn law_used_counters_are_listed(s: HistState, n: int, i: int, c: u64, m: i64)
    requires
        0 <= n <= s.counts.len(),
    ensures
        0 <= i < n && s.counts[i] > 0 ==> s.used_upto(n).contains(
            (s.counts[i], s.shape.median(s.shape.value_at(i)) as i64),
        ),
        s.used_upto(n).contains((c, m)) ==> c > 0 && exists|j: int|
            0 <= j < n && #[trigger] s.counts[j] == c && m == s.shape.median(
                s.shape.value_at(j),
            ) as i64,
        s.used_upto(n).len() <= n,
    decreases n,
{
    if n > 0 {
        law_used_counters_are_listed(s, n - 1, i, c, m);
        let prev = s.used_upto(n - 1);
        let now = s.used_upto(n);
        if 0 <= i < n - 1 && s.counts[i] > 0 {
            let e = (s.counts[i], s.shape.median(s.shape.value_at(i)) as i64);
            let k = choose|k: int| 0 <= k < prev.len() && prev[k] == e;
            assert(now[k] == e);
        }
        if i == n - 1 && s.counts[i] > 0 {
            assert(now.last() == (s.counts[i], s.shape.median(s.shape.value_at(i)) as i64));
        }
        if now.contains((c, m)) {
            let k = choose|k: int| 0 <= k < now.len() && now[k] == (c, m);
            if k < prev.len() {
                assert(prev[k] == (c, m));
                assert(prev.contains((c, m)));
                let j = choose|j: int|
                    0 <= j < n - 1 && #[trigger] s.counts[j] == c && m == s.shape.median(
                        s.shape.value_at(j),
                    ) as i64;
                assert(s.counts[j] == c);
            } else {
                assert(s.counts[n - 1] == c);
            }
        }
    }
}

/// The list of percentiles halves what is above with each tick: at the value
/// of the tick `k` at most the `2^k`-th part of all values is greater, and at
/// every smaller value that was recorded more than that.
pub proof fn law_ticks_halve_what_is_above(s: HistState, k: nat, j: int)
    requires
        s.counters_ok(),
        s.total > 0,
    ensures
        ({
            let i = s.tick_index(k, 0);
            &&& 0 <= i < s.counts.len()
            &&& s.counts[i] > 0
            &&& pow2(k) * (s.total - s.counted(i + 1)) <= s.total
            &&& 0 <= j < i && s.counts[j] > 0 ==> pow2(k) * (s.total - s.counted(j + 1)) > s.total
            &&& s.is_last_tick(k) <==> s.counted(i + 1) == s.total
        }),
{
    lemma_tick_index_monotone(s, k, k);
    lemma_tick_index(s, k, 0);
    let i = s.tick_index(k, 0);
    if 0 <= j < i {
        assert(!s.reaches(k, j));
    }
}

/// A recorded value is the greatest where it is greater than all before, and
/// the least other than zero where it is less than all before.
pub proof fn law_extremes_follow_the_values(s: HistState, v: int, n: int)
    ensures
        ({
            let t = s.recorded(v, n);
            &&& t.max_value >= v && t.max_value >= s.max_value
            &&& t.max_value == v || t.max_value == s.max_value
            &&& v > 0 ==> t.min_value <= v && t.min_value <= s.min_value
            &&& v > 0 ==> t.min_value == v || t.min_value == s.min_value
            &&& v == 0 ==> t.min_value == s.min_value
            &&& t.total == s.total + n
            &&& t.exceeds == s.exceeds
        }),
{
}

/// A value out of range is counted as such, and leaves everything else.
pub proof fn law_values_out_of_range_exceed(s: HistState, v: int, n: int)
    requires
        v < 0 || v > s.highest,
    ensures
        s.noted(v, n).exceeds == s.exceeds + n,
        s.noted(v, n) == (HistState { exceeds: s.exceeds + n, ..s }),
{
}

/// A reset takes all values out and leaves the settings: the range, the
/// precision, whether it is enabled, and the map that was handed out.
pub proof fn law_reset_keeps_the_settings(s: HistState, i: int)
    requires
        0 <= i < s.counts.len(),
    ensures
        ({
            let t = s.emptied();
            &&& t.counts.len() == s.counts.len()
            &&& t.counts[i] == 0
            &&& t.shape == s.shape && t.highest == s.highest && t.buckets == s.buckets
            &&& t.kind == s.kind && t.enabled == s.enabled && t.map_bits == s.map_bits
            &&& t.prev_delta == s.prev_delta
        }),
{
}

} // verus!
