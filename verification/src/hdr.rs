//! Buckets of a high-dynamic-range histogram.
//!
//! Values share a counter when they agree in their leading digits. The first
//! bucket counts values in steps of one unit; every further bucket covers as
//! many values as all before it together, in steps twice as wide.

use vstd::prelude::*;
use vstd::arithmetic::div_mod::*;
use vstd::arithmetic::mul::*;
use vstd::arithmetic::power2::*;
use vstd::bits::*;

verus! {

/// The two powers of two that fix the buckets: the unit is `2^unit`, and a
/// bucket has `2^half` steps of its own.
#[derive(Clone, Copy, PartialEq, Eq, Structural, Debug)]
pub struct Shape {
    pub unit: u32,
    pub half: u32,
}

impl Shape {
    /// The first bucket ends within 63 bits.
    pub open spec fn well_formed(self) -> bool {
        self.unit + self.half <= 61
    }

    /// Steps of a bucket of its own.
    pub open spec fn steps(self) -> int {
        pow2(self.half as nat) as int
    }

    /// The first value beyond the first bucket.
    pub open spec fn span(self) -> int {
        pow2((self.unit + self.half + 1) as nat) as int
    }

    /// The bucket of a value: how often it has to be halved to fall into the
    /// first one.
    pub open spec fn bucket(self, v: int) -> int
        decreases v,
    {
        if v < self.span() || v <= 0 {
            0
        } else {
            1 + self.bucket(v / 2)
        }
    }

    /// The width of a step of the value's bucket.
    pub open spec fn width(self, v: int) -> int {
        pow2((self.unit + self.bucket(v)) as nat) as int
    }

    /// The value in steps of its bucket.
    pub open spec fn step(self, v: int) -> int {
        v / self.width(v)
    }

    /// The number of the value's counter.
    pub open spec fn index(self, v: int) -> int {
        self.bucket(v) * self.steps() + self.step(v)
    }

    /// The least value with the same counter.
    pub open spec fn lowest(self, v: int) -> int {
        self.step(v) * self.width(v)
    }

    /// The greatest value with the same counter.
    pub open spec fn highest(self, v: int) -> int {
        self.lowest(v) + self.width(v) - 1
    }

    /// The middle of the values with the same counter.
    pub open spec fn median(self, v: int) -> int {
        self.lowest(v) + self.width(v) / 2
    }

    /// The bucket that a counter belongs to.
    pub open spec fn bucket_at(self, i: int) -> int {
        if i < self.steps() {
            0
        } else {
            i / self.steps() - 1
        }
    }

    /// The least value of a counter.
    pub open spec fn value_at(self, i: int) -> int {
        (i - self.bucket_at(i) * self.steps()) * pow2((self.unit + self.bucket_at(i)) as nat)
    }
}

/// Two to the power of `k`.
fn pow2_of(k: u32) -> (r: u64)
    requires
        k <= 63,
    ensures
        r == pow2(k as nat),
{
    proof {
        lemma_u64_pow2_no_overflow(k as nat);
        lemma_u64_shl_is_mul(1, k as u64);
    }
    1u64 << (k as u64)
}

pub proof fn lemma_shape_positive(s: Shape)
    ensures
        s.steps() >= 1,
        s.span() >= 2,
        s.span() == 2 * s.steps() * pow2(s.unit as nat),
{
    lemma_pow2_pos(s.half as nat);
    lemma_pow2_pos(s.unit as nat);
    lemma_pow2_pos((s.unit + s.half) as nat);
    lemma_pow2_unfold((s.unit + s.half + 1) as nat);
    lemma_pow2_adds(s.unit as nat, s.half as nat);
    let a = pow2(s.unit as nat) as int;
    let b = pow2(s.half as nat) as int;
    assert(2 * (a * b) == 2 * b * a) by (nonlinear_arith);
}

/// Where a bucket starts and ends.
pub proof fn lemma_bucket_bounds(s: Shape, v: int)
    requires
        0 <= v,
    ensures
        s.bucket(v) >= 0,
        v < s.span() * pow2(s.bucket(v) as nat),
        s.bucket(v) > 0 ==> s.span() * pow2((s.bucket(v) - 1) as nat) <= v,
        s.bucket(v) == 0 <==> v < s.span(),
    decreases v,
{
    lemma_shape_positive(s);
    lemma2_to64();
    if v >= s.span() {
        let b = s.bucket(v);
        let w = v / 2;
        lemma_bucket_bounds(s, w);
        lemma_pow2_unfold(b as nat);
        let p = pow2((b - 1) as nat) as int;
        let n = s.span();
        assert(n * (2 * p) == 2 * (n * p)) by (nonlinear_arith);
        if b == 1 {
            assert(s.span() * pow2(0) == s.span());
        } else {
            lemma_pow2_unfold((b - 1) as nat);
            let q = pow2((b - 2) as nat) as int;
            assert(n * (2 * q) == 2 * (n * q)) by (nonlinear_arith);
        }
    }
}

/// Between its start and its end a bucket's number is fixed.
pub proof fn lemma_bucket_is(s: Shape, v: int, b: int)
    requires
        0 <= v,
        0 <= b,
        v < s.span() * pow2(b as nat),
        b > 0 ==> s.span() * pow2((b - 1) as nat) <= v,
    ensures
        s.bucket(v) == b,
{
    lemma_bucket_bounds(s, v);
    lemma_shape_positive(s);
    let c = s.bucket(v);
    let n = s.span();
    if c < b {
        let p = pow2(c as nat) as int;
        let q = pow2((b - 1) as nat) as int;
        if c < b - 1 {
            lemma_pow2_strictly_increases(c as nat, (b - 1) as nat);
        }
        assert(n * p <= n * q) by (nonlinear_arith)
            requires
                p <= q,
                n >= 0,
        ;
    }
    if c > b {
        let p = pow2(b as nat) as int;
        let q = pow2((c - 1) as nat) as int;
        if b < c - 1 {
            lemma_pow2_strictly_increases(b as nat, (c - 1) as nat);
        }
        assert(n * p <= n * q) by (nonlinear_arith)
            requires
                p <= q,
                n >= 0,
        ;
    }
}

/// A greater value is in no lesser bucket.
pub proof fn lemma_bucket_monotone(s: Shape, v: int, w: int)
    requires
        0 <= v <= w,
    ensures
        s.bucket(v) <= s.bucket(w),
    decreases w,
{
    lemma_shape_positive(s);
    lemma_bucket_bounds(s, v);
    if v >= s.span() {
        lemma_bucket_monotone(s, v / 2, w / 2);
    } else {
        lemma_bucket_bounds(s, w);
    }
}

/// The end of a bucket in steps of that bucket.
proof fn lemma_bucket_end(s: Shape, b: int)
    requires
        0 <= b,
    ensures
        s.span() * pow2(b as nat) == 2 * s.steps() * pow2((s.unit + b) as nat),
        s.span() * pow2(b as nat) == pow2((s.unit + s.half + 1 + b) as nat),
{
    lemma_shape_positive(s);
    lemma_pow2_adds((s.unit + s.half + 1) as nat, b as nat);
    lemma_pow2_adds(s.unit as nat, b as nat);
    let h = s.steps();
    let u = pow2(s.unit as nat) as int;
    let p = pow2(b as nat) as int;
    assert(2 * h * u * p == 2 * h * (u * p)) by (nonlinear_arith);
}

/// The step of a value lies within the bucket: below twice the number of
/// steps, and beyond the first bucket not below that number.
pub proof fn lemma_step_bounds(s: Shape, v: int)
    requires
        0 <= v,
    ensures
        s.width(v) >= 1,
        0 <= s.step(v) < 2 * s.steps(),
        s.bucket(v) > 0 ==> s.steps() <= s.step(v),
        0 <= s.lowest(v) <= v < s.lowest(v) + s.width(v),
        s.lowest(v) + s.width(v) <= s.span() * pow2(s.bucket(v) as nat),
{
    let b = s.bucket(v);
    lemma_bucket_bounds(s, v);
    lemma_shape_positive(s);
    lemma_bucket_end(s, b);
    lemma_pow2_pos((s.unit + b) as nat);
    let w = s.width(v);
    let n = 2 * s.steps();
    let q = s.step(v);
    lemma_fundamental_div_mod(v, w);
    lemma_mod_bound(v, w);
    assert(w * q == q * w) by (nonlinear_arith);
    assert(q >= 0) by {
        lemma_div_pos_is_pos(v, w);
    }
    assert(q < n) by (nonlinear_arith)
        requires
            q * w <= v,
            v < n * w,
            w >= 1,
    ;
    assert(q * w >= 0) by (nonlinear_arith)
        requires
            q >= 0,
            w >= 1,
    ;
    assert((q + 1) * w <= n * w) by (nonlinear_arith)
        requires
            q + 1 <= n,
            w >= 1,
    ;
    assert((q + 1) * w == q * w + w) by (nonlinear_arith);
    if b > 0 {
        lemma_bucket_end(s, b - 1);
        lemma_pow2_unfold((s.unit + b) as nat);
        let p = pow2((s.unit + b - 1) as nat) as int;
        assert(2 * s.steps() * p == s.steps() * w) by (nonlinear_arith)
            requires
                w == 2 * p,
        ;
        let h = s.steps();
        assert(h <= q) by (nonlinear_arith)
            requires
                h * w <= v,
                v < q * w + w,
                w >= 1,
        ;
    }
}

/// The least value of a value's counter is the least value with that counter.
pub proof fn lemma_value_at_index(s: Shape, v: int)
    requires
        0 <= v,
    ensures
        s.value_at(s.index(v)) == s.lowest(v),
        s.bucket_at(s.index(v)) == s.bucket(v),
        s.index(v) >= 0,
{
    lemma_shape_positive(s);
    lemma_step_bounds(s, v);
    lemma_bucket_bounds(s, v);
    let b = s.bucket(v);
    let h = s.steps();
    let q = s.step(v);
    let i = s.index(v);
    assert(b * h >= 0) by (nonlinear_arith)
        requires
            b >= 0,
            h >= 1,
    ;
    if b > 0 {
        assert(b * h >= h) by (nonlinear_arith)
            requires
                b >= 1,
                h >= 1,
        ;
    }
    if i >= h {
        // the counter is q - h steps into the block after the bucket's start
        assert(i == h * (b + 1) + (q - h)) by (nonlinear_arith)
            requires
                i == b * h + q,
        ;
        if b == 0 {
            assert(i == q);
            assert(i == h * 1 + (q - h));
            lemma_fundamental_div_mod_converse(i, h, 1, q - h);
        } else {
            lemma_fundamental_div_mod_converse(i, h, b + 1, q - h);
        }
    }
}

/// All values with one counter have the same least value, and it has the same
/// counter.
pub proof fn lemma_lowest_same_counter(s: Shape, v: int)
    requires
        0 <= v,
    ensures
        s.bucket(s.lowest(v)) == s.bucket(v),
        s.width(s.lowest(v)) == s.width(v),
        s.index(s.lowest(v)) == s.index(v),
        s.lowest(s.lowest(v)) == s.lowest(v),
        s.highest(s.lowest(v)) == s.highest(v),
        s.median(s.lowest(v)) == s.median(v),
{
    lemma_shape_positive(s);
    lemma_step_bounds(s, v);
    lemma_bucket_bounds(s, v);
    let b = s.bucket(v);
    let w = s.width(v);
    let q = s.step(v);
    let l = s.lowest(v);
    if b > 0 {
        lemma_bucket_end(s, b - 1);
        lemma_pow2_unfold((s.unit + b) as nat);
        let p = pow2((s.unit + b - 1) as nat) as int;
        let h = s.steps();
        assert(2 * h * p <= q * w) by (nonlinear_arith)
            requires
                w == 2 * p,
                h <= q,
                w >= 1,
        ;
    }
    lemma_bucket_is(s, l, b);
    lemma_div_multiples_vanish(q, w);
    assert(w * q == q * w) by (nonlinear_arith);
}

/// A greater value has no lesser counter.
pub proof fn lemma_index_monotone(s: Shape, v: int, w: int)
    requires
        0 <= v <= w,
    ensures
        s.index(v) <= s.index(w),
{
    lemma_shape_positive(s);
    lemma_step_bounds(s, v);
    lemma_step_bounds(s, w);
    lemma_bucket_bounds(s, v);
    lemma_bucket_monotone(s, v, w);
    let b = s.bucket(v);
    let c = s.bucket(w);
    let h = s.steps();
    if b == c {
        lemma_div_is_ordered(v, w, s.width(v));
    } else {
        assert(b * h + 2 * h <= c * h + h) by (nonlinear_arith)
            requires
                b + 1 <= c,
                h >= 1,
        ;
    }
}

/// A counter up to the end of bucket `b` is the counter of its least value,
/// and that value is below the end.
pub proof fn lemma_index_value_at(s: Shape, i: int, b: int)
    requires
        0 <= b,
        0 <= i < (b + 2) * s.steps(),
    ensures
        0 <= s.bucket_at(i) <= b,
        s.value_at(i) >= 0,
        s.value_at(i) < s.span() * pow2(b as nat),
        s.index(s.value_at(i)) == i,
        s.bucket(s.value_at(i)) == s.bucket_at(i),
        s.lowest(s.value_at(i)) == s.value_at(i),
        0 <= i - s.bucket_at(i) * s.steps() < 2 * s.steps(),
{
    lemma_shape_positive(s);
    let h = s.steps();
    let c = s.bucket_at(i);
    let q = i - c * h;
    if i < h {
        assert(c * h == 0);
    } else {
        lemma_fundamental_div_mod(i, h);
        lemma_mod_bound(i, h);
        assert(c * h + h == h * (i / h)) by (nonlinear_arith)
            requires
                c == i / h - 1,
        ;
        assert(i / h >= 1) by (nonlinear_arith)
            requires
                i == h * (i / h) + i % h,
                i % h < h,
                i >= h,
                h >= 1,
        ;
        assert(i / h < b + 2) by (nonlinear_arith)
            requires
                i == h * (i / h) + i % h,
                i % h >= 0,
                i < (b + 2) * h,
                h >= 1,
        ;
        assert(h <= q < 2 * h);
    }
    let p = pow2((s.unit + c) as nat) as int;
    lemma_pow2_pos((s.unit + c) as nat);
    lemma_bucket_end(s, c);
    let v = s.value_at(i);
    assert(v == q * p);
    assert(0 <= q * p < 2 * h * p) by (nonlinear_arith)
        requires
            0 <= q < 2 * h,
            p >= 1,
    ;
    if c > 0 {
        lemma_bucket_end(s, c - 1);
        lemma_pow2_unfold((s.unit + c) as nat);
        let r = pow2((s.unit + c - 1) as nat) as int;
        assert(2 * h * r <= q * p) by (nonlinear_arith)
            requires
                p == 2 * r,
                h <= q,
                r >= 0,
        ;
    }
    lemma_bucket_is(s, v, c);
    assert(s.width(v) == p);
    lemma_div_multiples_vanish(q, p);
    assert(p * q == q * p) by (nonlinear_arith);
    if c < b {
        lemma_pow2_strictly_increases(c as nat, b as nat);
    }
    let n = s.span();
    let x = pow2(c as nat) as int;
    let y = pow2(b as nat) as int;
    assert(n * x <= n * y) by (nonlinear_arith)
        requires
            x <= y,
            n >= 0,
    ;
}

/// The end of the bucket of a 63-bit value fits 64 bits.
pub proof fn lemma_bucket_fits(s: Shape, v: int)
    requires
        s.well_formed(),
        0 <= v <= i64::MAX,
    ensures
        s.unit + s.half + s.bucket(v) <= 62,
        s.span() * pow2(s.bucket(v) as nat) <= 0x8000_0000_0000_0000,
{
    lemma_bucket_bounds(s, v);
    lemma2_to64();
    lemma2_to64_rest();
    let b = s.bucket(v);
    lemma_bucket_end(s, b);
    if b > 0 {
        lemma_bucket_end(s, b - 1);
        let e = (s.unit + s.half + b) as nat;
        assert(s.unit + s.half + 1 + (b - 1) == e);
        if e > 62 {
            if e > 63 {
                lemma_pow2_strictly_increases(63, e);
            }
            assert(false);
        }
    }
    let e = (s.unit + s.half + 1 + b) as nat;
    if e < 63 {
        lemma_pow2_strictly_increases(e, 63);
    }
}

impl Shape {
    /// The bucket of a value.
    pub fn bucket_index(&self, value: i64) -> (b: u32)
        requires
            self.well_formed(),
            value >= 0,
        ensures
            b == self.bucket(value as int),
    {
        let mut b: u32 = 0;
        let mut v: u64 = value as u64;
        let span: u64 = pow2_of(self.unit + self.half + 1);
        proof {
            lemma_shape_positive(*self);
        }
        while v >= span
            invariant
                span == self.span(),
                span >= 2,
                0 <= v <= i64::MAX,
                b + self.bucket(v as int) == self.bucket(value as int),
                self.well_formed(),
                0 <= value,
            decreases v,
        {
            proof {
                lemma_bucket_bounds(*self, v as int);
                lemma_bucket_fits(*self, value as int);
                lemma_bucket_bounds(*self, v as int / 2);
            }
            v = v / 2;
            b = b + 1;
        }
        b
    }

    /// The value in steps of its bucket.
    pub fn sub_bucket_index(&self, value: i64, bucket_index: u32) -> (q: u64)
        requires
            self.well_formed(),
            value >= 0,
            bucket_index == self.bucket(value as int),
        ensures
            q == self.step(value as int),
    {
        proof {
            lemma_bucket_fits(*self, value as int);
            lemma_u64_shr_is_div(value as u64, (bucket_index + self.unit) as u64);
        }
        (value as u64) >> ((bucket_index + self.unit) as u64)
    }

    /// The number of a value's counter.
    pub fn counts_index_for(&self, value: i64) -> (i: u64)
        requires
            self.well_formed(),
            value >= 0,
        ensures
            i == self.index(value as int),
    {
        let b: u32 = self.bucket_index(value);
        let q: u64 = self.sub_bucket_index(value, b);
        let h: u64 = pow2_of(self.half);
        proof {
            lemma_bucket_fits(*self, value as int);
            lemma_step_bounds(*self, value as int);
            lemma_shape_positive(*self);
            lemma_index_fits(*self, value as int);
        }
        b as u64 * h + q
    }

    /// The least value of a counter.
    pub fn value_at_index(&self, index: u64) -> (v: i64)
        requires
            self.well_formed(),
            self.unit + self.half + self.bucket_at(index as int) <= 62,
        ensures
            v == self.value_at(index as int),
            v >= 0,
    {
        let h: u64 = pow2_of(self.half);
        proof {
            lemma_shape_positive(*self);
            let b = self.bucket_at(index as int);
            lemma_bucket_at_bound(*self, index as int);
            lemma_index_value_at(*self, index as int, b);
            lemma_shape_positive(*self);
            lemma_value_fits(*self, index as int, b);
        }
        let c: u64 = if index < h {
            0
        } else {
            index / h - 1
        };
        let q: u64 = index - c * h;
        proof {
            lemma_u64_shl_is_mul(q, (c + self.unit) as u64);
        }
        (q << ((c + self.unit as u64))) as i64
    }

    /// The width of the range of values with the same counter.
    pub fn size_of_equivalent_range(&self, value: i64) -> (w: u64)
        requires
            self.well_formed(),
            value >= 0,
        ensures
            w == self.width(value as int),
    {
        let b: u32 = self.bucket_index(value);
        proof {
            lemma_bucket_fits(*self, value as int);
        }
        pow2_of(self.unit + b)
    }

    /// The least value with the same counter.
    pub fn lowest_equivalent(&self, value: i64) -> (v: i64)
        requires
            self.well_formed(),
            value >= 0,
        ensures
            v == self.lowest(value as int),
    {
        let b: u32 = self.bucket_index(value);
        let q: u64 = self.sub_bucket_index(value, b);
        proof {
            lemma_bucket_fits(*self, value as int);
            lemma_step_bounds(*self, value as int);
            lemma_u64_shl_is_mul(q, (b + self.unit) as u64);
        }
        (q << ((b + self.unit) as u64)) as i64
    }

    /// The greatest value with the same counter.
    pub fn highest_equivalent(&self, value: i64) -> (v: i64)
        requires
            self.well_formed(),
            value >= 0,
        ensures
            v == self.highest(value as int),
    {
        let low: i64 = self.lowest_equivalent(value);
        let w: u64 = self.size_of_equivalent_range(value);
        proof {
            lemma_bucket_fits(*self, value as int);
            lemma_step_bounds(*self, value as int);
        }
        (low as u64 + (w - 1)) as i64
    }

    /// The middle of the values with the same counter.
    pub fn median_equivalent(&self, value: i64) -> (v: i64)
        requires
            self.well_formed(),
            value >= 0,
        ensures
            v == self.median(value as int),
    {
        let low: i64 = self.lowest_equivalent(value);
        let w: u64 = self.size_of_equivalent_range(value);
        proof {
            lemma_bucket_fits(*self, value as int);
            lemma_step_bounds(*self, value as int);
        }
        (low as u64 + w / 2) as i64
    }
}

/// A counter lies before the end of its bucket.
pub proof fn lemma_bucket_at_bound(s: Shape, i: int)
    requires
        0 <= i,
    ensures
        0 <= s.bucket_at(i),
        i < (s.bucket_at(i) + 2) * s.steps(),
{
    lemma_shape_positive(s);
    let h = s.steps();
    if i >= h {
        lemma_fundamental_div_mod(i, h);
        lemma_mod_bound(i, h);
        assert(i / h >= 1) by (nonlinear_arith)
            requires
                i == h * (i / h) + i % h,
                i % h < h,
                i >= h,
                h >= 1,
        ;
        assert((i / h + 1) * h == h * (i / h) + h) by (nonlinear_arith);
    }
}

proof fn lemma_index_fits(s: Shape, v: int)
    requires
        s.well_formed(),
        0 <= v <= i64::MAX,
    ensures
        s.bucket(v) * s.steps() + s.step(v) <= u64::MAX,
        0 <= s.bucket(v) * s.steps(),
{
    lemma_bucket_fits(s, v);
    lemma_bucket_bounds(s, v);
    lemma_step_bounds(s, v);
    lemma_shape_positive(s);
    lemma_value_at_index(s, v);
    let b = s.bucket(v);
    let h = s.steps();
    let w = s.width(v);
    // b * h + q is at most 64 * h, and 2 * h * width is within 63 bits
    lemma_bucket_end(s, b);
    assert(2 * h <= 0x8000_0000_0000_0000) by (nonlinear_arith)
        requires
            2 * h * w <= 0x8000_0000_0000_0000,
            w >= 1,
            h >= 1,
    ;
    lemma2_to64();
    lemma2_to64_rest();
    assert(s.unit + s.half + b <= 62);
    // where h is large, b is small
    lemma_half_times_bucket(s.half as int, b);
}

proof fn lemma_half_times_bucket(half: int, b: int)
    requires
        0 <= half,
        0 <= b,
        half + b <= 62,
    ensures
        0 <= b * pow2(half as nat) <= 0x4000_0000_0000_0000,
    decreases b,
{
    lemma2_to64();
    lemma2_to64_rest();
    lemma_pow2_pos(half as nat);
    if b > 0 {
        lemma_bucket_doubles(half, b);
    }
}

/// `b * 2^half` is at most `2^(half + b)`.
proof fn lemma_bucket_doubles(half: int, b: int)
    requires
        0 <= half,
        0 < b,
        half + b <= 62,
    ensures
        0 <= b * pow2(half as nat) <= pow2((half + b) as nat) <= 0x4000_0000_0000_0000,
    decreases b,
{
    lemma2_to64();
    lemma2_to64_rest();
    lemma_pow2_pos(half as nat);
    let h = pow2(half as nat) as int;
    lemma_pow2_unfold((half + b) as nat);
    if half + b < 62 {
        lemma_pow2_strictly_increases((half + b) as nat, 62);
    }
    if b == 1 {
        lemma_pow2_unfold((half + 1) as nat);
    } else {
        lemma_bucket_doubles(half, b - 1);
        let p = pow2((half + b - 1) as nat) as int;
        assert((b - 1) * h + h == b * h) by (nonlinear_arith);
        assert(h <= (b - 1) * h) by (nonlinear_arith)
            requires
                b >= 2,
                h >= 1,
        ;
    }
    assert(b * h >= 0) by (nonlinear_arith)
        requires
            b >= 0,
            h >= 1,
    ;
}

proof fn lemma_value_fits(s: Shape, i: int, b: int)
    requires
        s.well_formed(),
        0 <= b,
        s.unit + s.half + b <= 62,
        0 <= i < (b + 2) * s.steps(),
    ensures
        s.value_at(i) <= i64::MAX,
        s.unit + s.bucket_at(i) <= 62,
        0 <= s.bucket_at(i) * s.steps() <= i,
{
    lemma_index_value_at(s, i, b);
    lemma_shape_positive(s);
    lemma_bucket_end(s, b);
    lemma2_to64();
    lemma2_to64_rest();
    let e = (s.unit + s.half + 1 + b) as nat;
    if e < 63 {
        lemma_pow2_strictly_increases(e, 63);
    }
    let c = s.bucket_at(i);
    let h = s.steps();
    assert(0 <= c * h) by (nonlinear_arith)
        requires
            c >= 0,
            h >= 1,
    ;
}

// ---------------------------------------------------------------------------
// Laws
// ---------------------------------------------------------------------------

/// Every value lies between the least and the greatest value with its
/// counter, and all of those have the same counter.
pub proof fn law_equivalent_values_share_a_counter(s: Shape, v: int, w: int)
    requires
        0 <= v,
        s.lowest(v) <= w <= s.highest(v),
    ensures
        s.lowest(v) <= v <= s.highest(v),
        s.index(w) == s.index(v),
        s.lowest(w) == s.lowest(v),
        s.highest(w) == s.highest(v),
{
    lemma_step_bounds(s, v);
    lemma_bucket_bounds(s, v);
    lemma_shape_positive(s);
    lemma_lowest_same_counter(s, v);
    let b = s.bucket(v);
    let l = s.lowest(v);
    lemma_bucket_bounds(s, l);
    lemma_bucket_is(s, w, b);
    let d = s.width(v);
    let q = s.step(v);
    lemma_fundamental_div_mod_converse(w, d, q, w - l);
    assert(d * q == q * d) by (nonlinear_arith);
}

/// The counters keep the order of the values.
pub proof fn law_counters_keep_the_order(s: Shape, v: int, w: int)
    requires
        0 <= v <= w,
    ensures
        s.index(v) <= s.index(w),
{
    lemma_index_monotone(s, v, w);
}

/// Reading a counter's value and looking its counter up again gives the same
/// counter; from a value it gives the least equivalent value.
pub proof fn law_counters_round_trip(s: Shape, i: int, v: int)
    requires
        0 <= i,
        0 <= v,
    ensures
        s.index(s.value_at(i)) == i,
        s.value_at(s.index(v)) == s.lowest(v),
{
    lemma_shape_positive(s);
    let h = s.steps();
    assert(i < (i + 2) * h) by (nonlinear_arith)
        requires
            i >= 0,
            h >= 1,
    ;
    lemma_index_value_at(s, i, i);
    lemma_value_at_index(s, v);
}

/// In the first bucket of a histogram with the unit one, every value has a
/// counter of its own.
pub proof fn law_small_values_are_exact(s: Shape, v: int)
    requires
        s.unit == 0,
        0 <= v < s.span(),
    ensures
        s.lowest(v) == v,
        s.highest(v) == v,
        s.median(v) == v,
        s.index(v) == v,
{
    lemma_bucket_bounds(s, v);
    lemma2_to64();
    assert(s.width(v) == 1);
    assert(v / 1 == v);
    assert(0 * s.steps() == 0);
}

/// The width of a range is never more than the value divided by the number of
/// steps, beyond the first bucket: that is the precision.
pub proof fn law_precision(s: Shape, v: int)
    requires
        s.span() <= v,
    ensures
        s.width(v) * s.steps() <= v,
{
    lemma_shape_positive(s);
    lemma_bucket_bounds(s, v);
    lemma_step_bounds(s, v);
    let w = s.width(v);
    let h = s.steps();
    let q = s.step(v);
    assert(w * h <= q * w) by (nonlinear_arith)
        requires
            h <= q,
            w >= 1,
    ;
}

/// The median of the values that share a counter lies in their middle: among
/// them, and as far from the least as from the greatest, up to one.
pub proof fn law_medians_lie_in_the_middle(s: Shape, v: int)
    requires
        0 <= v,
    ensures
        s.lowest(v) <= s.median(v) <= s.highest(v),
        -1 <= (s.median(v) - s.lowest(v)) - (s.highest(v) - s.median(v)) <= 1,
        s.highest(v) - s.lowest(v) + 1 == s.width(v),
{
    lemma_step_bounds(s, v);
    lemma_pow2_pos((s.unit + s.bucket(v)) as nat);
}

} // verus!
