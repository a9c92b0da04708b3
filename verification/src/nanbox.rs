//! Values as 64-bit words.
//!
//! A word is the bit pattern of a double, or, where its upper sixteen bits
//! are a tag, a boxed value. Numbers appear in two forms, as doubles and as
//! boxed 32-bit integers; the raw form of a number is the bit pattern of the
//! double, with one pattern for every NaN.

use std::collections::HashSet;
use vstd::prelude::*;
use vstd::arithmetic::div_mod::*;
use vstd::arithmetic::power2::*;

verus! {

broadcast use vstd::std_specs::hash::group_hash_axioms;

/// The upper sixteen bits start here.
pub const TAG_UNIT: u64 = 0x1_0000_0000_0000;

/// The tag of the special values: undefined, null, booleans, holes.
pub const SPECIAL_TAG: u64 = 0x7FFC;

/// The tag of heap pointers.
pub const POINTER_TAG: u64 = 0x7FFD;

/// The tag of boxed 32-bit integers, and of class references.
pub const INT32_TAG: u64 = 0x7FFE;

/// The least tag that no double has, but for NaNs.
pub const FIRST_BOX_TAG: u64 = 0x7FF9;

/// The greatest tag.
pub const LAST_BOX_TAG: u64 = 0x7FFF;

/// The one bit pattern that stands for NaN.
pub const CANONICAL_NAN: u64 = 0x7FF8_0000_0000_0000;

/// The bit pattern of infinity; greater magnitudes are NaNs.
pub const INFINITY_BITS: u64 = 0x7FF0_0000_0000_0000;

/// The sign bit, which is also the bit pattern of negative zero.
pub const SIGN_BIT: u64 = 0x8000_0000_0000_0000;

/// The weight of the lowest exponent bit.
pub const EXPONENT_UNIT: u64 = 0x10_0000_0000_0000;

/// The number of values of 32 bits.
pub const WORD32: u64 = 0x1_0000_0000;

/// What the value model takes from the rest of the runtime: the word that
/// marks a hole, and the class ids that are registered.
pub struct ValueTags {
    pub hole: u64,
    pub class_ids: HashSet<u32>,
}

/// The tag of a word.
pub open spec fn tag_of(bits: u64) -> int {
    bits as int / TAG_UNIT as int
}

/// A word whose tag marks it as a boxed value.
pub open spec fn is_boxed(bits: u64) -> bool {
    FIRST_BOX_TAG <= tag_of(bits) <= LAST_BOX_TAG
}

impl ValueTags {
    /// The hole is a boxed value other than an integer.
    pub open spec fn well_formed(&self) -> bool {
        is_boxed(self.hole) && tag_of(self.hole) != INT32_TAG
    }
}

/// The place of the highest one bit of `m`.
pub open spec fn top_bit(m: nat) -> nat
    decreases m,
{
    if m < 2 {
        0
    } else {
        1 + top_bit(m / 2)
    }
}

/// The bit pattern of the double `n`, for an `n` of at most 53 bits: sign,
/// biased exponent, and the fraction below the leading one.
pub open spec fn double_bits(n: int) -> int {
    if n == 0 {
        0
    } else {
        let m = if n < 0 {
            -n
        } else {
            n
        };
        let e = top_bit(m as nat) as int;
        (if n < 0 {
            SIGN_BIT as int
        } else {
            0
        }) + (1023 + e) * EXPONENT_UNIT + (m - pow2(e as nat)) * pow2((52 - e) as nat)
    }
}

/// The signed reading of 32 bits.
pub open spec fn as_signed32(lower: int) -> int {
    if lower >= 0x8000_0000 {
        lower - WORD32
    } else {
        lower
    }
}

/// Is the word the bit pattern of a NaN?
pub open spec fn is_nan_bits(bits: u64) -> bool {
    bits as int % SIGN_BIT as int > INFINITY_BITS
}

/// The raw form of the number that a word holds; a class reference, though
/// it has the integer tag, and every other boxed value is no number.
pub open spec fn number_of(tags: &ValueTags, bits: u64) -> Option<u64> {
    let lower = bits as int % WORD32 as int;
    if tag_of(bits) == INT32_TAG {
        if tags.class_ids@.contains(lower as u32) {
            None
        } else {
            Some(double_bits(as_signed32(lower)) as u64)
        }
    } else if is_boxed(bits) {
        None
    } else if is_nan_bits(bits) {
        Some(CANONICAL_NAN)
    } else {
        Some(bits)
    }
}

proof fn lemma_top_bit(m: nat, e: nat)
    requires
        pow2(e) <= m < pow2(e + 1),
    ensures
        top_bit(m) == e,
    decreases e,
{
    lemma_pow2_unfold(e + 1);
    if e == 0 {
        lemma2_to64();
        assert(m == 1);
    } else {
        lemma_pow2_unfold(e);
        assert(pow2((e - 1) as nat) >= 1) by {
            lemma_pow2_pos((e - 1) as nat);
        }
        lemma_top_bit(m / 2, (e - 1) as nat);
    }
}

proof fn lemma_top_bit_bounds(m: nat)
    requires
        m > 0,
    ensures
        pow2(top_bit(m)) <= m < pow2(top_bit(m) + 1),
    decreases m,
{
    lemma2_to64();
    if m >= 2 {
        lemma_top_bit_bounds(m / 2);
        lemma_pow2_unfold(top_bit(m));
        lemma_pow2_unfold(top_bit(m) + 1);
    }
}

/// The parts of a nonzero integer's bit pattern fit their places.
proof fn lemma_double_bits_parts(n: int)
    requires
        -0x8000_0000 <= n <= 0x8000_0000,
        n != 0,
    ensures
        ({
            let m = if n < 0 {
                -n
            } else {
                n
            };
            let e = top_bit(m as nat);
            let p = pow2(e) as int;
            let q = pow2((52 - e) as nat) as int;
            &&& e <= 31
            &&& p * q == EXPONENT_UNIT
            &&& 1 <= q
            &&& p <= m < 2 * p
            &&& 0 <= (m - p) * q < EXPONENT_UNIT
            &&& 0 <= double_bits(n) <= u64::MAX
        }),
{
    let m = if n < 0 {
        -n
    } else {
        n
    };
    let e = top_bit(m as nat);
    lemma2_to64();
    lemma2_to64_rest();
    lemma_top_bit_bounds(m as nat);
    if e > 31 {
        lemma_pow2_strictly_increases(31, e);
    }
    lemma_pow2_adds(e, (52 - e) as nat);
    lemma_pow2_unfold(e + 1);
    let p = pow2(e) as int;
    let q = pow2((52 - e) as nat) as int;
    lemma_pow2_pos((52 - e) as nat);
    assert(0 <= (m - p) * q < p * q) by (nonlinear_arith)
        requires
            p <= m < 2 * p,
            q >= 1,
    ;
}

/// The bit pattern of the double that equals a 32-bit integer.
pub fn int32_to_double_bits(n: i32) -> (bits: u64)
    ensures
        bits == double_bits(n as int),
{
    if n == 0 {
        return 0;
    }
    let m: u64 = if n < 0 {
        (-(n as i64)) as u64
    } else {
        n as u64
    };
    let mut e: u64 = 0;
    let mut p: u64 = 1;
    let mut q: u64 = EXPONENT_UNIT;
    proof {
        lemma2_to64();
        lemma2_to64_rest();
    }
    while p * 2 <= m
        invariant
            0 < m <= 0x8000_0000,
            e <= 31,
            p <= m,
            p == pow2(e as nat),
            q == pow2((52 - e) as nat),
        decreases m - p,
    {
        proof {
            lemma2_to64();
            lemma_pow2_unfold((e + 1) as nat);
            lemma_pow2_unfold((52 - e) as nat);
            if e == 31 {
                assert(p == 0x8000_0000);
            }
            lemma_pow2_pos(e as nat);
        }
        e = e + 1;
        p = p * 2;
        q = q / 2;
    }
    proof {
        lemma_pow2_unfold((e + 1) as nat);
        lemma_top_bit(m as nat, e as nat);
        lemma_double_bits_parts(n as int);
    }
    let sign: u64 = if n < 0 {
        SIGN_BIT
    } else {
        0
    };
    sign + (1023 + e) * EXPONENT_UNIT + (m - p) * q
}

/// The double is an integer that fits 32 bits; negative zero counts.
pub open spec fn is_int32_double(bits: u64) -> bool {
    bits == SIGN_BIT || exists|n: i32| bits == #[trigger] double_bits(n as int)
}

/// Is the double an integer that fits 32 bits?
pub fn double_is_int32(bits: u64) -> (r: bool)
    ensures
        r == is_int32_double(bits),
{
    if bits == 0 {
        assert(double_bits(0i32 as int) == 0);
        return true;
    }
    if bits == SIGN_BIT {
        return true;
    }
    let negative: bool = bits >= SIGN_BIT;
    let rest: u64 = if negative {
        bits - SIGN_BIT
    } else {
        bits
    };
    let exponent: u64 = rest / EXPONENT_UNIT;
    let fraction: u64 = rest % EXPONENT_UNIT;
    proof {
        lemma_int32_double_parts(bits);
    }
    if exponent < 1023 || exponent > 1054 {
        return false;
    }
    let e: u64 = exponent - 1023;
    let mut k: u64 = 0;
    let mut p: u64 = 1;
    let mut q: u64 = EXPONENT_UNIT;
    proof {
        lemma2_to64();
        lemma2_to64_rest();
    }
    while k < e
        invariant
            k <= e <= 31,
            p == pow2(k as nat),
            q == pow2((52 - k) as nat),
            p <= 0x8000_0000,
            q <= EXPONENT_UNIT,
        decreases e - k,
    {
        proof {
            lemma2_to64();
            lemma_pow2_unfold((k + 1) as nat);
            lemma_pow2_unfold((52 - k) as nat);
            if k + 1 < 31 {
                lemma_pow2_strictly_increases((k + 1) as nat, 31);
            }
        }
        k = k + 1;
        p = p * 2;
        q = q / 2;
    }
    proof {
        lemma_pow2_pos((52 - e) as nat);
        lemma_pow2_adds(e as nat, (52 - e) as nat);
        assert(p * q == EXPONENT_UNIT);
    }
    if fraction % q != 0 {
        proof {
            if is_int32_double(bits) {
                let n = choose|n: i32| bits == #[trigger] double_bits(n as int);
                lemma_double_bits_parts(n as int);
                let m = if n < 0 {
                    -n
                } else {
                    n as int
                };
                lemma_mod_multiples_basic(m - p, q as int);
                assert(false);
            }
        }
        return false;
    }
    let h: u64 = fraction / q;
    proof {
        lemma_fundamental_div_mod(fraction as int, q as int);
        assert(h < p) by (nonlinear_arith)
            requires
                h * q == fraction,
                fraction < EXPONENT_UNIT,
                p * q == EXPONENT_UNIT,
                q > 0,
        ;
    }
    let m: u64 = p + h;
    let fits: bool = m < 0x8000_0000 || (negative && m == 0x8000_0000);
    proof {
        lemma_pow2_unfold((e + 1) as nat);
        lemma_top_bit(m as nat, e as nat);
        assert((m - p) * q == fraction) by (nonlinear_arith)
            requires
                m == p + h,
                fraction == q * h,
        ;
        lemma_fundamental_div_mod(rest as int, EXPONENT_UNIT as int);
        if fits {
            let n: i32 = if negative {
                (-(m as int)) as i32
            } else {
                m as i32
            };
            assert(bits == double_bits(n as int));
        } else if is_int32_double(bits) {
            let n = choose|n: i32| bits == #[trigger] double_bits(n as int);
            lemma_double_bits_parts(n as int);
            let m2 = if n < 0 {
                -n
            } else {
                n as int
            };
            assert(m2 == m) by (nonlinear_arith)
                requires
                    (m2 - p) * q == (m - p) * q,
                    q > 0,
            ;
        }
    }
    fits
}

/// Where a word is the bit pattern of a 32-bit integer, its sign, exponent
/// and fraction are that integer's.
proof fn lemma_int32_double_parts(bits: u64)
    ensures
        forall|n: i32|
            n != 0 && bits == #[trigger] double_bits(n as int) ==> {
                let m = if n < 0 {
                    -n
                } else {
                    n as int
                };
                let e = top_bit(m as nat);
                let rest = if bits >= SIGN_BIT {
                    bits - SIGN_BIT
                } else {
                    bits as int
                };
                &&& (n < 0) == (bits >= SIGN_BIT)
                &&& rest / EXPONENT_UNIT as int == 1023 + e
                &&& rest % EXPONENT_UNIT as int == (m - pow2(e)) * pow2((52 - e) as nat)
                &&& e <= 31
            },
{
    assert forall|n: i32| n != 0 && bits == #[trigger] double_bits(n as int) implies {
        let m = if n < 0 {
            -n
        } else {
            n as int
        };
        let e = top_bit(m as nat);
        let rest = if bits >= SIGN_BIT {
            bits - SIGN_BIT
        } else {
            bits as int
        };
        &&& (n < 0) == (bits >= SIGN_BIT)
        &&& rest / EXPONENT_UNIT as int == 1023 + e
        &&& rest % EXPONENT_UNIT as int == (m - pow2(e)) * pow2((52 - e) as nat)
        &&& e <= 31
    } by {
        lemma_double_bits_parts(n as int);
        let m = if n < 0 {
            -n
        } else {
            n as int
        };
        let e = top_bit(m as nat);
        let f = (m - pow2(e)) * pow2((52 - e) as nat);
        let rest = if bits >= SIGN_BIT {
            bits - SIGN_BIT
        } else {
            bits as int
        };
        assert(rest == (1023 + e) * EXPONENT_UNIT + f);
        lemma_fundamental_div_mod_converse(rest, EXPONENT_UNIT as int, 1023 + e as int, f);
    }
}

/// The raw form of the number that a word holds, if it holds one.
pub fn value_bits_to_number(tags: &ValueTags, bits: u64) -> (number: Option<u64>)
    ensures
        number == number_of(tags, bits),
{
    let tag: u64 = bits / TAG_UNIT;
    if tag == INT32_TAG {
        let lower: u32 = (bits % WORD32) as u32;
        if tags.class_ids.contains(&lower) {
            return None;
        }
        let n: i32 = if lower >= 0x8000_0000 {
            (lower as i64 - 0x1_0000_0000) as i32
        } else {
            lower as i32
        };
        return Some(int32_to_double_bits(n));
    }
    if tag >= FIRST_BOX_TAG && tag <= LAST_BOX_TAG {
        return None;
    }
    if bits % SIGN_BIT > INFINITY_BITS {
        return Some(CANONICAL_NAN);
    }
    Some(bits)
}

/// Does the word hold a number?
pub fn value_bits_are_numeric(tags: &ValueTags, bits: u64) -> (r: bool)
    ensures
        r == (number_of(tags, bits) is Some),
{
    value_bits_to_number(tags, bits).is_some()
}

/// The raw form of the number that a word holds, and NaN for anything else.
pub fn js_array_numeric_value_to_raw_f64(tags: &ValueTags, bits: u64) -> (number: u64)
    ensures
        number == match number_of(tags, bits) {
            Some(n) => n,
            None => CANONICAL_NAN,
        },
{
    match value_bits_to_number(tags, bits) {
        Some(n) => n,
        None => CANONICAL_NAN,
    }
}

/// The raw form of a number is the raw form of itself: taking it twice
/// changes nothing.
pub proof fn law_raw_form_is_stable(tags: &ValueTags, bits: u64)
    requires
        number_of(tags, bits) is Some,
    ensures
        number_of(tags, number_of(tags, bits)->0) == number_of(tags, bits),
{
    let lower = bits as int % WORD32 as int;
    if tag_of(bits) == INT32_TAG {
        let n = as_signed32(lower);
        if n != 0 {
            lemma_double_bits_parts(n);
            let m = if n < 0 {
                -n
            } else {
                n
            };
            let e = top_bit(m as nat);
            assert(1023 + e <= 1054);
        }
    }
}

/// A hole is no number.
pub proof fn law_hole_is_no_number(tags: &ValueTags)
    requires
        tags.well_formed(),
    ensures
        number_of(tags, tags.hole) is None,
{
}

/// Different 32-bit integers have different raw forms.
pub proof fn law_int32_raw_forms_differ(a: i32, b: i32)
    requires
        double_bits(a as int) == double_bits(b as int),
    ensures
        a == b,
{
    if a != 0 {
        lemma_double_bits_parts(a as int);
        lemma_int32_double_parts(double_bits(a as int) as u64);
    }
    if b != 0 {
        lemma_double_bits_parts(b as int);
        lemma_int32_double_parts(double_bits(b as int) as u64);
    }
    if a != 0 && b != 0 {
        let ma = if a < 0 {
            -a
        } else {
            a as int
        };
        let mb = if b < 0 {
            -b
        } else {
            b as int
        };
        let p = pow2(top_bit(ma as nat)) as int;
        let q = pow2((52 - top_bit(ma as nat)) as nat) as int;
        assert(ma == mb) by (nonlinear_arith)
            requires
                (ma - p) * q == (mb - p) * q,
                q >= 1,
        ;
    }
}

/// Read as a double, the bit pattern of an integer is that integer: its sign
/// is the top bit, its exponent the next eleven, and its significand the rest
/// behind a leading one.
pub proof fn law_integers_have_their_double(n: i32)
    requires
        n != 0,
    ensures
        ({
            let bits = double_bits(n as int);
            let size = bits % SIGN_BIT as int;
            let exponent = size / EXPONENT_UNIT as int - 1023;
            let significand = EXPONENT_UNIT + size % EXPONENT_UNIT as int;
            &&& bits >= SIGN_BIT <==> n < 0
            &&& 0 <= exponent <= 31
            &&& n > 0 ==> significand * pow2(exponent as nat) == n * EXPONENT_UNIT
            &&& n < 0 ==> significand * pow2(exponent as nat) == -n * EXPONENT_UNIT
        }),
        double_bits(0) == 0,
{
    let m = if n < 0 {
        -n
    } else {
        n as int
    };
    let e = top_bit(m as nat);
    let p = pow2(e) as int;
    let q = pow2((52 - e) as nat) as int;
    lemma_double_bits_parts(n as int);
    let bits = double_bits(n as int);
    let size = (1023 + e) * EXPONENT_UNIT + (m - p) * q;
    assert(bits == (if n < 0 {
        SIGN_BIT as int
    } else {
        0
    }) + size);
    assert(0 <= size < SIGN_BIT);
    assert(bits % SIGN_BIT as int == size);
    assert(size / EXPONENT_UNIT as int == 1023 + e);
    assert(size % EXPONENT_UNIT as int == (m - p) * q);
    assert((p * q + (m - p) * q) * p == m * (p * q)) by (nonlinear_arith);
}

/// A word is a number unless it carries one of the box tags; then it is one
/// only as a 32-bit integer that is no class id. Numbers other than NaN stand
/// for themselves, and every NaN for the same one.
pub proof fn law_numbers_are_told_by_their_tag(tags: &ValueTags, bits: u64)
    ensures
        bits < 0x7FF9_0000_0000_0000 || bits >= 0x8000_0000_0000_0000 ==> number_of(tags, bits)
            is Some,
        bits <= 0x7FF0_0000_0000_0000 || 0x8000_0000_0000_0000 <= bits <= 0xFFF0_0000_0000_0000
            ==> number_of(tags, bits) == Some(bits),
        0x7FF0_0000_0000_0000 < bits < 0x7FF9_0000_0000_0000 || bits > 0xFFF0_0000_0000_0000
            ==> number_of(tags, bits) == Some(0x7FF8_0000_0000_0000u64),
        0x7FF9_0000_0000_0000 <= bits < 0x7FFE_0000_0000_0000 || 0x7FFF_0000_0000_0000 <= bits
            < 0x8000_0000_0000_0000 ==> number_of(tags, bits) is None,
{
}

/// A boxed 32-bit integer is the number that its lower half holds, unless that
/// is a class id.
pub proof fn law_boxed_integers_are_numbers(tags: &ValueTags, n: i32)
    ensures
        ({
            let lower = if n < 0 {
                n + 0x1_0000_0000
            } else {
                n as int
            };
            let bits = (0x7FFE_0000_0000_0000 + lower) as u64;
            &&& tags.class_ids@.contains(lower as u32) ==> number_of(tags, bits) is None
            &&& !tags.class_ids@.contains(lower as u32) ==> number_of(tags, bits) == Some(
                double_bits(n as int) as u64,
            )
        }),
{
}

/// The doubles that are 32-bit integers are those of the integers, and the
/// negative zero.
pub proof fn law_integral_doubles(n: i32, bits: u64)
    ensures
        is_int32_double(double_bits(n as int) as u64),
        is_int32_double(0x8000_0000_0000_0000),
        bits != 0x8000_0000_0000_0000 && is_int32_double(bits) ==> exists|k: i32|
            bits == #[trigger] double_bits(k as int),
{
    if n != 0 {
        lemma_double_bits_parts(n as int);
    }
}

} // verus!
