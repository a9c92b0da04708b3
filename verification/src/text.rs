//! Small text helpers shared by the other modules: exact string comparison,
//! the whitespace trim and the decimal parser behind integer settings.

use vstd::prelude::*;

verus! {

/// Are the two strings the same sequence of characters?
pub fn text_eq(a: &str, b: &str) -> (same: bool)
    ensures
        same == (a@ == b@),
{
    let n: usize = a.unicode_len();
    let m: usize = b.unicode_len();
    if n != m {
        return false;
    }
    let mut i: usize = 0;
    while i < n
        invariant
            n == a@.len(),
            n == b@.len(),
            i <= n,
            forall|k: int| 0 <= k < i ==> a@[k] == b@[k],
        decreases n - i,
    {
        if a.get_char(i) != b.get_char(i) {
            return false;
        }
        i = i + 1;
    }
    assert(a@ =~= b@);
    true
}

/// The characters with the Unicode property `White_Space`.
pub open spec fn is_space(c: char) -> bool {
    let u = c as u32;
    ||| 0x09 <= u <= 0x0D
    ||| u == 0x20
    ||| u == 0x85
    ||| u == 0xA0
    ||| u == 0x1680
    ||| 0x2000 <= u <= 0x200A
    ||| u == 0x2028
    ||| u == 0x2029
    ||| u == 0x202F
    ||| u == 0x205F
    ||| u == 0x3000
}

/// Is the character white space?
pub fn char_is_space(c: char) -> (r: bool)
    ensures
        r == is_space(c),
{
    let u: u32 = c as u32;
    (0x09 <= u && u <= 0x0D) || u == 0x20 || u == 0x85 || u == 0xA0 || u == 0x1680 || (0x2000 <= u
        && u <= 0x200A) || u == 0x2028 || u == 0x2029 || u == 0x202F || u == 0x205F || u == 0x3000
}

/// The text without leading white space.
pub open spec fn trimmed_front(s: Seq<char>) -> Seq<char>
    decreases s.len(),
{
    if s.len() > 0 && is_space(s[0]) {
        trimmed_front(s.subrange(1, s.len() as int))
    } else {
        s
    }
}

/// The text without trailing white space.
pub open spec fn trimmed_back(s: Seq<char>) -> Seq<char>
    decreases s.len(),
{
    if s.len() > 0 && is_space(s.last()) {
        trimmed_back(s.drop_last())
    } else {
        s
    }
}

/// The text without white space at either end.
pub open spec fn trimmed(s: Seq<char>) -> Seq<char> {
    trimmed_back(trimmed_front(s))
}

/// Where the trimmed text starts and ends.
fn trim_bounds(s: &str) -> (r: (usize, usize))
    ensures
        0 <= r.0 <= r.1 <= s@.len(),
        trimmed(s@) == s@.subrange(r.0 as int, r.1 as int),
{
    let n: usize = s.unicode_len();
    let mut lo: usize = 0;
    assert(s@.subrange(0, n as int) =~= s@);
    while lo < n && char_is_space(s.get_char(lo))
        invariant
            n == s@.len(),
            lo <= n,
            trimmed_front(s@) == trimmed_front(s@.subrange(lo as int, n as int)),
        decreases n - lo,
    {
        let ghost rest = s@.subrange(lo as int, n as int);
        assert(rest.subrange(1, rest.len() as int) =~= s@.subrange(lo + 1, n as int));
        lo = lo + 1;
    }
    let mut hi: usize = n;
    while hi > lo && char_is_space(s.get_char(hi - 1))
        invariant
            n == s@.len(),
            lo <= hi <= n,
            trimmed_back(s@.subrange(lo as int, n as int)) == trimmed_back(
                s@.subrange(lo as int, hi as int),
            ),
        decreases hi - lo,
    {
        assert(s@.subrange(lo as int, hi as int).drop_last() =~= s@.subrange(lo as int, hi - 1));
        hi = hi - 1;
    }
    (lo, hi)
}

/// A decimal digit.
pub open spec fn is_digit(c: char) -> bool {
    '0' <= c <= '9'
}

/// The number that a sequence of digits denotes.
pub open spec fn digits_value(s: Seq<char>) -> int
    decreases s.len(),
{
    if s.len() == 0 {
        0
    } else {
        10 * digits_value(s.drop_last()) + (s.last() as u32 - '0' as u32)
    }
}

/// All characters are digits, and there is one at least.
pub open spec fn is_number(s: Seq<char>) -> bool {
    s.len() > 0 && forall|i: int| 0 <= i < s.len() ==> is_digit(#[trigger] s[i])
}

/// The number that a text denotes, up to `max`: digits, with an optional
/// plus sign before them.
pub open spec fn parsed(s: Seq<char>, max: int) -> Option<int> {
    let digits = if s.len() > 0 && s[0] == '+' {
        s.subrange(1, s.len() as int)
    } else {
        s
    };
    if is_number(digits) && digits_value(digits) <= max {
        Some(digits_value(digits))
    } else {
        None
    }
}

proof fn lemma_digits_grow(s: Seq<char>, n: int)
    requires
        0 <= n <= s.len(),
        forall|i: int| 0 <= i < s.len() ==> is_digit(#[trigger] s[i]),
    ensures
        0 <= digits_value(s.take(n)) <= digits_value(s),
    decreases s.len() - n,
{
    if n < s.len() {
        lemma_digits_grow(s, n + 1);
        assert(s.take(n + 1).drop_last() =~= s.take(n));
        assert(is_digit(s[n]));
        lemma_digits_nonneg(s.take(n));
    } else {
        assert(s.take(n) =~= s);
        lemma_digits_nonneg(s);
    }
}

proof fn lemma_digits_nonneg(s: Seq<char>)
    requires
        forall|i: int| 0 <= i < s.len() ==> is_digit(#[trigger] s[i]),
    ensures
        digits_value(s) >= 0,
    decreases s.len(),
{
    if s.len() > 0 {
        assert(is_digit(s[s.len() - 1]));
        let front = s.drop_last();
        assert forall|i: int| 0 <= i < front.len() implies is_digit(#[trigger] front[i]) by {
            assert(is_digit(s[i]));
        }
        lemma_digits_nonneg(front);
    }
}

/// The number that a part of a text denotes, up to `max`.
fn parse_part(s: &str, lo: usize, hi: usize, max: u64) -> (r: Option<u64>)
    requires
        lo <= hi <= s@.len(),
    ensures
        ({
            let p = parsed(s@.subrange(lo as int, hi as int), max as int);
            &&& r == match p {
                Some(n) => Some(n as u64),
                None => None,
            }
            &&& p matches Some(n) ==> 0 <= n <= max
        }),
{
    let ghost body = s@.subrange(lo as int, hi as int);
    let start: usize = if lo < hi && s.get_char(lo) == '+' {
        lo + 1
    } else {
        lo
    };
    let ghost digits = s@.subrange(start as int, hi as int);
    assert(start == lo + 1 ==> digits =~= body.subrange(1, body.len() as int));
    assert(start == lo ==> digits =~= body);
    if start >= hi {
        return None;
    }
    let mut value: u64 = 0;
    let mut i: usize = start;
    assert(digits.take(0) =~= Seq::empty());
    while i < hi
        invariant
            lo <= start <= i <= hi <= s@.len(),
            start < hi,
            body == s@.subrange(lo as int, hi as int),
            digits == s@.subrange(start as int, hi as int),
            parsed(body, max as int) == if is_number(digits) && digits_value(digits) <= max {
                Some(digits_value(digits))
            } else {
                None
            },
            forall|k: int| 0 <= k < i - start ==> is_digit(#[trigger] digits[k]),
            value == digits_value(digits.take(i - start)),
            value <= max,
        decreases hi - i,
    {
        let c: char = s.get_char(i);
        assert(c == digits[i - start]);
        if c < '0' || c > '9' {
            assert(!is_digit(digits[i - start]));
            return None;
        }
        let d: u64 = (c as u32 - '0' as u32) as u64;
        proof {
            assert(digits.take(i - start + 1).drop_last() =~= digits.take(i - start));
            if is_number(digits) {
                // the value so far never exceeds the value of the whole
                lemma_digits_grow(digits, i - start + 1);
            }
        }
        if d > max || value > (max - d) / 10 {
            return None;
        }
        value = value * 10 + d;
        i = i + 1;
    }
    assert(digits.take(hi - start) =~= digits);
    Some(value)
}

/// The number that a text denotes, up to `max`, white space at its ends
/// aside.
pub fn parse_decimal(s: &str, max: u64) -> (r: Option<u64>)
    ensures
        r == match parsed(trimmed(s@), max as int) {
            Some(n) => Some(n as u64),
            None => None,
        },
        parsed(trimmed(s@), max as int) matches Some(n) ==> 0 <= n <= max,
{
    let (lo, hi) = trim_bounds(s);
    parse_part(s, lo, hi, max)
}

/// The number that a text denotes, up to `max`. White space is not allowed.
pub fn parse_decimal_exact(s: &str, max: u64) -> (r: Option<u64>)
    ensures
        r == match parsed(s@, max as int) {
            Some(n) => Some(n as u64),
            None => None,
        },
        parsed(s@, max as int) matches Some(n) ==> 0 <= n <= max,
{
    let n: usize = s.unicode_len();
    assert(s@.subrange(0, n as int) =~= s@);
    parse_part(s, 0, n, max)
}

/// The code of a character, with the capital letters A to Z taken as small
/// ones.
pub open spec fn folded(c: char) -> int {
    if 'A' <= c <= 'Z' {
        c as u32 + 32
    } else {
        c as u32 as int
    }
}

/// The texts are the same but for the case of the letters A to Z in the
/// first.
pub open spec fn same_ignoring_ascii_case(a: Seq<char>, lower: Seq<char>) -> bool {
    a.len() == lower.len() && forall|i: int|
        0 <= i < a.len() ==> folded(#[trigger] a[i]) == lower[i] as u32
}

/// Is the text `lower`, but for the case of the letters A to Z and for white
/// space at its ends?
pub fn trimmed_eq_ignoring_ascii_case(s: &str, lower: &str) -> (r: bool)
    ensures
        r == same_ignoring_ascii_case(trimmed(s@), lower@),
{
    let (lo, hi) = trim_bounds(s);
    let n: usize = lower.unicode_len();
    let ghost body = trimmed(s@);
    if hi - lo != n {
        return false;
    }
    let mut i: usize = 0;
    while i < n
        invariant
            i <= n,
            n == lower@.len(),
            lo <= hi <= s@.len(),
            hi - lo == n,
            body == s@.subrange(lo as int, hi as int),
            body == trimmed(s@),
            forall|k: int| 0 <= k < i ==> folded(#[trigger] body[k]) == lower@[k] as u32,
        decreases n - i,
    {
        let c: char = s.get_char(lo + i);
        assert(c == body[i as int]);
        let code: u32 = if 'A' <= c && c <= 'Z' {
            c as u32 + 32
        } else {
            c as u32
        };
        if code != lower.get_char(i) as u32 {
            assert(folded(body[i as int]) != lower@[i as int] as u32);
            return false;
        }
        i = i + 1;
    }
    true
}

proof fn lemma_trimmed_front(s: Seq<char>) -> (lo: int)
    ensures
        0 <= lo <= s.len(),
        trimmed_front(s) == s.skip(lo),
        forall|i: int| 0 <= i < lo ==> is_space(#[trigger] s[i]),
        lo < s.len() ==> !is_space(s[lo]),
    decreases s.len(),
{
    if s.len() > 0 && is_space(s[0]) {
        let rest = s.subrange(1, s.len() as int);
        let lo = lemma_trimmed_front(rest);
        assert(rest.skip(lo) =~= s.skip(lo + 1));
        assert forall|i: int| 0 <= i < lo + 1 implies is_space(#[trigger] s[i]) by {
            if i > 0 {
                assert(rest[i - 1] == s[i]);
            }
        }
        lo + 1
    } else {
        assert(s.skip(0) =~= s);
        0
    }
}

proof fn lemma_trimmed_back(s: Seq<char>) -> (hi: int)
    ensures
        0 <= hi <= s.len(),
        trimmed_back(s) == s.take(hi),
        forall|i: int| hi <= i < s.len() ==> is_space(#[trigger] s[i]),
        hi > 0 ==> !is_space(s[hi - 1]),
    decreases s.len(),
{
    if s.len() > 0 && is_space(s.last()) {
        let rest = s.drop_last();
        let hi = lemma_trimmed_back(rest);
        assert(rest.take(hi) =~= s.take(hi));
        assert forall|i: int| hi <= i < s.len() implies is_space(#[trigger] s[i]) by {
            if i < s.len() - 1 {
                assert(rest[i] == s[i]);
            }
        }
        hi
    } else {
        assert(s.take(s.len() as int) =~= s);
        s.len() as int
    }
}

/// Trimming takes the white space off both ends and nothing else: what is left
/// stands in the text as it is, with only white space around it, and neither
/// starts nor ends with any.
pub proof fn law_trimming_takes_off_the_ends(s: Seq<char>) -> (r: (int, int))
    ensures
        0 <= r.0 <= r.1 <= s.len(),
        trimmed(s) == s.subrange(r.0, r.1),
        forall|i: int| 0 <= i < r.0 || r.1 <= i < s.len() ==> is_space(#[trigger] s[i]),
        trimmed(s).len() > 0 ==> !is_space(trimmed(s)[0]) && !is_space(trimmed(s).last()),
{
    let lo = lemma_trimmed_front(s);
    let mid = s.skip(lo);
    let hi = lemma_trimmed_back(mid);
    assert(mid.take(hi) =~= s.subrange(lo, lo + hi));
    assert forall|i: int| 0 <= i < lo || lo + hi <= i < s.len() implies is_space(
        #[trigger] s[i],
    ) by {
        if i >= lo {
            assert(mid[i - lo] == s[i]);
        }
    }
    if hi > 0 {
        assert(mid[0] == s[lo]);
        assert(trimmed(s)[0] == s[lo]);
        assert(trimmed(s).last() == mid[hi - 1]);
    }
    (lo, lo + hi)
}

/// A further digit makes a number ten times as large, and adds its own value.
pub proof fn law_digits_are_decimal(s: Seq<char>, d: char)
    requires
        is_digit(d),
    ensures
        digits_value(s.push(d)) == 10 * digits_value(s) + (d as u32 - '0' as u32),
        digits_value(seq![d]) == d as u32 - '0' as u32,
        0 <= digits_value(seq![d]) <= 9,
        digits_value(Seq::empty()) == 0,
{
    assert(s.push(d).drop_last() =~= s);
    assert(seq![d].drop_last() =~= Seq::<char>::empty());
    assert(digits_value(Seq::empty()) == 0);
}

/// A number is read where there are digits alone, behind a plus sign or none,
/// and it is not above the limit.
pub proof fn law_numbers_are_digits(s: Seq<char>, max: int, i: int)
    ensures
        is_number(s) && digits_value(s) <= max ==> parsed(s, max) == Some(digits_value(s)),
        is_number(s) ==> parsed(seq!['+'] + s, max) == parsed(s, max),
        is_number(s) && digits_value(s) > max ==> parsed(s, max) is None,
        s.len() == 0 ==> parsed(s, max) is None && parsed(seq!['+'] + s, max) is None,
        0 < i < s.len() && !('0' <= s[i] <= '9') ==> parsed(s, max) is None,
        s.len() > 0 && s[0] != '+' && !('0' <= s[0] <= '9') ==> parsed(s, max) is None,
{
    let plus = seq!['+'] + s;
    assert(plus.subrange(1, plus.len() as int) =~= s);
    if is_number(s) {
        assert(is_digit(s[0]));
    }
    let rest = s.subrange(1, s.len() as int);
    if 0 < i < s.len() && !is_digit(s[i]) {
        assert(rest[i - 1] == s[i]);
        assert(!is_digit(rest[i - 1]));
    }
}

/// Letters are the same as their small ones; nothing else is changed.
pub proof fn law_case_is_ignored(c: char)
    ensures
        'A' <= c <= 'Z' ==> folded(c) == c as u32 + ('a' as u32 - 'A' as u32),
        !('A' <= c <= 'Z') ==> folded(c) == c as u32,
{
}

/// White space is the blank, the tab and the line breaks, and some wider
/// blanks of other scripts: no letter, digit or sign is.
pub proof fn law_white_space(c: char)
    ensures
        ({
            let u = c as u32;
            &&& u < 0x80 ==> (is_space(c) <==> u == 0x20 || 0x09 <= u <= 0x0D)
            &&& 0x80 <= u < 0x2000 ==> (is_space(c) <==> u == 0x85 || u == 0xA0 || u == 0x1680)
            &&& 0x2000 <= u < 0x2100 ==> (is_space(c) <==> u <= 0x200A || 0x2028 <= u <= 0x2029
                || u == 0x202F || u == 0x205F)
            &&& u >= 0x2100 ==> (is_space(c) <==> u == 0x3000)
        }),
{
}

/// Two texts are the same but for the case where each letter is, and they are
/// of one length.
pub proof fn law_same_but_for_the_case(a: Seq<char>, lower: Seq<char>, i: int)
    requires
        same_ignoring_ascii_case(a, lower),
    ensures
        a.len() == lower.len(),
        0 <= i < a.len() ==> a[i] as u32 == lower[i] as u32 || 'A' <= a[i] <= 'Z' && a[i] as u32 + 32
            == lower[i] as u32,
{
    if 0 <= i < a.len() {
        assert(folded(a[i]) == lower[i] as u32);
    }
}

} // verus!
