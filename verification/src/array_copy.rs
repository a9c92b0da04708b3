//! Copies of arrays with a change, and copies within an array.
//!
//! `toReversed`, `toSorted`, `toSpliced` and `with` leave their array alone
//! and give a new one; `copyWithin` moves elements within one array. Indexes
//! are given as `ToIntegerOrInfinity` leaves them.

use vstd::prelude::*;
use crate::array_layout::{rebuild_array_layout, ArrayObject, ArrayState};
use crate::array_receiver::{
    array_receiver_addr, clean_arr_ptr, stripped, typed_array_receiver, CleanPtr, Heap,
};
use crate::nanbox::ValueTags;

verus! {

/// The greatest length of an array-like object.
pub const MAX_LENGTH: i64 = 9_007_199_254_740_991;

/// An integer, or an infinity. Integers beyond 64 bits count as infinities.
#[derive(Clone, Copy, PartialEq, Eq, Structural, Debug)]
pub enum IntegerArg {
    NegInfinity,
    Finite(i64),
    PosInfinity,
}

/// The place that an index stands for in something of length `len`: counted
/// from the end where it is negative, and kept within the length.
pub open spec fn relative(arg: IntegerArg, len: int) -> int {
    match arg {
        IntegerArg::NegInfinity => 0,
        IntegerArg::PosInfinity => len,
        IntegerArg::Finite(n) => if n < 0 {
            if n + len < 0 {
                0
            } else {
                n + len
            }
        } else if n > len {
            len
        } else {
            n as int
        },
    }
}

/// The place that an index stands for.
pub fn copy_within_relative_index(arg: IntegerArg, len: i64) -> (i: i64)
    requires
        len >= 0,
    ensures
        i == relative(arg, len as int),
        0 <= i <= len,
{
    match arg {
        IntegerArg::NegInfinity => 0,
        IntegerArg::PosInfinity => len,
        IntegerArg::Finite(n) => {
            if n < 0 {
                if n + len < 0 {
                    0
                } else {
                    n + len
                }
            } else if n > len {
                len
            } else {
                n
            }
        },
    }
}

/// The length of an array-like object, from its `length` property.
pub open spec fn length_of(arg: IntegerArg) -> int {
    match arg {
        IntegerArg::NegInfinity => 0,
        IntegerArg::PosInfinity => MAX_LENGTH as int,
        IntegerArg::Finite(n) => if n <= 0 {
            0
        } else if n > MAX_LENGTH {
            MAX_LENGTH as int
        } else {
            n as int
        },
    }
}

/// The length of an array-like object, from its `length` property.
pub fn copy_within_to_length(arg: IntegerArg) -> (n: i64)
    ensures
        n == length_of(arg),
{
    match arg {
        IntegerArg::NegInfinity => 0,
        IntegerArg::PosInfinity => MAX_LENGTH,
        IntegerArg::Finite(n) => {
            if n <= 0 {
                0
            } else if n > MAX_LENGTH {
                MAX_LENGTH
            } else {
                n
            }
        },
    }
}

impl ArrayState {
    /// The elements of a dense array.
    pub open spec fn elements(self) -> Seq<u64> {
        self.slots.take(self.length)
    }

    /// The array is dense: its elements are all in its slots.
    pub open spec fn dense(self) -> bool {
        0 <= self.length <= self.capacity && self.slots.len() == self.capacity
    }
}

// ---------------------------------------------------------------------------
// New arrays
// ---------------------------------------------------------------------------

/// Who makes the copy.
#[derive(Clone, Copy, PartialEq, Eq, Structural, Debug)]
pub enum CopyRoute {
    /// There is no array: the copy is empty.
    Empty,
    /// The typed array at this address makes its own copy.
    TypedArray(u64),
    /// The array at this address is copied.
    Array(u64),
    /// The lazy array at this address is materialized, and then copied.
    Materialize(u64),
}

/// Who makes the copy of a receiver. Typed arrays are asked for first, for
/// they are no arrays.
pub open spec fn copy_route_of(heap: &Heap, bits: u64) -> CopyRoute {
    let addr = stripped(bits);
    if heap.is_plausible(addr) && heap.is_typed_array(addr) {
        CopyRoute::TypedArray(addr)
    } else {
        match heap.cleaned(bits) {
            CleanPtr::Null => CopyRoute::Empty,
            CleanPtr::At(a) => CopyRoute::Array(a),
            CleanPtr::Materialize(a) => CopyRoute::Materialize(a),
        }
    }
}

/// Who makes the copy of a receiver of `toSpliced`, which typed arrays lack.
pub open spec fn splice_route_of(heap: &Heap, bits: u64) -> CopyRoute {
    match heap.cleaned(bits) {
        CleanPtr::Null => CopyRoute::Empty,
        CleanPtr::At(a) => CopyRoute::Array(a),
        CleanPtr::Materialize(a) => CopyRoute::Materialize(a),
    }
}

/// Who makes the copy of a receiver of `toSpliced`?
pub fn splice_route(heap: &Heap, bits: u64) -> (r: CopyRoute)
    ensures
        r == splice_route_of(heap, bits),
{
    match clean_arr_ptr(heap, bits) {
        CleanPtr::Null => CopyRoute::Empty,
        CleanPtr::At(a) => CopyRoute::Array(a),
        CleanPtr::Materialize(a) => CopyRoute::Materialize(a),
    }
}

/// Who makes the copy of a receiver of `toReversed`, `toSorted` or `with`?
pub fn copy_route(heap: &Heap, bits: u64) -> (r: CopyRoute)
    ensures
        r == copy_route_of(heap, bits),
{
    if let Some(addr) = typed_array_receiver(heap, bits) {
        return CopyRoute::TypedArray(addr);
    }
    splice_route(heap, bits)
}

/// The elements in reverse order.
pub fn js_array_to_reversed(a: &ArrayObject) -> (out: Vec<u64>)
    requires
        a@.dense(),
    ensures
        out@ == a@.elements().reverse(),
{
    let len: usize = a.header.length as usize;
    let mut out: Vec<u64> = Vec::with_capacity(len);
    let mut i: usize = 0;
    while i < len
        invariant
            i <= len,
            len == a@.length,
            a@.dense(),
            out@.len() == i,
            forall|k: int| 0 <= k < i ==> #[trigger] out@[k] == a@.slots[len - 1 - k],
        decreases len - i,
    {
        out.push(a.slots[len - 1 - i]);
        i = i + 1;
    }
    assert(out@ =~= a@.elements().reverse());
    out
}

/// The elements with `undefined` in place of holes.
pub open spec fn filled(s: Seq<u64>, hole: u64, undefined: u64) -> Seq<u64> {
    s.map_values(
        |v: u64|
            if v == hole {
                undefined
            } else {
                v
            },
    )
}

/// How the copy is sorted.
#[derive(Clone, Copy, PartialEq, Eq, Structural, Debug)]
pub enum SortPath {
    /// By the default order.
    DefaultOrder,
    /// By the comparator that was given.
    Comparator,
}

/// The copy that is then sorted in place by the default order: reading an
/// element makes a hole an `undefined`.
pub fn js_array_to_sorted_default(tags: &ValueTags, a: &ArrayObject, undefined: u64) -> (out: Vec<
    u64,
>)
    requires
        a@.dense(),
    ensures
        out@ == filled(a@.elements(), tags.hole, undefined),
{
    let len: usize = a.header.length as usize;
    let mut out: Vec<u64> = Vec::with_capacity(len);
    let mut i: usize = 0;
    while i < len
        invariant
            i <= len,
            len == a@.length,
            a@.dense(),
            out@.len() == i,
            forall|k: int|
                0 <= k < i ==> #[trigger] out@[k] == filled(a@.elements(), tags.hole, undefined)[k],
        decreases len - i,
    {
        let v: u64 = a.slots[i];
        assert(a@.elements()[i as int] == v);
        out.push(
            if v == tags.hole {
                undefined
            } else {
                v
            },
        );
        i = i + 1;
    }
    assert(out@ =~= filled(a@.elements(), tags.hole, undefined));
    out
}

/// The copy that is then sorted in place, and the order for it: that of the
/// comparator, or the default one where none was given.
pub fn js_array_to_sorted_with_comparator(
    tags: &ValueTags,
    a: &ArrayObject,
    undefined: u64,
    has_comparator: bool,
) -> (r: (Vec<u64>, SortPath))
    requires
        a@.dense(),
    ensures
        r.0@ == filled(a@.elements(), tags.hole, undefined),
        r.1 == if has_comparator {
            SortPath::Comparator
        } else {
            SortPath::DefaultOrder
        },
{
    let path: SortPath = if has_comparator {
        SortPath::Comparator
    } else {
        SortPath::DefaultOrder
    };
    (js_array_to_sorted_default(tags, a, undefined), path)
}

/// How many elements are deleted from `start` on.
pub open spec fn deleted(arg: IntegerArg, start: int, len: int) -> int {
    match arg {
        IntegerArg::NegInfinity => 0,
        IntegerArg::PosInfinity => len - start,
        IntegerArg::Finite(n) => if n <= 0 {
            0
        } else if n > len - start {
            len - start
        } else {
            n as int
        },
    }
}

/// The elements with some replaced by others.
pub open spec fn spliced(s: Seq<u64>, start: int, count: int, items: Seq<u64>) -> Seq<u64> {
    s.take(start) + items + s.skip(start + count)
}

fn append_range(out: &mut Vec<u64>, from: &Vec<u64>, lo: usize, hi: usize)
    requires
        lo <= hi <= from@.len(),
    ensures
        final(out)@ == old(out)@ + from@.subrange(lo as int, hi as int),
{
    let ghost before = out@;
    let mut i: usize = lo;
    assert(before =~= before + from@.subrange(lo as int, lo as int));
    while i < hi
        invariant
            lo <= i <= hi <= from@.len(),
            out@ == before + from@.subrange(lo as int, i as int),
        decreases hi - i,
    {
        out.push(from[i]);
        assert(out@ =~= before + from@.subrange(lo as int, i + 1));
        i = i + 1;
    }
}

/// The elements with `delete_count` of them from `start` on replaced by
/// `items`, both counted as the arguments of a splice.
pub open spec fn spliced_at(
    s: Seq<u64>,
    start: IntegerArg,
    delete_count: IntegerArg,
    items: Seq<u64>,
) -> Seq<u64> {
    let at = relative(start, s.len() as int);
    spliced(s, at, deleted(delete_count, at, s.len() as int), items)
}

/// The elements with `delete_count` of them from `start` on replaced by
/// `items`.
pub fn js_array_to_spliced(
    a: &ArrayObject,
    start: IntegerArg,
    delete_count: IntegerArg,
    items: &Vec<u64>,
) -> (out: Vec<u64>)
    requires
        a@.dense(),
        a@.length + items@.len() <= u32::MAX,
    ensures
        ({
            let s = relative(start, a@.length);
            out@ == spliced(a@.elements(), s, deleted(delete_count, s, a@.length), items@)
        }),
        out@ == spliced_at(a@.elements(), start, delete_count, items@),
{
    let len: i64 = a.header.length as i64;
    let s: i64 = copy_within_relative_index(start, len);
    let dc: i64 = match delete_count {
        IntegerArg::NegInfinity => 0,
        IntegerArg::PosInfinity => len - s,
        IntegerArg::Finite(n) => {
            if n <= 0 {
                0
            } else if n > len - s {
                len - s
            } else {
                n
            }
        },
    };
    let mut out: Vec<u64> = Vec::new();
    append_range(&mut out, &a.slots, 0, s as usize);
    append_range(&mut out, items, 0, items.len());
    append_range(&mut out, &a.slots, (s + dc) as usize, len as usize);
    proof {
        let e = a@.elements();
        assert(a@.slots.subrange(0, s as int) =~= e.take(s as int));
        assert(items@.subrange(0, items@.len() as int) =~= items@);
        assert(a@.slots.subrange(s + dc, len as int) =~= e.skip(s + dc));
        assert(out@ =~= spliced(e, s as int, dc as int, items@));
    }
    out
}

/// The place that an index names, unless there is none.
pub open spec fn existing_place(index: IntegerArg, len: int) -> Option<int> {
    match index {
        IntegerArg::Finite(n) => {
            let i = if n < 0 {
                n + len
            } else {
                n as int
            };
            if 0 <= i < len {
                Some(i)
            } else {
                None
            }
        },
        _ => None,
    }
}

/// The elements with the one that an index names replaced; nothing where it
/// names none.
pub open spec fn replaced(s: Seq<u64>, index: IntegerArg, value: u64) -> Option<Seq<u64>> {
    match existing_place(index, s.len() as int) {
        None => None,
        Some(i) => Some(s.update(i, value)),
    }
}

/// The elements with one replaced; nothing where the index names none, which
/// is a range error.
pub fn js_array_with(a: &ArrayObject, index: IntegerArg, value: u64) -> (out: Option<Vec<u64>>)
    requires
        a@.dense(),
    ensures
        match existing_place(index, a@.length) {
            None => out is None,
            Some(i) => out matches Some(v) && v@ == a@.elements().update(i, value),
        },
        match out {
            None => replaced(a@.elements(), index, value) is None,
            Some(v) => replaced(a@.elements(), index, value) == Some(v@),
        },
{
    let len: i64 = a.header.length as i64;
    let n: i64 = match index {
        IntegerArg::Finite(n) => n,
        _ => return None,
    };
    let i: i64 = if n < 0 {
        n + len
    } else {
        n
    };
    if i < 0 || i >= len {
        return None;
    }
    let mut out: Vec<u64> = Vec::new();
    append_range(&mut out, &a.slots, 0, len as usize);
    assert(out@ =~= a@.elements());
    out.set(i as usize, value);
    Some(out)
}

/// The elements of the copy that `toSpliced` makes of what its receiver
/// resolved to: none where that is no array.
pub fn spliced_copy(
    a: Option<&ArrayObject>,
    start: IntegerArg,
    delete_count: IntegerArg,
    items: &Vec<u64>,
) -> (out: Vec<u64>)
    requires
        a matches Some(a) ==> a@.dense() && a@.length + items@.len() <= u32::MAX,
    ensures
        match a {
            None => out@ == Seq::<u64>::empty(),
            Some(a) => {
                let s = relative(start, a@.length);
                out@ == spliced(a@.elements(), s, deleted(delete_count, s, a@.length), items@)
            },
        },
{
    match a {
        None => Vec::new(),
        Some(a) => js_array_to_spliced(a, start, delete_count, items),
    }
}

/// A new array with the given elements in it.
pub open spec fn holding(a: ArrayState, elements: Seq<u64>) -> ArrayState {
    ArrayState {
        length: elements.len() as int,
        ..a.with_slots(elements + a.slots.skip(elements.len() as int))
    }
}

/// Put the elements that `toReversed`, `toSorted`, `toSpliced` or `with` gave
/// into the array that was allocated for them, and work its layout out.
pub fn fill_fresh_array(tags: &ValueTags, a: &mut ArrayObject, elements: &Vec<u64>)
    requires
        tags.well_formed(),
        old(a)@.well_formed(),
        elements@.len() <= old(a)@.capacity,
    ensures
        final(a)@ == holding(old(a)@, elements@).layout_rebuilt(tags, false),
{
    let ghost before = a@;
    let mut i: usize = 0;
    assert(before.slots =~= elements@.take(0) + before.slots.skip(0));
    while i < elements.len()
        invariant
            i <= elements@.len(),
            elements@.len() <= before.capacity,
            before.slots.len() == before.capacity,
            a@ == before.with_slots(elements@.take(i as int) + before.slots.skip(i as int)),
        decreases elements@.len() - i,
    {
        a.slots.set(i, elements[i]);
        assert(a@.slots =~= elements@.take(i + 1) + before.slots.skip(i + 1));
        i = i + 1;
    }
    assert(elements@.take(i as int) =~= elements@);
    a.header.length = elements.len() as u32;
    rebuild_array_layout(tags, a);
}

// ---------------------------------------------------------------------------
// Copying within an array
// ---------------------------------------------------------------------------

/// Who copies within a receiver.
#[derive(Clone, Copy, PartialEq, Eq, Structural, Debug)]
pub enum CopyWithinRoute {
    /// The typed array at this address does it itself.
    TypedArray(u64),
    /// The buffer at this address does it itself.
    Buffer(u64),
    /// There is no array: nothing happens.
    Nothing,
    /// The array at this address.
    Array(u64),
    /// What the lazy array at this address is materialized into.
    Materialize(u64),
}

/// Who copies within a receiver. Typed arrays and buffers are asked for first:
/// their elements are no boxed values, and they are no arrays.
pub open spec fn copy_within_route_of(heap: &Heap, bits: u64) -> CopyWithinRoute {
    let addr = stripped(bits);
    if heap.is_plausible(addr) && heap.is_typed_array(addr) {
        CopyWithinRoute::TypedArray(addr)
    } else if heap.is_buffer(addr) {
        CopyWithinRoute::Buffer(addr)
    } else {
        match heap.cleaned(bits) {
            CleanPtr::Null => CopyWithinRoute::Nothing,
            CleanPtr::At(a) => CopyWithinRoute::Array(a),
            CleanPtr::Materialize(a) => CopyWithinRoute::Materialize(a),
        }
    }
}

/// Who copies within a receiver?
pub fn copy_within_route(heap: &Heap, bits: u64) -> (r: CopyWithinRoute)
    ensures
        r == copy_within_route_of(heap, bits),
{
    if let Some(addr) = typed_array_receiver(heap, bits) {
        return CopyWithinRoute::TypedArray(addr);
    }
    let addr: u64 = array_receiver_addr(bits);
    if heap.registered_buffer(addr) {
        return CopyWithinRoute::Buffer(addr);
    }
    match clean_arr_ptr(heap, bits) {
        CleanPtr::Null => CopyWithinRoute::Nothing,
        CleanPtr::At(a) => CopyWithinRoute::Array(a),
        CleanPtr::Materialize(a) => CopyWithinRoute::Materialize(a),
    }
}

/// How many elements are copied.
pub open spec fn copy_count(len: int, t: int, s: int, e: int) -> int {
    let n = if e - s < len - t {
        e - s
    } else {
        len - t
    };
    if n > 0 {
        n
    } else {
        0
    }
}

/// A run of single copies, each from one index to another.
#[derive(Clone, Copy, PartialEq, Eq, Structural, Debug)]
pub struct CopyPlan {
    /// First index read.
    pub from: i64,
    /// First index written.
    pub to: i64,
    /// Backwards, from the last element to the first.
    pub backwards: bool,
    /// How many copies.
    pub count: i64,
}

impl CopyPlan {
    /// The index read by copy `k`.
    pub open spec fn from_at(self, k: int) -> int {
        if self.backwards {
            self.from - k
        } else {
            self.from + k
        }
    }

    /// The index written by copy `k`.
    pub open spec fn to_at(self, k: int) -> int {
        if self.backwards {
            self.to - k
        } else {
            self.to + k
        }
    }

    /// The indexes of copy `k`: read, written.
    pub fn step(&self, k: i64) -> (r: (i64, i64))
        requires
            0 <= k < self.count,
            0 <= self.from <= MAX_LENGTH,
            0 <= self.to <= MAX_LENGTH,
            self.count <= MAX_LENGTH,
        ensures
            r.0 == self.from_at(k as int),
            r.1 == self.to_at(k as int),
    {
        if self.backwards {
            (self.from - k, self.to - k)
        } else {
            (self.from + k, self.to + k)
        }
    }
}

/// The copies of `count` elements from `s` to `t`, in an order in which no
/// element is overwritten before it is read.
pub open spec fn plan_for(t: int, s: int, count: int) -> CopyPlan {
    let backwards = s < t && t < s + count;
    CopyPlan {
        from: (if backwards {
            s + count - 1
        } else {
            s
        }) as i64,
        to: (if backwards {
            t + count - 1
        } else {
            t
        }) as i64,
        backwards,
        count: count as i64,
    }
}

/// Plan the copies.
pub fn plan_copies(t: i64, s: i64, count: i64) -> (p: CopyPlan)
    requires
        0 <= t <= MAX_LENGTH,
        0 <= s <= MAX_LENGTH,
        0 < count <= MAX_LENGTH,
    ensures
        p == plan_for(t as int, s as int, count as int),
{
    if s < t && t < s + count {
        CopyPlan { from: s + count - 1, to: t + count - 1, backwards: true, count }
    } else {
        CopyPlan { from: s, to: t, backwards: false, count }
    }
}

fn count_copies(len: i64, t: i64, s: i64, e: i64) -> (n: i64)
    requires
        0 <= t <= len,
        0 <= s <= len,
        0 <= e <= len,
        len <= MAX_LENGTH,
    ensures
        n == copy_count(len as int, t as int, s as int, e as int),
{
    let n: i64 = if e - s < len - t {
        e - s
    } else {
        len - t
    };
    if n > 0 {
        n
    } else {
        0
    }
}

/// The copies to make in an array that was changed while the indexes were
/// worked out for length `len`; nothing where there are none.
pub fn copy_within_spec_dense(len: i64, t: i64, s: i64, e: i64) -> (p: Option<CopyPlan>)
    requires
        0 <= t <= len,
        0 <= s <= len,
        0 <= e <= len,
        len <= MAX_LENGTH,
    ensures
        ({
            let count = copy_count(len as int, t as int, s as int, e as int);
            p == if count == 0 {
                None
            } else {
                Some(plan_for(t as int, s as int, count))
            }
        }),
{
    let count: i64 = count_copies(len, t, s, e);
    if count == 0 {
        None
    } else {
        Some(plan_copies(t, s, count))
    }
}

/// The slots with `count` of them copied from `s` to `t`, as they were.
pub open spec fn copied(slots: Seq<u64>, t: int, s: int, count: int) -> Seq<u64> {
    Seq::new(
        slots.len(),
        |i: int|
            if t <= i < t + count {
                slots[s + (i - t)]
            } else {
                slots[i]
            },
    )
}

/// What is left to do after the indexes of a copy have been worked out.
#[derive(Clone, Copy, PartialEq, Eq, Structural, Debug)]
pub enum CopyWithinStep {
    /// Nothing: the elements have been copied, or there were none to copy.
    Done,
    /// The array was changed while the indexes were worked out: each copy has
    /// to look at the array as it is by then. `step_action` says how.
    Steps(CopyPlan),
}

/// The end of a copy within an array that has to be converted to an integer:
/// one that is `undefined` counts as none.
pub open spec fn end_to_convert(end: Option<u64>, undefined: u64) -> Option<u64> {
    if end == Some(undefined) {
        None
    } else {
        end
    }
}

/// Which end of `copyWithin` on an array has to be converted to an integer?
/// One that is `undefined` counts as none: the copy then goes up to the length.
pub fn copy_within_end(end: Option<u64>, undefined: u64) -> (r: Option<u64>)
    ensures
        r == end_to_convert(end, undefined),
{
    match end {
        Some(word) => {
            if word == undefined {
                None
            } else {
                end
            }
        },
        None => None,
    }
}

/// The index at which a copy within an array ends. `integer` is what the end
/// converts to, where it has to be converted.
pub open spec fn end_index(end: Option<u64>, undefined: u64, integer: IntegerArg, len: int) -> int {
    match end_to_convert(end, undefined) {
        Some(_) => relative(integer, len),
        None => len,
    }
}

/// Copy elements within an array. `len` is the length that the indexes were
/// worked out for; it may have changed since. `end` is the word that was given
/// as the end, if any, and `end_integer` what it converts to. The latter counts
/// only where `copy_within_end` says that the end has to be converted; where
/// there is none, or an `undefined` one, the copy goes up to `len`.
pub fn js_array_copy_within(
    tags: &ValueTags,
    a: &mut ArrayObject,
    len: u32,
    target: IntegerArg,
    start: IntegerArg,
    end: Option<u64>,
    undefined: u64,
    end_integer: IntegerArg,
) -> (r: CopyWithinStep)
    requires
        tags.well_formed(),
        old(a)@.well_formed(),
        old(a)@.dense(),
    ensures
        ({
            let t = relative(target, len as int);
            let s = relative(start, len as int);
            let e = end_index(end, undefined, end_integer, len as int);
            let count = copy_count(len as int, t, s, e);
            if old(a)@.length != len {
                &&& final(a)@ == old(a)@
                &&& r == if count == 0 {
                    CopyWithinStep::Done
                } else {
                    CopyWithinStep::Steps(plan_for(t, s, count))
                }
            } else {
                &&& r == CopyWithinStep::Done
                &&& final(a)@ == if count == 0 {
                    old(a)@
                } else {
                    old(a)@.with_slots(copied(old(a)@.slots, t, s, count)).layout_rebuilt(
                        tags,
                        false,
                    )
                }
            }
        }),
{
    let n: i64 = len as i64;
    let t: i64 = copy_within_relative_index(target, n);
    let s: i64 = copy_within_relative_index(start, n);
    let e: i64 = match copy_within_end(end, undefined) {
        Some(_) => copy_within_relative_index(end_integer, n),
        None => n,
    };
    if a.header.length != len {
        return match copy_within_spec_dense(n, t, s, e) {
            Some(p) => CopyWithinStep::Steps(p),
            None => CopyWithinStep::Done,
        };
    }
    let count: i64 = count_copies(n, t, s, e);
    if count == 0 {
        return CopyWithinStep::Done;
    }
    let ghost before = a@;
    let mut moved: Vec<u64> = Vec::new();
    append_range(&mut moved, &a.slots, s as usize, (s + count) as usize);
    assert(moved@ =~= before.slots.subrange(s as int, s + count));
    let mut k: usize = 0;
    while k < moved.len()
        invariant
            k <= moved@.len(),
            moved@.len() == count,
            0 <= s,
            0 <= t,
            s + count <= n,
            t + count <= n,
            n == before.length,
            before.dense(),
            moved@ == before.slots.subrange(s as int, s + count),
            a@ == before.with_slots(a@.slots),
            a@.slots.len() == before.slots.len(),
            forall|i: int|
                0 <= i < before.slots.len() ==> #[trigger] a@.slots[i] == if t <= i < t + k {
                    before.slots[s + (i - t)]
                } else {
                    before.slots[i]
                },
        decreases moved@.len() - k,
    {
        a.slots.set(t as usize + k, moved[k]);
        k = k + 1;
    }
    assert(a@.slots =~= copied(before.slots, t as int, s as int, count as int));
    rebuild_array_layout(tags, a);
    CopyWithinStep::Done
}

/// What one copy of a plan does to the array as it is.
#[derive(Clone, Copy, PartialEq, Eq, Structural, Debug)]
pub enum StepAction {
    /// Set the element at `to` to what is at `from`.
    Write { from: u32, to: i64 },
    /// Delete the element at `at`.
    Delete { at: u32 },
    /// Nothing.
    Nothing,
}

/// What one copy does to the array as it is.
pub open spec fn array_step_for(from: int, to: int, from_present: bool) -> StepAction {
    if 0 <= from <= u32::MAX && from_present {
        StepAction::Write { from: from as u32, to: to as i64 }
    } else if 0 <= to <= u32::MAX {
        StepAction::Delete { at: to as u32 }
    } else {
        StepAction::Nothing
    }
}

/// What one copy does: it writes what it reads, and where there is nothing to
/// read, it deletes. `from_present` says whether there is; it is asked only
/// where `from` can be an array index.
pub fn step_action(from: i64, to: i64, from_present: bool) -> (a: StepAction)
    ensures
        a == array_step_for(from as int, to as int, from_present),
{
    if from >= 0 && from <= u32::MAX as i64 && from_present {
        StepAction::Write { from: from as u32, to }
    } else if to >= 0 && to <= u32::MAX as i64 {
        StepAction::Delete { at: to as u32 }
    } else {
        StepAction::Nothing
    }
}

/// What one copy of a plan does to an object that is no array.
#[derive(Clone, Copy, PartialEq, Eq, Structural, Debug)]
pub enum ObjectStep {
    /// Set the property at the second index to what is at the first.
    Write(i64, i64),
    /// Delete the property at this index. `deletion_result` follows.
    Delete(i64),
}

/// What one copy does to an object.
pub open spec fn object_step_for(from: int, to: int, from_present: bool) -> ObjectStep {
    if from_present {
        ObjectStep::Write(from as i64, to as i64)
    } else {
        ObjectStep::Delete(to as i64)
    }
}

/// What one copy does to an object: it sets what it reads, and where there is
/// nothing to read, it deletes.
pub fn object_step(from: i64, to: i64, from_present: bool) -> (a: ObjectStep)
    ensures
        a == object_step_for(from as int, to as int, from_present),
{
    if from_present {
        ObjectStep::Write(from, to)
    } else {
        ObjectStep::Delete(to)
    }
}

/// What follows a deletion: a property that is still there is a type error.
pub fn deletion_result(gone: bool) -> (r: Result<(), &'static str>)
    ensures
        match r {
            Ok(_) => gone,
            Err(text) => !gone && text@ == "Cannot delete property"@,
        },
{
    if gone {
        Ok(())
    } else {
        Err(cannot_delete_message())
    }
}

/// What copying within an object that is no array is called on.
#[derive(Clone, Copy, PartialEq, Eq, Structural, Debug)]
pub enum ValueReceiver {
    /// Null or undefined.
    Nullish,
    /// A string object, whose elements are read-only.
    StringObject,
    /// Any other object.
    Object,
}

/// What becomes of it.
#[derive(Clone, Copy, PartialEq, Eq, Structural, Debug)]
pub enum ValueCopy {
    /// A type error: there is no object.
    NotAnObject,
    /// A type error: the elements are read-only.
    ReadOnly,
    /// Nothing is copied.
    Unchanged,
    /// These copies, through the object's own getters and setters. Each reads
    /// a property and sets it at its new index, or deletes that one where
    /// there is none to read; a property that cannot be deleted is a type
    /// error.
    Steps(CopyPlan),
}

/// The text of the type error of a receiver that is no object.
pub fn not_an_object_message() -> (s: &'static str)
    ensures
        s@ == "Cannot convert undefined or null to object"@,
{
    "Cannot convert undefined or null to object"
}

/// The text of the type error of read-only elements.
pub fn read_only_message() -> (s: &'static str)
    ensures
        s@ == "Cannot assign to read only property"@,
{
    "Cannot assign to read only property"
}

/// The text of the type error of a property that cannot be deleted.
pub fn cannot_delete_message() -> (s: &'static str)
    ensures
        s@ == "Cannot delete property"@,
{
    "Cannot delete property"
}

/// Copy elements within an object of length `len`. An end that was given counts
/// as the integer that it converts to, and without one the copy goes up to
/// `len`. A string object only complains where something would be copied.
pub fn js_array_copy_within_value(
    receiver: ValueReceiver,
    len: i64,
    target: IntegerArg,
    start: IntegerArg,
    end: Option<IntegerArg>,
) -> (r: ValueCopy)
    requires
        0 <= len <= MAX_LENGTH,
    ensures
        ({
            let t = relative(target, len as int);
            let s = relative(start, len as int);
            let e = match end {
                Some(e) => relative(e, len as int),
                None => len as int,
            };
            let count = copy_count(len as int, t, s, e);
            r == if receiver == ValueReceiver::Nullish {
                ValueCopy::NotAnObject
            } else if count == 0 {
                ValueCopy::Unchanged
            } else if receiver == ValueReceiver::StringObject {
                ValueCopy::ReadOnly
            } else {
                ValueCopy::Steps(plan_for(t, s, count))
            }
        }),
{
    if receiver == ValueReceiver::Nullish {
        return ValueCopy::NotAnObject;
    }
    let t: i64 = copy_within_relative_index(target, len);
    let s: i64 = copy_within_relative_index(start, len);
    let e: i64 = match end {
        Some(e) => copy_within_relative_index(e, len),
        None => len,
    };
    match copy_within_spec_dense(len, t, s, e) {
        None => ValueCopy::Unchanged,
        Some(p) => {
            if receiver == ValueReceiver::StringObject {
                ValueCopy::ReadOnly
            } else {
                ValueCopy::Steps(p)
            }
        },
    }
}

// ---------------------------------------------------------------------------
// Laws
// ---------------------------------------------------------------------------

/// An end that is `undefined` is no end: the copy goes up to the length, as it
/// does without one. Any other end counts as what it converts to.
pub proof fn law_undefined_ends_nothing(
    end: Option<u64>,
    undefined: u64,
    integer: IntegerArg,
    len: int,
)
    ensures
        end is None || end == Some(undefined) <==> end_to_convert(end, undefined) is None,
        end is None || end == Some(undefined) ==> end_index(end, undefined, integer, len) == len,
        end matches Some(word) && word != undefined ==> end_index(end, undefined, integer, len)
            == relative(integer, len),
{
}

/// An index counts from the front, or, where it is negative, from the end; one
/// that is out of range counts as the nearest end.
pub proof fn law_indexes_count_from_either_end(n: i64, len: int)
    requires
        0 <= len <= MAX_LENGTH,
    ensures
        0 <= n <= len ==> relative(IntegerArg::Finite(n), len) == n,
        n > len ==> relative(IntegerArg::Finite(n), len) == len,
        -len <= n < 0 ==> relative(IntegerArg::Finite(n), len) == len + n,
        n < -len ==> relative(IntegerArg::Finite(n), len) == 0,
        relative(IntegerArg::NegInfinity, len) == 0,
        relative(IntegerArg::PosInfinity, len) == len,
{
}

/// A length is what was given, as far as it can be a length.
pub proof fn law_lengths_are_clamped(n: i64)
    ensures
        0 <= n <= MAX_LENGTH ==> length_of(IntegerArg::Finite(n)) == n,
        n < 0 ==> length_of(IntegerArg::Finite(n)) == 0,
        n > MAX_LENGTH ==> length_of(IntegerArg::Finite(n)) == MAX_LENGTH,
        length_of(IntegerArg::NegInfinity) == 0,
        length_of(IntegerArg::PosInfinity) == MAX_LENGTH,
        MAX_LENGTH == 0x1F_FFFF_FFFF_FFFF,
{
}

/// `with` puts the value at the index, and leaves the length and all other
/// elements as they were. A negative index names the element that many places
/// from the end. An index that names no element is refused.
pub proof fn law_with_replaces_one_element(s: Seq<u64>, n: i64, value: u64)
    requires
        s.len() <= u32::MAX,
    ensures
        0 <= n < s.len() ==> {
            &&& replaced(s, IntegerArg::Finite(n), value) matches Some(t)
            &&& t.len() == s.len()
            &&& t[n as int] == value
            &&& forall|j: int| 0 <= j < s.len() && j != n ==> #[trigger] t[j] == s[j]
            &&& replaced(s, IntegerArg::Finite((n - s.len()) as i64), value) == Some(t)
        },
        n >= s.len() || n < -s.len() ==> replaced(s, IntegerArg::Finite(n), value) is None,
        replaced(s, IntegerArg::PosInfinity, value) is None,
        replaced(s, IntegerArg::NegInfinity, value) is None,
{
}

/// `toSpliced` keeps what is before the start, puts the items there, and goes
/// on behind what it deletes.
pub proof fn law_splices_replace_a_range(
    s: Seq<u64>,
    start: i64,
    count: i64,
    items: Seq<u64>,
    j: int,
)
    requires
        s.len() <= u32::MAX,
        0 <= start <= s.len(),
        0 <= count <= s.len() - start,
        0 <= j < s.len() - count + items.len(),
    ensures
        ({
            let t = spliced_at(s, IntegerArg::Finite(start), IntegerArg::Finite(count), items);
            &&& t.len() == s.len() - count + items.len()
            &&& j < start ==> t[j] == s[j]
            &&& start <= j < start + items.len() ==> t[j] == items[j - start]
            &&& start + items.len() <= j ==> t[j] == s[j - items.len() + count]
        }),
{
}

/// The arguments of a splice that are out of range count as the nearest that
/// are not: a start as an end of the array, and a count as none or all.
pub proof fn law_splice_arguments_are_clamped(
    s: Seq<u64>,
    start: i64,
    count: i64,
    other: IntegerArg,
    items: Seq<u64>,
)
    requires
        s.len() <= u32::MAX,
    ensures
        ({
            let len = s.len() as int;
            let zero = IntegerArg::Finite(0);
            let end = IntegerArg::Finite(len as i64);
            let at = IntegerArg::Finite(start);
            &&& start < 0 && start >= -len ==> spliced_at(s, at, other, items) == spliced_at(
                s,
                IntegerArg::Finite((start + len) as i64),
                other,
                items,
            )
            &&& start < -len ==> spliced_at(s, at, other, items) == spliced_at(
                s,
                zero,
                other,
                items,
            )
            &&& start > len ==> spliced_at(s, at, other, items) == spliced_at(s, end, other, items)
            &&& spliced_at(s, IntegerArg::NegInfinity, other, items) == spliced_at(
                s,
                zero,
                other,
                items,
            )
            &&& spliced_at(s, IntegerArg::PosInfinity, other, items) == spliced_at(
                s,
                end,
                other,
                items,
            )
            &&& count < 0 ==> spliced_at(s, other, IntegerArg::Finite(count), items) == spliced_at(
                s,
                other,
                zero,
                items,
            )
            &&& spliced_at(s, other, IntegerArg::NegInfinity, items) == spliced_at(
                s,
                other,
                zero,
                items,
            )
            &&& count >= len ==> spliced_at(s, other, IntegerArg::Finite(count), items)
                == spliced_at(s, other, IntegerArg::PosInfinity, items)
            &&& 0 <= start <= len ==> spliced_at(s, at, IntegerArg::PosInfinity, items)
                == spliced_at(s, at, IntegerArg::Finite((len - start) as i64), items)
        }),
{
}

/// Sorting starts from the elements as they are, holes read as `undefined`.
pub proof fn law_sorted_copies_have_the_elements(s: Seq<u64>, hole: u64, undefined: u64, i: int)
    requires
        0 <= i < s.len(),
    ensures
        filled(s, hole, undefined).len() == s.len(),
        s[i] != hole ==> filled(s, hole, undefined)[i] == s[i],
        s[i] == hole ==> filled(s, hole, undefined)[i] == undefined,
{
}

/// A new array holds just the elements that were put into it.
pub proof fn law_new_arrays_hold_the_elements(a: ArrayState, elements: Seq<u64>)
    requires
        a.slots.len() == a.capacity,
        elements.len() <= a.capacity,
    ensures
        holding(a, elements).elements() == elements,
        holding(a, elements).length == elements.len(),
        holding(a, elements).capacity == a.capacity,
        holding(a, elements).dense(),
{
    assert(holding(a, elements).elements() =~= elements);
}

/// So many elements are copied as there are between the start and the end, and
/// as fit between the target and the length.
pub proof fn law_copies_are_those_that_fit(len: int, t: int, s: int, e: int, k: int)
    requires
        0 <= t <= len,
        0 <= s <= len,
        0 <= e <= len,
        0 <= k,
    ensures
        k < copy_count(len, t, s, e) <==> s + k < e && t + k < len,
{
}

/// `copyWithin` puts at the target what was at the start, element by element,
/// as it was before any was overwritten.
pub proof fn law_copy_within_moves_a_range(
    slots: Seq<u64>,
    t: int,
    s: int,
    count: int,
    k: int,
)
    requires
        0 <= t,
        0 <= s,
        t + count <= slots.len(),
        s + count <= slots.len(),
        0 <= k < count,
    ensures
        copied(slots, t, s, count)[t + k] == slots[s + k],
{
}

/// A single copy gives the target what the source has: its value, or nothing.
pub proof fn law_steps_copy_absence_too(xs: Seq<Option<u64>>, from: int, to: int)
    requires
        0 <= from < xs.len() <= MAX_LENGTH,
        0 <= to < xs.len(),
    ensures
        match object_step_for(from, to, xs[from] is Some) {
            ObjectStep::Write(f, t) => xs.update(t as int, xs[f as int]),
            ObjectStep::Delete(t) => xs.update(t as int, None),
        } == xs.update(to, xs[from]),
        from <= u32::MAX && to <= u32::MAX ==> match array_step_for(from, to, xs[from] is Some) {
            StepAction::Write { from: f, to: t } => xs.update(t as int, xs[f as int]),
            StepAction::Delete { at } => xs.update(at as int, None),
            StepAction::Nothing => xs,
        } == xs.update(to, xs[from]),
{
}

/// Where the source is no array index nothing is read from it, and where the
/// target is none nothing is deleted there.
pub proof fn law_steps_reach_array_indexes_only(from: i64, to: i64, from_present: bool)
    ensures
        ({
            let a = array_step_for(from as int, to as int, from_present);
            let reads = 0 <= from <= 0xFFFF_FFFF && from_present;
            let index = 0 <= to <= 0xFFFF_FFFF;
            &&& a is Write <==> reads
            &&& a is Delete <==> !reads && index
            &&& a is Nothing <==> !reads && !index
            &&& a matches StepAction::Write { from: f, to: t } ==> f == from && t == to
            &&& a matches StepAction::Delete { at } ==> at == to
        }),
{
}

/// A typed array does its own copying: it is never read as boxed slots, and
/// never passed over.
pub proof fn law_typed_arrays_copy_for_themselves(heap: &Heap, bits: u64)
    requires
        heap.is_plausible(stripped(bits)),
        heap.is_typed_array(stripped(bits)),
    ensures
        copy_route_of(heap, bits) == CopyRoute::TypedArray(stripped(bits)),
        copy_within_route_of(heap, bits) == CopyWithinRoute::TypedArray(stripped(bits)),
{
}

/// Looking for typed arrays and buffers first keeps no plain array from its
/// own route.
pub proof fn law_plain_arrays_keep_their_route(heap: &Heap, bits: u64, head: u64)
    requires
        heap.cleaned(bits) == CleanPtr::At(head),
        !heap.is_typed_array(stripped(bits)),
        !heap.is_buffer(stripped(bits)),
    ensures
        copy_route_of(heap, bits) == CopyRoute::Array(head),
        copy_within_route_of(heap, bits) == CopyWithinRoute::Array(head),
{
}

/// The elements after the first `n` copies of a plan, made one after the
/// other. An element may be missing.
pub open spec fn after_steps(s: Seq<Option<u64>>, p: CopyPlan, n: int) -> Seq<Option<u64>>
    decreases n,
{
    if n <= 0 {
        s
    } else {
        let prev = after_steps(s, p, n - 1);
        prev.update(p.to_at(n - 1), prev[p.from_at(n - 1)])
    }
}

proof fn lemma_after_steps(xs: Seq<Option<u64>>, t: int, s: int, count: int, n: int)
    requires
        0 <= t,
        0 <= s,
        0 < count,
        t + count <= xs.len() <= MAX_LENGTH,
        s + count <= xs.len(),
        0 <= n <= count,
    ensures
        ({
            let p = plan_for(t, s, count);
            let ys = after_steps(xs, p, n);
            &&& ys.len() == xs.len()
            &&& forall|i: int|
                0 <= i < xs.len() ==> #[trigger] ys[i] == if p.backwards {
                    if t + count - n <= i < t + count {
                        xs[s + (i - t)]
                    } else {
                        xs[i]
                    }
                } else {
                    if t <= i < t + n {
                        xs[s + (i - t)]
                    } else {
                        xs[i]
                    }
                }
        }),
    decreases n,
{
    if n > 0 {
        lemma_after_steps(xs, t, s, count, n - 1);
    }
}

/// Copies made one after the other, in the order of the plan, give what
/// copying all at once gives: no element is overwritten before it is read,
/// however the two ranges overlap.
pub proof fn law_step_order_is_safe(xs: Seq<Option<u64>>, t: int, s: int, count: int, i: int)
    requires
        0 <= t,
        0 <= s,
        0 < count,
        t + count <= xs.len() <= MAX_LENGTH,
        s + count <= xs.len(),
        0 <= i < xs.len(),
    ensures
        after_steps(xs, plan_for(t, s, count), count)[i] == if t <= i < t + count {
            xs[s + (i - t)]
        } else {
            xs[i]
        },
{
    lemma_after_steps(xs, t, s, count, count);
}

/// Whatever indexes are given, the copies stay within the length.
pub proof fn law_copies_stay_within(
    len: int,
    target: IntegerArg,
    start: IntegerArg,
    end: IntegerArg,
)
    requires
        0 <= len,
    ensures
        ({
            let t = relative(target, len);
            let s = relative(start, len);
            let e = relative(end, len);
            let count = copy_count(len, t, s, e);
            &&& 0 <= t <= len && 0 <= s <= len && 0 <= e <= len
            &&& count > 0 ==> t + count <= len && s + count <= len
        }),
{
}

/// A copy within an array keeps its length and everything outside the target
/// range.
pub proof fn law_copy_within_keeps_the_rest(
    slots: Seq<u64>,
    t: int,
    s: int,
    count: int,
    i: int,
)
    requires
        0 <= i < slots.len(),
        i < t || t + count <= i,
    ensures
        copied(slots, t, s, count).len() == slots.len(),
        copied(slots, t, s, count)[i] == slots[i],
{
}

/// Reversing twice gives the elements back.
pub proof fn law_reversed_twice_is_unchanged(s: Seq<u64>)
    ensures
        s.reverse().reverse() == s,
{
    assert(s.reverse().reverse() =~= s);
}

/// A splice that deletes nothing and inserts nothing is a copy; one that
/// deletes what another inserted undoes it.
pub proof fn law_splice_can_be_undone(s: Seq<u64>, start: int, count: int, items: Seq<u64>)
    requires
        0 <= start,
        0 <= count,
        start + count <= s.len(),
    ensures
        spliced(s, start, 0, Seq::empty()) == s,
        spliced(
            spliced(s, start, count, items),
            start,
            items.len() as int,
            s.subrange(start, start + count),
        ) == s,
        spliced(s, start, count, items).len() == s.len() - count + items.len(),
{
    assert(spliced(s, start, 0, Seq::empty()) =~= s);
    let t = spliced(s, start, count, items);
    assert(spliced(t, start, items.len() as int, s.subrange(start, start + count)) =~= s);
}

} // verus!
