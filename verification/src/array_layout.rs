//! Numeric array layouts.
//!
//! An array whose elements are all numbers may keep them in raw form, and an
//! array of numbers and holes may too: two flags in its collector header
//! record which of the two is proven. Fast loops trust those flags, so every
//! store here either keeps what they claim or takes them back.

use vstd::prelude::*;
use crate::nanbox::{
    double_is_int32, is_int32_double, law_hole_is_no_number, law_raw_form_is_stable, number_of,
    value_bits_are_numeric, value_bits_to_number, ValueTags,
};

verus! {

/// Above this length an array is never treated as numeric.
pub const MAX_NUMERIC_LENGTH: u32 = 16_000_000;

/// The least capacity that an array is given.
pub const MIN_ARRAY_CAPACITY: u32 = 16;

/// The numeric layouts that an array can have.
#[derive(Clone, Copy, PartialEq, Eq, Structural, Debug)]
pub enum NumericArrayLayout {
    RawF64,
}

/// The two words in front of an array's elements.
#[derive(Clone, Copy, PartialEq, Eq, Structural, Debug)]
pub struct ArrayHeader {
    /// Number of elements.
    pub length: u32,
    /// Number of slots allocated for elements.
    pub capacity: u32,
}

/// The flags in an array's collector header.
#[derive(Clone, Copy, PartialEq, Eq, Structural, Debug)]
pub struct ArrayFlags {
    /// Every element is a number in raw form.
    pub raw_f64: bool,
    /// Every element is a number in raw form or a hole.
    pub raw_f64_holes: bool,
    /// The array is an `arguments` object.
    pub arguments_object: bool,
    pub frozen: bool,
    pub sealed: bool,
    pub no_extend: bool,
    /// Some index has an accessor or attributes of its own.
    pub descriptors: bool,
}

/// What the collector and the feedback tables are told about an array, in
/// order.
#[derive(Clone, Copy, PartialEq, Eq, Structural, Debug)]
pub enum HeapNote {
    /// Compiled code that relied on the array's representation is stale.
    RepresentationChanged,
    /// The array holds no pointers.
    PointerFree,
    /// Every slot of the array holds a pointer.
    AllPointers,
    /// Nothing is known of which slots hold pointers.
    LayoutUnknown,
    /// Work the pointer layout out again from the first `length` slots.
    LayoutFromSlots { length: usize, exact: bool },
    /// The elements are no longer known to share a shape.
    ElementShapeCleared,
    /// A slot now holds these bits, for the pointer layout.
    LayoutSlot { index: usize, bits: u64 },
    /// A slot now holds these bits, for the write barrier.
    Barrier { index: usize, bits: u64 },
    /// The first `length` slots, for the write barrier.
    BarrierRange { length: usize },
    /// A slot was stored to: pointer layout and write barrier both.
    StoredSlot { index: usize, bits: u64 },
}

/// An array with its collector header.
pub struct ArrayObject {
    pub header: ArrayHeader,
    /// The collector header says that this is an array. Buffers and typed
    /// arrays, which share the first two words, have no such header.
    pub is_array: bool,
    pub flags: ArrayFlags,
    /// The element slots, as many as the capacity says.
    pub slots: Vec<u64>,
    /// The array lives in the old generation.
    pub old_gen: bool,
    /// What the collector was told, oldest first.
    pub notes: Vec<HeapNote>,
}

/// The contents of an array.
pub ghost struct ArrayState {
    pub length: int,
    pub capacity: int,
    pub is_array: bool,
    pub flags: ArrayFlags,
    pub slots: Seq<u64>,
    pub old_gen: bool,
    pub notes: Seq<HeapNote>,
}

impl View for ArrayObject {
    type V = ArrayState;

    open spec fn view(&self) -> ArrayState {
        ArrayState {
            length: self.header.length as int,
            capacity: self.header.capacity as int,
            is_array: self.is_array,
            flags: self.flags,
            slots: self.slots@,
            old_gen: self.old_gen,
            notes: self.notes@,
        }
    }
}

/// The slots with the numbers among the first `k` in raw form.
pub open spec fn raw_upto(tags: &ValueTags, slots: Seq<u64>, k: int) -> Seq<u64> {
    Seq::new(
        slots.len(),
        |i: int|
            if i < k && number_of(tags, slots[i]) is Some {
                number_of(tags, slots[i])->0
            } else {
                slots[i]
            },
    )
}

/// The first slot from `i` on that holds no number, or `length`.
pub open spec fn first_non_number(tags: &ValueTags, slots: Seq<u64>, length: int, i: int) -> int
    decreases length - i,
{
    if i >= length {
        length
    } else if number_of(tags, slots[i]) is None {
        i
    } else {
        first_non_number(tags, slots, length, i + 1)
    }
}

/// The first slot from `i` on that holds neither a number nor a hole, or
/// `length`.
pub open spec fn first_foreign(tags: &ValueTags, slots: Seq<u64>, length: int, i: int) -> int
    decreases length - i,
{
    if i >= length {
        length
    } else if slots[i] != tags.hole && number_of(tags, slots[i]) is None {
        i
    } else {
        first_foreign(tags, slots, length, i + 1)
    }
}

/// There is a hole among the slots from `lo` up to `hi`.
pub open spec fn has_hole(tags: &ValueTags, slots: Seq<u64>, lo: int, hi: int) -> bool {
    exists|i: int| lo <= i < hi && #[trigger] slots[i] == tags.hole
}

impl ArrayState {
    /// The slots are there, and no numeric layout is claimed of an array that
    /// is longer than its capacity.
    pub open spec fn well_formed(self) -> bool {
        &&& self.slots.len() == self.capacity
        &&& self.flags.raw_f64 || self.flags.raw_f64_holes ==> self.length <= self.capacity
    }

    /// The length is one that a dense array can have.
    pub open spec fn sane(self) -> bool {
        self.length <= self.capacity && self.length <= MAX_NUMERIC_LENGTH
    }

    pub open spec fn has_raw(self) -> bool {
        self.is_array && self.flags.raw_f64
    }

    pub open spec fn has_holes(self) -> bool {
        self.is_array && self.flags.raw_f64_holes
    }

    pub open spec fn note(self, n: HeapNote) -> ArrayState {
        ArrayState { notes: self.notes.push(n), ..self }
    }

    pub open spec fn with_flags(self, flags: ArrayFlags) -> ArrayState {
        if self.is_array {
            ArrayState { flags, ..self }
        } else {
            self
        }
    }

    pub open spec fn with_slots(self, slots: Seq<u64>) -> ArrayState {
        ArrayState { slots, ..self }
    }

    pub open spec fn set_raw(self) -> ArrayState {
        self.with_flags(ArrayFlags { raw_f64: true, ..self.flags })
    }

    pub open spec fn set_holes(self) -> ArrayState {
        self.with_flags(ArrayFlags { raw_f64_holes: true, ..self.flags })
    }

    /// Take both claims back; where one was made, dependent code is stale.
    pub open spec fn clear_numeric(self) -> ArrayState {
        let cleared = self.with_flags(
            ArrayFlags { raw_f64: false, raw_f64_holes: false, ..self.flags },
        );
        if self.has_raw() || self.has_holes() {
            cleared.note(HeapNote::RepresentationChanged)
        } else {
            cleared
        }
    }

    /// Bring all elements to raw form and claim the dense layout, unless some
    /// element is no number. A hole stops the walk, but takes no claim back.
    pub open spec fn rebuilt(self, tags: &ValueTags) -> (ArrayState, bool) {
        if !self.sane() {
            (self.clear_numeric(), false)
        } else {
            let k = first_non_number(tags, self.slots, self.length, 0);
            let raw = self.with_slots(raw_upto(tags, self.slots, k));
            if k == self.length {
                (raw.set_raw().note(HeapNote::PointerFree), true)
            } else if self.slots[k] == tags.hole {
                (raw, false)
            } else {
                (raw.clear_numeric(), false)
            }
        }
    }

    /// Bring all numbers to raw form and claim the layout that then holds,
    /// dense or with holes, unless some element is neither. A claim that
    /// already stands is trusted.
    pub open spec fn rebuilt_allowing_holes(self, tags: &ValueTags) -> (ArrayState, bool) {
        if !self.sane() {
            (self.clear_numeric(), false)
        } else if self.has_raw() || self.has_holes() {
            (self, true)
        } else {
            let k = first_foreign(tags, self.slots, self.length, 0);
            let raw = self.with_slots(raw_upto(tags, self.slots, k));
            if k < self.length {
                (raw.clear_numeric(), false)
            } else if has_hole(tags, self.slots, 0, self.length) {
                (raw.set_holes().note(HeapNote::PointerFree), true)
            } else {
                (raw.set_raw().note(HeapNote::PointerFree), true)
            }
        }
    }

    /// The dense layout, claimed already or now.
    pub open spec fn ensured(self, tags: &ValueTags) -> (ArrayState, bool) {
        if self.sane() && self.has_raw() {
            (self, true)
        } else {
            self.rebuilt(tags)
        }
    }

    /// What a store writes: a number goes into an array with a numeric layout
    /// in raw form.
    pub open spec fn store_form(self, tags: &ValueTags, bits: u64) -> u64 {
        if (self.has_raw() || self.has_holes()) && number_of(tags, bits) is Some {
            number_of(tags, bits)->0
        } else {
            bits
        }
    }

    /// An element is written: a value that is no number takes the claims
    /// back, and a number in a dense array is put in raw form.
    pub open spec fn index_written(self, tags: &ValueTags, index: int, bits: u64) -> ArrayState {
        match number_of(tags, bits) {
            None => self.clear_numeric(),
            Some(n) => if self.has_raw() && index < self.length {
                self.with_slots(self.slots.update(index, n))
            } else {
                self
            },
        }
    }

    /// A slot is written, with the layout noted.
    pub open spec fn slot_noted(self, tags: &ValueTags, index: int, bits: u64) -> ArrayState {
        let v = self.store_form(tags, bits);
        self.with_slots(self.slots.update(index, v)).index_written(tags, index, v).note(
            HeapNote::LayoutSlot { index: index as usize, bits: v },
        )
    }

    /// Every element is a number.
    pub open spec fn all_numbers(self, tags: &ValueTags) -> bool {
        self.sane() && first_non_number(tags, self.slots, self.length, 0) == self.length
    }

    /// Claim the dense layout if it can be had, else take the claims back.
    pub open spec fn refreshed(self, tags: &ValueTags) -> ArrayState {
        if self.all_numbers(tags) {
            self.rebuilt(tags).0
        } else {
            self.clear_numeric()
        }
    }

    /// Write barriers for the first `n` slots.
    pub open spec fn barriers(self, n: int) -> ArrayState {
        ArrayState {
            notes: self.notes + Seq::new(
                n as nat,
                |i: int| HeapNote::Barrier { index: i as usize, bits: self.slots[i] },
            ),
            ..self
        }
    }

    /// The layout worked out again after elements were moved about.
    pub open spec fn layout_rebuilt(self, tags: &ValueTags, exact: bool) -> ArrayState {
        let a = self.note(HeapNote::ElementShapeCleared);
        if !a.sane() {
            a.clear_numeric().note(HeapNote::LayoutUnknown)
        } else {
            let b = a.note(
                HeapNote::LayoutFromSlots { length: self.length as usize, exact },
            ).refreshed(tags);
            if b.old_gen {
                b.barriers(b.length)
            } else {
                b
            }
        }
    }

    /// The flags claim nothing untrue of the elements.
    pub open spec fn claims_hold(self, tags: &ValueTags) -> bool {
        &&& self.has_raw() ==> forall|i: int|
            0 <= i < self.length ==> number_of(tags, #[trigger] self.slots[i]) == Some(
                self.slots[i],
            )
        &&& self.has_holes() ==> forall|i: int|
            0 <= i < self.length ==> (#[trigger] self.slots[i] == tags.hole || number_of(
                tags,
                self.slots[i],
            ) == Some(self.slots[i]))
    }
}

proof fn lemma_first_non_number(tags: &ValueTags, slots: Seq<u64>, length: int, i: int)
    requires
        0 <= i <= length,
    ensures
        ({
            let k = first_non_number(tags, slots, length, i);
            &&& i <= k <= length
            &&& forall|j: int| i <= j < k ==> number_of(tags, #[trigger] slots[j]) is Some
            &&& k < length ==> number_of(tags, slots[k]) is None
        }),
    decreases length - i,
{
    if i < length && number_of(tags, slots[i]) is Some {
        lemma_first_non_number(tags, slots, length, i + 1);
    }
}

proof fn lemma_first_foreign(tags: &ValueTags, slots: Seq<u64>, length: int, i: int)
    requires
        0 <= i <= length,
    ensures
        ({
            let k = first_foreign(tags, slots, length, i);
            &&& i <= k <= length
            &&& forall|j: int|
                i <= j < k ==> (#[trigger] slots[j] == tags.hole || number_of(tags, slots[j]) is Some)
            &&& k < length ==> slots[k] != tags.hole && number_of(tags, slots[k]) is None
        }),
    decreases length - i,
{
    if i < length && !(slots[i] != tags.hole && number_of(tags, slots[i]) is None) {
        lemma_first_foreign(tags, slots, length, i + 1);
    }
}

impl ArrayObject {
    fn note(&mut self, n: HeapNote)
        ensures
            final(self)@ == old(self)@.note(n),
    {
        self.notes.push(n);
    }

    fn is_sane(&self) -> (r: bool)
        ensures
            r == self@.sane(),
    {
        self.header.length <= self.header.capacity && self.header.length <= MAX_NUMERIC_LENGTH
    }
}

// ---------------------------------------------------------------------------
// Flags
// ---------------------------------------------------------------------------

/// The flags of an array; none for what is no array.
pub fn array_object_flags(a: &ArrayObject) -> (f: Option<ArrayFlags>)
    ensures
        f == if a.is_array {
            Some(a.flags)
        } else {
            None
        },
{
    if a.is_array {
        Some(a.flags)
    } else {
        None
    }
}

/// Is the array frozen?
pub fn array_is_frozen(a: &ArrayObject) -> (r: bool)
    ensures
        r == (a.is_array && a.flags.frozen),
{
    match array_object_flags(a) {
        Some(f) => f.frozen,
        None => false,
    }
}

/// Is the array sealed, or closed to new elements?
pub fn array_is_sealed_or_no_extend(a: &ArrayObject) -> (r: bool)
    ensures
        r == (a.is_array && (a.flags.sealed || a.flags.no_extend)),
{
    match array_object_flags(a) {
        Some(f) => f.sealed || f.no_extend,
        None => false,
    }
}

/// Freeze one of the two arrays of a template object.
pub fn mark_template_array_frozen(a: &mut ArrayObject)
    ensures
        final(a)@ == old(a)@.with_flags(
            ArrayFlags { frozen: true, sealed: true, no_extend: true, ..old(a).flags },
        ),
{
    if a.is_array {
        a.flags.frozen = true;
        a.flags.sealed = true;
        a.flags.no_extend = true;
    }
}

pub fn array_has_raw_f64_layout_flag(a: &ArrayObject) -> (r: bool)
    ensures
        r == a@.has_raw(),
{
    a.is_array && a.flags.raw_f64
}

pub fn array_has_raw_f64_holes_flag(a: &ArrayObject) -> (r: bool)
    ensures
        r == a@.has_holes(),
{
    a.is_array && a.flags.raw_f64_holes
}

/// Is either numeric layout claimed?
pub fn array_has_raw_f64_layout_or_holes(a: &ArrayObject) -> (r: bool)
    ensures
        r == (a@.has_raw() || a@.has_holes()),
{
    a.is_array && (a.flags.raw_f64 || a.flags.raw_f64_holes)
}

fn set_array_raw_f64_layout_flag(a: &mut ArrayObject)
    ensures
        final(a)@ == old(a)@.set_raw(),
{
    if a.is_array {
        a.flags.raw_f64 = true;
    }
}

fn set_array_raw_f64_holes_flag(a: &mut ArrayObject)
    ensures
        final(a)@ == old(a)@.set_holes(),
{
    if a.is_array {
        a.flags.raw_f64_holes = true;
    }
}

/// Take both numeric claims back.
pub fn clear_array_numeric_layout(a: &mut ArrayObject)
    ensures
        final(a)@ == old(a)@.clear_numeric(),
{
    if a.is_array {
        let had: bool = a.flags.raw_f64 || a.flags.raw_f64_holes;
        a.flags.raw_f64 = false;
        a.flags.raw_f64_holes = false;
        if had {
            a.note(HeapNote::RepresentationChanged);
        }
    }
}

/// Mark an array that was just filled with holes. No slot may have been
/// written since.
pub fn mark_array_raw_f64_holes_fresh(a: &mut ArrayObject)
    ensures
        final(a)@ == old(a)@.set_holes(),
{
    set_array_raw_f64_holes_flag(a);
}

/// A dense numeric array has got holes: the dense claim goes, the claim with
/// holes stands.
pub fn demote_array_raw_f64_dense_to_holes(a: &mut ArrayObject)
    ensures
        final(a)@ == if old(a).is_array {
            old(a)@.with_flags(
                ArrayFlags { raw_f64: false, raw_f64_holes: true, ..old(a).flags },
            ).note(HeapNote::RepresentationChanged)
        } else {
            old(a)@
        },
{
    if a.is_array {
        a.flags.raw_f64 = false;
        a.flags.raw_f64_holes = true;
        a.note(HeapNote::RepresentationChanged);
    }
}

/// Mark an array as an `arguments` object.
pub fn mark_array_as_arguments_object(a: &mut ArrayObject)
    ensures
        final(a)@ == old(a)@.with_flags(ArrayFlags { arguments_object: true, ..old(a).flags }),
{
    if a.is_array {
        a.flags.arguments_object = true;
    }
}

/// Mark an array as an `arguments` object, from compiled code.
pub fn js_array_mark_arguments_object(a: &mut ArrayObject)
    ensures
        final(a)@ == old(a)@.with_flags(ArrayFlags { arguments_object: true, ..old(a).flags }),
{
    mark_array_as_arguments_object(a);
}

/// Is the array an `arguments` object?
pub fn array_has_arguments_object_flag(a: &ArrayObject) -> (r: bool)
    ensures
        r == (a.is_array && a.flags.arguments_object),
{
    a.is_array && a.flags.arguments_object
}

/// The numeric layout that is claimed, if any.
pub fn array_numeric_layout(a: &ArrayObject) -> (layout: Option<NumericArrayLayout>)
    ensures
        layout == if a@.has_raw() {
            Some(NumericArrayLayout::RawF64)
        } else {
            None
        },
{
    if array_has_raw_f64_layout_flag(a) {
        Some(NumericArrayLayout::RawF64)
    } else {
        None
    }
}

/// Claim a numeric layout for elements that the caller has written. Elements
/// of a shared shape are pointers, so that claim goes.
pub fn set_array_numeric_layout(a: &mut ArrayObject, layout: NumericArrayLayout)
    ensures
        final(a)@ == match layout {
            NumericArrayLayout::RawF64 => old(a)@.set_raw(),
        }.note(HeapNote::ElementShapeCleared).note(HeapNote::PointerFree),
{
    match layout {
        NumericArrayLayout::RawF64 => set_array_raw_f64_layout_flag(a),
    }
    a.note(HeapNote::ElementShapeCleared);
    a.note(HeapNote::PointerFree);
}

/// An array was moved, its slots copied as they are: the claims move too.
pub fn transfer_array_numeric_layout(from: &ArrayObject, to: &mut ArrayObject)
    ensures
        final(to)@ == if from@.has_raw() {
            old(to)@.set_raw()
        } else if from@.has_holes() {
            old(to)@.clear_numeric().set_holes()
        } else {
            old(to)@.clear_numeric()
        },
{
    if array_has_raw_f64_layout_flag(from) {
        set_array_raw_f64_layout_flag(to);
    } else if array_has_raw_f64_holes_flag(from) {
        clear_array_numeric_layout(to);
        set_array_raw_f64_holes_flag(to);
    } else {
        clear_array_numeric_layout(to);
    }
}

// ---------------------------------------------------------------------------
// Verifying walks
// ---------------------------------------------------------------------------

/// Is every element a number?
pub fn array_slots_are_numeric(tags: &ValueTags, a: &ArrayObject) -> (r: bool)
    requires
        a@.well_formed(),
    ensures
        r == a@.all_numbers(tags),
{
    if !a.is_sane() {
        return false;
    }
    let length: usize = a.header.length as usize;
    let mut i: usize = 0;
    while i < length
        invariant
            length == a@.length,
            i <= length <= a@.slots.len(),
            a@.sane(),
            first_non_number(tags, a@.slots, length as int, 0) == first_non_number(
                tags,
                a@.slots,
                length as int,
                i as int,
            ),
        decreases length - i,
    {
        if value_bits_to_number(tags, a.slots[i]).is_none() {
            return false;
        }
        i = i + 1;
    }
    true
}

/// Bring all elements to raw form and claim the dense layout, unless some
/// element is no number.
pub fn rebuild_array_numeric_raw_f64(tags: &ValueTags, a: &mut ArrayObject) -> (r: bool)
    requires
        tags.well_formed(),
        old(a)@.well_formed(),
    ensures
        (final(a)@, r) == old(a)@.rebuilt(tags),
{
    if !a.is_sane() {
        clear_array_numeric_layout(a);
        return false;
    }
    let ghost before = a@;
    let length: usize = a.header.length as usize;
    let mut i: usize = 0;
    assert(raw_upto(tags, before.slots, 0) =~= before.slots);
    while i < length
        invariant
            tags.well_formed(),
            before == old(a)@,
            before.well_formed(),
            before.sane(),
            length == before.length,
            i <= length <= before.slots.len(),
            a@ == before.with_slots(raw_upto(tags, before.slots, i as int)),
            first_non_number(tags, before.slots, length as int, 0) == first_non_number(
                tags,
                before.slots,
                length as int,
                i as int,
            ),
        decreases length - i,
    {
        let bits: u64 = a.slots[i];
        assert(bits == before.slots[i as int]);
        if bits == tags.hole {
            return false;
        }
        match value_bits_to_number(tags, bits) {
            None => {
                clear_array_numeric_layout(a);
                return false;
            },
            Some(number) => {
                if number != bits {
                    a.slots.set(i, number);
                }
                assert(a@.slots =~= raw_upto(tags, before.slots, i + 1));
            },
        }
        i = i + 1;
    }
    set_array_raw_f64_layout_flag(a);
    a.note(HeapNote::PointerFree);
    true
}

/// Bring all numbers to raw form and claim the layout that then holds, dense
/// or with holes, unless some element is neither a number nor a hole.
pub fn rebuild_array_numeric_raw_f64_allow_holes(tags: &ValueTags, a: &mut ArrayObject) -> (r: bool)
    requires
        tags.well_formed(),
        old(a)@.well_formed(),
    ensures
        (final(a)@, r) == old(a)@.rebuilt_allowing_holes(tags),
{
    if !a.is_sane() {
        clear_array_numeric_layout(a);
        return false;
    }
    if array_has_raw_f64_layout_flag(a) || array_has_raw_f64_holes_flag(a) {
        return true;
    }
    let ghost before = a@;
    let length: usize = a.header.length as usize;
    let mut saw_hole: bool = false;
    let mut i: usize = 0;
    assert(raw_upto(tags, before.slots, 0) =~= before.slots);
    while i < length
        invariant
            tags.well_formed(),
            before == old(a)@,
            before.well_formed(),
            before.sane(),
            !before.has_raw() && !before.has_holes(),
            length == before.length,
            i <= length <= before.slots.len(),
            a@ == before.with_slots(raw_upto(tags, before.slots, i as int)),
            saw_hole == has_hole(tags, before.slots, 0, i as int),
            first_foreign(tags, before.slots, length as int, 0) == first_foreign(
                tags,
                before.slots,
                length as int,
                i as int,
            ),
        decreases length - i,
    {
        let bits: u64 = a.slots[i];
        assert(bits == before.slots[i as int]);
        if bits == tags.hole {
            saw_hole = true;
            assert(a@.slots =~= raw_upto(tags, before.slots, i + 1));
        } else {
            match value_bits_to_number(tags, bits) {
                None => {
                    clear_array_numeric_layout(a);
                    return false;
                },
                Some(number) => {
                    if number != bits {
                        a.slots.set(i, number);
                    }
                    assert(a@.slots =~= raw_upto(tags, before.slots, i + 1));
                },
            }
        }
        proof {
            if saw_hole && bits != tags.hole {
                let j = choose|j: int| 0 <= j < i && #[trigger] before.slots[j] == tags.hole;
                assert(before.slots[j] == tags.hole);
            }
        }
        i = i + 1;
    }
    if !saw_hole {
        set_array_raw_f64_layout_flag(a);
    } else {
        set_array_raw_f64_holes_flag(a);
    }
    a.note(HeapNote::PointerFree);
    true
}

/// The window `[min_idx, max_idx_exclusive)` cut to the array.
pub open spec fn window(a: ArrayState, min_idx: i32, max_idx_exclusive: i32) -> (int, int) {
    (
        if min_idx < 0 {
            0int
        } else {
            min_idx as int
        },
        if max_idx_exclusive < a.length {
            max_idx_exclusive as int
        } else {
            a.length
        },
    )
}

impl ArrayState {
    /// A numeric layout holds and the window has no holes.
    pub open spec fn dense_in(self, tags: &ValueTags, min_idx: i32, max_idx_exclusive: i32) -> (
        ArrayState,
        bool,
    ) {
        let (a, ok) = self.rebuilt_allowing_holes(tags);
        let (lo, hi) = window(a, min_idx, max_idx_exclusive);
        (a, ok && (a.has_raw() || !has_hole(tags, a.slots, lo, hi)))
    }
}

proof fn lemma_rebuilt_allowing_holes_shape(tags: &ValueTags, a: ArrayState)
    requires
        a.well_formed(),
    ensures
        ({
            let (b, ok) = a.rebuilt_allowing_holes(tags);
            &&& b.well_formed()
            &&& b.length == a.length
            &&& b.capacity == a.capacity
            &&& ok ==> b.sane()
        }),
{
}

/// Bring the array to a numeric layout and require the window to have no
/// holes; holes outside it do not matter.
pub fn rebuild_array_numeric_raw_f64_dense_window(
    tags: &ValueTags,
    a: &mut ArrayObject,
    min_idx: i32,
    max_idx_exclusive: i32,
) -> (r: bool)
    requires
        tags.well_formed(),
        old(a)@.well_formed(),
    ensures
        (final(a)@, r) == old(a)@.dense_in(tags, min_idx, max_idx_exclusive),
{
    proof {
        lemma_rebuilt_allowing_holes_shape(tags, a@);
    }
    if !rebuild_array_numeric_raw_f64_allow_holes(tags, a) {
        return false;
    }
    if array_has_raw_f64_layout_flag(a) {
        return true;
    }
    let lo: i64 = if min_idx < 0 {
        0
    } else {
        min_idx as i64
    };
    let hi: i64 = if (max_idx_exclusive as i64) < a.header.length as i64 {
        max_idx_exclusive as i64
    } else {
        a.header.length as i64
    };
    let ghost b = a@;
    let mut i: i64 = lo;
    while i < hi
        invariant
            0 <= lo <= i,
            i <= hi || hi < lo,
            hi <= b.slots.len() <= u32::MAX,
            a@ == b,
            !b.has_raw(),
            (b, true) == old(a)@.rebuilt_allowing_holes(tags),
            window(b, min_idx, max_idx_exclusive) == (lo as int, hi as int),
            forall|k: int| lo <= k < i ==> #[trigger] b.slots[k] != tags.hole,
        decreases hi - i,
    {
        if a.slots[i as usize] == tags.hole {
            assert(b.slots[i as int] == tags.hole);
            return false;
        }
        i = i + 1;
    }
    true
}

/// As above, and the window holds only integers that fit 32 bits.
pub fn rebuild_array_numeric_raw_f64_dense_window_i32(
    tags: &ValueTags,
    a: &mut ArrayObject,
    min_idx: i32,
    max_idx_exclusive: i32,
) -> (r: bool)
    requires
        tags.well_formed(),
        old(a)@.well_formed(),
    ensures
        ({
            let (b, ok) = old(a)@.dense_in(tags, min_idx, max_idx_exclusive);
            let (lo, hi) = window(b, min_idx, max_idx_exclusive);
            &&& final(a)@ == b
            &&& r == (ok && forall|i: int| lo <= i < hi ==> is_int32_double(#[trigger] b.slots[i]))
        }),
{
    proof {
        lemma_rebuilt_allowing_holes_shape(tags, a@);
    }
    if !rebuild_array_numeric_raw_f64_dense_window(tags, a, min_idx, max_idx_exclusive) {
        return false;
    }
    let lo: i64 = if min_idx < 0 {
        0
    } else {
        min_idx as i64
    };
    let hi: i64 = if (max_idx_exclusive as i64) < a.header.length as i64 {
        max_idx_exclusive as i64
    } else {
        a.header.length as i64
    };
    let ghost b = a@;
    let mut i: i64 = lo;
    while i < hi
        invariant
            0 <= lo <= i,
            i <= hi || hi < lo,
            hi <= b.slots.len() <= u32::MAX,
            a@ == b,
            (b, true) == old(a)@.dense_in(tags, min_idx, max_idx_exclusive),
            window(b, min_idx, max_idx_exclusive) == (lo as int, hi as int),
            forall|k: int| lo <= k < i ==> is_int32_double(#[trigger] b.slots[k]),
        decreases hi - i,
    {
        if !double_is_int32(a.slots[i as usize]) {
            assert(!is_int32_double(b.slots[i as int]));
            return false;
        }
        i = i + 1;
    }
    true
}

/// The dense layout, claimed already or now.
pub fn ensure_array_numeric_raw_f64(tags: &ValueTags, a: &mut ArrayObject) -> (r: bool)
    requires
        tags.well_formed(),
        old(a)@.well_formed(),
    ensures
        (final(a)@, r) == old(a)@.ensured(tags),
{
    if !a.is_sane() {
        clear_array_numeric_layout(a);
        return false;
    }
    if array_has_raw_f64_layout_flag(a) {
        return true;
    }
    rebuild_array_numeric_raw_f64(tags, a)
}

/// Claim the dense layout if it can be had, else take the claims back.
pub fn refresh_array_numeric_layout(tags: &ValueTags, a: &mut ArrayObject)
    requires
        tags.well_formed(),
        old(a)@.well_formed(),
    ensures
        final(a)@ == old(a)@.refreshed(tags),
{
    if array_slots_are_numeric(tags, a) {
        rebuild_array_numeric_raw_f64(tags, a);
    } else {
        clear_array_numeric_layout(a);
    }
}

/// Claim the dense layout if it can be had: 1 if so, else 0 with the claims
/// taken back.
pub fn js_array_mark_numeric_f64_layout(tags: &ValueTags, a: &mut ArrayObject) -> (r: i32)
    requires
        tags.well_formed(),
        old(a)@.well_formed(),
    ensures
        final(a)@ == old(a)@.refreshed(tags),
        r == if old(a)@.all_numbers(tags) {
            1int
        } else {
            0
        },
{
    if !array_slots_are_numeric(tags, a) {
        clear_array_numeric_layout(a);
        return 0;
    }
    rebuild_array_numeric_raw_f64(tags, a);
    1
}

/// Take the numeric claims back.
pub fn js_array_clear_numeric_layout(a: &mut ArrayObject)
    ensures
        final(a)@ == old(a)@.clear_numeric(),
{
    clear_array_numeric_layout(a);
}

/// Is the array dense and numeric? While the last slot of an array with the
/// claim of holes is a hole, the answer is no without a walk.
pub fn js_array_is_numeric_f64_layout(tags: &ValueTags, a: &mut ArrayObject) -> (r: i32)
    requires
        tags.well_formed(),
        old(a)@.well_formed(),
    ensures
        ({
            let b = old(a)@;
            let (after, yes) = if b.has_raw() {
                (b, true)
            } else if b.has_holes() && b.length > 0 && b.slots[b.length - 1] == tags.hole {
                (b, false)
            } else {
                b.rebuilt(tags)
            };
            final(a)@ == after && r == if yes {
                1int
            } else {
                0
            }
        }),
{
    if array_has_raw_f64_layout_flag(a) {
        return 1;
    }
    if array_has_raw_f64_holes_flag(a) {
        let length: usize = a.header.length as usize;
        if length > 0 && a.slots[length - 1] == tags.hole {
            return 0;
        }
    }
    if rebuild_array_numeric_raw_f64(tags, a) {
        return 1;
    }
    0
}

/// Declare that every element will be a pointer. Only an empty array can be
/// declared so; the declaration and a numeric layout exclude each other.
pub fn js_array_declare_all_pointer_elements(a: &mut ArrayObject)
    ensures
        final(a)@ == if old(a)@.length == 0 {
            old(a)@.clear_numeric().note(HeapNote::AllPointers)
        } else {
            old(a)@
        },
{
    if a.header.length != 0 {
        return;
    }
    clear_array_numeric_layout(a);
    a.note(HeapNote::AllPointers);
}

// ---------------------------------------------------------------------------
// Stores
// ---------------------------------------------------------------------------

/// The form in which a value is stored: in an array with a numeric layout a
/// number takes raw form.
pub fn canonicalize_array_numeric_store_bits(tags: &ValueTags, a: &ArrayObject, bits: u64) -> (v:
    u64)
    ensures
        v == a@.store_form(tags, bits),
{
    if array_has_raw_f64_layout_or_holes(a) {
        if let Some(number) = value_bits_to_number(tags, bits) {
            return number;
        }
    }
    bits
}

/// A value was written somewhere: one that is no number takes the numeric
/// claims back.
pub fn note_array_numeric_write(tags: &ValueTags, a: &mut ArrayObject, bits: u64)
    ensures
        final(a)@ == if number_of(tags, bits) is None {
            old(a)@.clear_numeric()
        } else {
            old(a)@
        },
{
    if !value_bits_are_numeric(tags, bits) {
        clear_array_numeric_layout(a);
    }
}

/// A value was written somewhere, seen from compiled code.
pub fn js_array_note_numeric_write(tags: &ValueTags, a: &mut ArrayObject, bits: u64)
    ensures
        final(a)@ == if number_of(tags, bits) is None {
            old(a)@.clear_numeric()
        } else {
            old(a)@
        },
{
    note_array_numeric_write(tags, a, bits);
}

/// An element was written: one that is no number takes the numeric claims
/// back, a number in a dense array is put in raw form. The result is what the
/// element now holds.
pub fn note_array_numeric_index_write(
    tags: &ValueTags,
    a: &mut ArrayObject,
    index: usize,
    bits: u64,
) -> (v: u64)
    requires
        old(a)@.well_formed(),
    ensures
        final(a)@ == old(a)@.index_written(tags, index as int, bits),
        v == if old(a)@.has_raw() && index < old(a)@.length && number_of(tags, bits) is Some {
            number_of(tags, bits)->0
        } else {
            bits
        },
{
    match value_bits_to_number(tags, bits) {
        None => {
            clear_array_numeric_layout(a);
            bits
        },
        Some(number) => {
            if array_has_raw_f64_layout_flag(a) && index < a.header.length as usize {
                a.slots.set(index, number);
                number
            } else {
                bits
            }
        },
    }
}

/// The element at `index` of a dense numeric array, in raw form. Nothing
/// where an index has attributes of its own, where there is no such element,
/// or where the array cannot be made dense and numeric.
pub fn array_numeric_raw_f64_get(tags: &ValueTags, a: &mut ArrayObject, index: u32) -> (v: Option<
    u64,
>)
    requires
        tags.well_formed(),
        old(a)@.well_formed(),
    ensures
        ({
            let b = old(a)@;
            if (b.is_array && b.flags.descriptors) || index >= b.length {
                final(a)@ == b && v is None
            } else {
                let (c, ok) = b.ensured(tags);
                final(a)@ == c && v == if ok {
                    Some(c.slots[index as int])
                } else {
                    None
                }
            }
        }),
{
    if a.is_array && a.flags.descriptors {
        return None;
    }
    if index >= a.header.length {
        return None;
    }
    if !ensure_array_numeric_raw_f64(tags, a) {
        return None;
    }
    Some(a.slots[index as usize])
}

/// Store at an index of a dense numeric array. False where an index has
/// attributes of its own, where there is no such element, where the array
/// cannot be made dense and numeric, and where the value is no number; in
/// that last case it is stored and the claims are taken back.
pub fn array_numeric_raw_f64_set_inbounds(
    tags: &ValueTags,
    a: &mut ArrayObject,
    index: u32,
    value: u64,
) -> (r: bool)
    requires
        tags.well_formed(),
        old(a)@.well_formed(),
    ensures
        ({
            let b = old(a)@;
            let v = b.store_form(tags, value);
            let (c, ok) = b.ensured(tags);
            if index >= b.length || (b.is_array && b.flags.descriptors) {
                final(a)@ == b && !r
            } else if !ok {
                final(a)@ == c && !r
            } else {
                &&& final(a)@ == c.with_slots(c.slots.update(index as int, v)).index_written(
                    tags,
                    index as int,
                    v,
                ).note(HeapNote::LayoutSlot { index: index as usize, bits: v })
                &&& r == (number_of(tags, value) is Some)
            }
        }),
{
    if index >= a.header.length {
        return false;
    }
    if a.is_array && a.flags.descriptors {
        return false;
    }
    let v: u64 = canonicalize_array_numeric_store_bits(tags, a, value);
    if !ensure_array_numeric_raw_f64(tags, a) {
        return false;
    }
    a.slots.set(index as usize, v);
    note_array_numeric_index_write(tags, a, index as usize, v);
    a.note(HeapNote::LayoutSlot { index: index as usize, bits: v });
    value_bits_are_numeric(tags, value)
}

/// Append a number to a dense numeric array that has room. False, with
/// nothing appended, where it cannot be made dense and numeric, where there
/// is no room, and where the value is no number; that last takes the claims
/// back.
pub fn array_numeric_raw_f64_push_inbounds(
    tags: &ValueTags,
    a: &mut ArrayObject,
    value: u64,
) -> (r: bool)
    requires
        tags.well_formed(),
        old(a)@.well_formed(),
    ensures
        ({
            let (c, ok) = old(a)@.ensured(tags);
            if !ok || c.length >= c.capacity || c.capacity > MAX_NUMERIC_LENGTH {
                final(a)@ == c && !r
            } else {
                match number_of(tags, value) {
                    None => final(a)@ == c.clear_numeric() && !r,
                    Some(n) => final(a)@ == (ArrayState {
                        length: c.length + 1,
                        ..c.with_slots(c.slots.update(c.length, n)).note(
                            HeapNote::LayoutSlot { index: c.length as usize, bits: n },
                        )
                    }) && r,
                }
            }
        }),
{
    if !ensure_array_numeric_raw_f64(tags, a) {
        return false;
    }
    let length: u32 = a.header.length;
    let capacity: u32 = a.header.capacity;
    if length >= capacity || length > MAX_NUMERIC_LENGTH || capacity > MAX_NUMERIC_LENGTH {
        return false;
    }
    match value_bits_to_number(tags, value) {
        None => {
            clear_array_numeric_layout(a);
            false
        },
        Some(number) => {
            a.slots.set(length as usize, number);
            a.note(HeapNote::LayoutSlot { index: length as usize, bits: number });
            a.header.length = length + 1;
            true
        },
    }
}

/// Fill a gap slot with a hole. The numeric claims are left to the caller.
pub fn note_array_hole_fill_slot(tags: &ValueTags, a: &mut ArrayObject, index: usize)
    requires
        old(a)@.well_formed(),
        index < old(a)@.capacity,
    ensures
        final(a)@ == old(a)@.with_slots(old(a)@.slots.update(index as int, tags.hole)).note(
            HeapNote::LayoutSlot { index, bits: tags.hole },
        ).note(HeapNote::Barrier { index, bits: tags.hole }),
{
    a.slots.set(index, tags.hole);
    a.note(HeapNote::LayoutSlot { index, bits: tags.hole });
    a.note(HeapNote::Barrier { index, bits: tags.hole });
}

/// Write a slot, note its layout and run the write barrier.
pub fn note_array_slot(tags: &ValueTags, a: &mut ArrayObject, index: usize, bits: u64)
    requires
        old(a)@.well_formed(),
        index < old(a)@.capacity,
    ensures
        final(a)@ == old(a)@.slot_noted(tags, index as int, bits).note(
            HeapNote::Barrier { index, bits: old(a)@.store_form(tags, bits) },
        ),
{
    let v: u64 = canonicalize_array_numeric_store_bits(tags, a, bits);
    a.slots.set(index, v);
    note_array_numeric_index_write(tags, a, index, v);
    a.note(HeapNote::LayoutSlot { index, bits: v });
    a.note(HeapNote::Barrier { index, bits: v });
}

/// Write a slot of a fresh array and note its layout. An array that is born
/// in the old generation still needs the barrier.
pub fn note_array_slot_layout_only(tags: &ValueTags, a: &mut ArrayObject, index: usize, bits: u64)
    requires
        old(a)@.well_formed(),
        index < old(a)@.capacity,
    ensures
        ({
            let b = old(a)@.slot_noted(tags, index as int, bits);
            final(a)@ == if b.old_gen {
                b.note(HeapNote::Barrier { index, bits: old(a)@.store_form(tags, bits) })
            } else {
                b
            }
        }),
{
    let v: u64 = canonicalize_array_numeric_store_bits(tags, a, bits);
    a.slots.set(index, v);
    note_array_numeric_index_write(tags, a, index, v);
    a.note(HeapNote::LayoutSlot { index, bits: v });
    if a.old_gen {
        a.note(HeapNote::Barrier { index, bits: v });
    }
}

/// Store to a slot.
pub fn store_array_slot(tags: &ValueTags, a: &mut ArrayObject, index: usize, bits: u64)
    requires
        old(a)@.well_formed(),
        index < old(a)@.capacity,
    ensures
        ({
            let v = old(a)@.store_form(tags, bits);
            let b = old(a)@.index_written(tags, index as int, v);
            let stored = if b.has_raw() && number_of(tags, v) is Some {
                number_of(tags, v)->0
            } else {
                v
            };
            final(a)@ == b.with_slots(b.slots.update(index as int, stored)).note(
                HeapNote::StoredSlot { index, bits: stored },
            )
        }),
{
    let v: u64 = canonicalize_array_numeric_store_bits(tags, a, bits);
    note_array_numeric_index_write(tags, a, index, v);
    let stored: u64 = if array_has_raw_f64_layout_flag(a) {
        match value_bits_to_number(tags, v) {
            Some(number) => number,
            None => {
                clear_array_numeric_layout(a);
                v
            },
        }
    } else {
        v
    };
    a.slots.set(index, stored);
    a.note(HeapNote::StoredSlot { index, bits: stored });
}

// ---------------------------------------------------------------------------
// Whole-array operations
// ---------------------------------------------------------------------------

/// The size in bytes of an array with the given capacity.
pub fn array_byte_size(capacity: usize) -> (n: usize)
    requires
        8 + 8 * capacity <= usize::MAX,
    ensures
        n == 8 + 8 * capacity,
{
    8 + capacity * 8
}

/// How many element slots the collector visits; none of an array whose
/// header makes no sense for a dense array.
pub fn gc_element_slot_range(a: &ArrayObject) -> (n: Option<usize>)
    ensures
        n == if a@.sane() {
            Some(a@.length as usize)
        } else {
            None
        },
{
    if a.is_sane() {
        Some(a.header.length as usize)
    } else {
        None
    }
}

fn emit_barriers(a: &mut ArrayObject, length: usize)
    requires
        length <= old(a)@.slots.len(),
    ensures
        final(a)@ == old(a)@.barriers(length as int),
{
    let ghost before = a@;
    let mut i: usize = 0;
    assert(before.notes =~= before.barriers(0).notes);
    while i < length
        invariant
            i <= length <= before.slots.len(),
            a@ == before.barriers(i as int),
        decreases length - i,
    {
        let bits: u64 = a.slots[i];
        a.note(HeapNote::Barrier { index: i, bits });
        assert(a@.notes =~= before.barriers(i + 1).notes);
        i = i + 1;
    }
}

fn rebuild_layout(tags: &ValueTags, a: &mut ArrayObject, exact: bool)
    requires
        tags.well_formed(),
        old(a)@.well_formed(),
    ensures
        final(a)@ == old(a)@.layout_rebuilt(tags, exact),
{
    a.note(HeapNote::ElementShapeCleared);
    if !a.is_sane() {
        clear_array_numeric_layout(a);
        a.note(HeapNote::LayoutUnknown);
        return;
    }
    let length: usize = a.header.length as usize;
    a.note(HeapNote::LayoutFromSlots { length, exact });
    refresh_array_numeric_layout(tags, a);
    if a.old_gen {
        emit_barriers(a, length);
    }
}

/// Work the layout out again after elements were moved about.
pub fn rebuild_array_layout(tags: &ValueTags, a: &mut ArrayObject)
    requires
        tags.well_formed(),
        old(a)@.well_formed(),
    ensures
        final(a)@ == old(a)@.layout_rebuilt(tags, false),
{
    rebuild_layout(tags, a, false);
}

/// As above, with an exact pointer layout.
pub fn rebuild_array_layout_exact(tags: &ValueTags, a: &mut ArrayObject)
    requires
        tags.well_formed(),
        old(a)@.well_formed(),
    ensures
        final(a)@ == old(a)@.layout_rebuilt(tags, true),
{
    rebuild_layout(tags, a, true);
}

/// Nothing is known any more of what the array holds.
pub fn mark_array_layout_unknown(a: &mut ArrayObject)
    ensures
        final(a)@ == old(a)@.clear_numeric().note(HeapNote::LayoutUnknown),
{
    clear_array_numeric_layout(a);
    a.note(HeapNote::LayoutUnknown);
}

/// Repeat the write barriers of an old array after it was grown, for the
/// slots that the pointer layout names, or for all where it names none.
pub fn replay_array_growth_write_barriers(a: &mut ArrayObject, pointer_slots: &Option<Vec<usize>>)
    requires
        old(a)@.slots.len() == old(a)@.capacity,
        pointer_slots matches Some(p) ==> forall|i: int|
            0 <= i < p@.len() ==> #[trigger] p@[i] < old(a)@.capacity,
    ensures
        ({
            let b = old(a)@;
            if !b.old_gen || b.length == 0 || b.length > MAX_NUMERIC_LENGTH {
                final(a)@ == b
            } else {
                match *pointer_slots {
                    Some(p) => final(a)@ == (ArrayState {
                        notes: b.notes + Seq::new(
                            p@.len(),
                            |i: int|
                                HeapNote::Barrier { index: p@[i], bits: b.slots[p@[i] as int] },
                        ),
                        ..b
                    }),
                    None => final(a)@ == b.note(
                        HeapNote::BarrierRange { length: b.length as usize },
                    ),
                }
            }
        }),
{
    if !a.old_gen {
        return;
    }
    let length: usize = a.header.length as usize;
    if length == 0 || length > MAX_NUMERIC_LENGTH as usize {
        return;
    }
    match pointer_slots {
        Some(p) => {
            let ghost b = a@;
            let mut i: usize = 0;
            assert(b.notes =~= b.notes + Seq::<HeapNote>::empty());
            while i < p.len()
                invariant
                    i <= p@.len(),
                    b.slots.len() == b.capacity,
                    forall|k: int| 0 <= k < p@.len() ==> #[trigger] p@[k] < b.capacity,
                    a@ == (ArrayState { notes: a@.notes, ..b }),
                    a@.notes =~= b.notes + Seq::new(
                        i as nat,
                        |k: int| HeapNote::Barrier { index: p@[k], bits: b.slots[p@[k] as int] },
                    ),
                decreases p@.len() - i,
            {
                let index: usize = p[i];
                let bits: u64 = a.slots[index];
                a.note(HeapNote::Barrier { index, bits });
                i = i + 1;
            }
        },
        None => {
            a.note(HeapNote::BarrierRange { length });
        },
    }
}

// ---------------------------------------------------------------------------
// Laws
// ---------------------------------------------------------------------------

proof fn lemma_raw_upto(tags: &ValueTags, slots: Seq<u64>, k: int)
    ensures
        forall|i: int|
            0 <= i < slots.len() ==> {
                let after = #[trigger] raw_upto(tags, slots, k)[i];
                &&& number_of(tags, after) == number_of(tags, slots[i])
                &&& number_of(tags, slots[i]) is None ==> after == slots[i]
                &&& i < k && number_of(tags, slots[i]) is Some ==> number_of(tags, after) == Some(
                    after,
                )
            },
{
    assert forall|i: int| 0 <= i < slots.len() implies {
        let after = #[trigger] raw_upto(tags, slots, k)[i];
        &&& number_of(tags, after) == number_of(tags, slots[i])
        &&& number_of(tags, slots[i]) is None ==> after == slots[i]
        &&& i < k && number_of(tags, slots[i]) is Some ==> number_of(tags, after) == Some(after)
    } by {
        if number_of(tags, slots[i]) is Some {
            crate::nanbox::law_raw_form_is_stable(tags, slots[i]);
        }
    }
}

/// A walk over the elements changes no element's meaning: each holds the same
/// number as before, and what is no number is untouched.
pub proof fn law_walks_keep_the_elements(tags: &ValueTags, a: ArrayState)
    requires
        a.well_formed(),
    ensures
        forall|i: int|
            0 <= i < a.capacity ==> {
                let after = #[trigger] a.rebuilt(tags).0.slots[i];
                &&& number_of(tags, after) == number_of(tags, a.slots[i])
                &&& number_of(tags, a.slots[i]) is None ==> after == a.slots[i]
            },
        forall|i: int|
            0 <= i < a.capacity ==> {
                let after = #[trigger] a.rebuilt_allowing_holes(tags).0.slots[i];
                &&& number_of(tags, after) == number_of(tags, a.slots[i])
                &&& number_of(tags, a.slots[i]) is None ==> after == a.slots[i]
            },
        a.rebuilt(tags).0.length == a.length,
        a.rebuilt_allowing_holes(tags).0.length == a.length,
{
    let k = first_non_number(tags, a.slots, a.length, 0);
    let h = first_foreign(tags, a.slots, a.length, 0);
    lemma_raw_upto(tags, a.slots, k);
    lemma_raw_upto(tags, a.slots, h);
}

/// What a walk claims is true, and claims that were true before it still are.
pub proof fn law_walks_claim_only_what_holds(tags: &ValueTags, a: ArrayState)
    requires
        tags.well_formed(),
        0 <= a.length,
        a.well_formed(),
        a.claims_hold(tags),
    ensures
        a.rebuilt(tags).0.claims_hold(tags),
        a.rebuilt(tags).0.well_formed(),
        a.rebuilt_allowing_holes(tags).0.claims_hold(tags),
        a.rebuilt_allowing_holes(tags).0.well_formed(),
{
    if a.sane() {
        let k = first_non_number(tags, a.slots, a.length, 0);
        let h = first_foreign(tags, a.slots, a.length, 0);
        lemma_first_non_number(tags, a.slots, a.length, 0);
        lemma_first_foreign(tags, a.slots, a.length, 0);
        lemma_raw_upto(tags, a.slots, k);
        lemma_raw_upto(tags, a.slots, h);
        let b = a.rebuilt(tags).0;
        assert forall|i: int| 0 <= i < a.length && b.has_raw() implies number_of(
            tags,
            #[trigger] b.slots[i],
        ) == Some(b.slots[i]) by {
            if a.has_raw() {
                assert(number_of(tags, a.slots[i]) == Some(a.slots[i]));
            }
        }
        assert forall|i: int| 0 <= i < a.length && b.has_holes() implies (#[trigger] b.slots[i]
            == tags.hole || number_of(tags, b.slots[i]) == Some(b.slots[i])) by {
            assert(a.slots[i] == tags.hole || number_of(tags, a.slots[i]) == Some(a.slots[i]));
        }
        let c = a.rebuilt_allowing_holes(tags).0;
        if !a.has_raw() && !a.has_holes() && h == a.length {
            assert forall|i: int| 0 <= i < a.length implies (#[trigger] c.slots[i] == tags.hole
                || number_of(tags, c.slots[i]) == Some(c.slots[i])) by {
                assert(a.slots[i] == tags.hole || number_of(tags, a.slots[i]) is Some);
            }
        }
    }
}

/// A successful dense walk leaves every element a number in raw form.
pub proof fn law_dense_means_dense(tags: &ValueTags, a: ArrayState)
    requires
        tags.well_formed(),
        0 <= a.length,
        a.well_formed(),
        a.claims_hold(tags),
        a.ensured(tags).1,
    ensures
        forall|i: int|
            0 <= i < a.length ==> number_of(tags, #[trigger] a.ensured(tags).0.slots[i]) == Some(
                a.ensured(tags).0.slots[i],
            ),
{
    lemma_first_non_number(tags, a.slots, a.length, 0);
    lemma_raw_upto(tags, a.slots, a.length);
    if !(a.sane() && a.has_raw()) {
        let b = a.rebuilt(tags).0;
        assert forall|i: int| 0 <= i < a.length implies number_of(tags, #[trigger] b.slots[i])
            == Some(b.slots[i]) by {
            assert(number_of(tags, a.slots[i]) is Some);
        }
    }
}

/// Whatever is stored, the claims stay true.
pub proof fn law_stores_keep_the_claims(tags: &ValueTags, a: ArrayState, index: int, bits: u64)
    requires
        tags.well_formed(),
        a.well_formed(),
        a.claims_hold(tags),
        0 <= index < a.capacity,
    ensures
        a.slot_noted(tags, index, bits).claims_hold(tags),
        a.slot_noted(tags, index, bits).well_formed(),
{
    if number_of(tags, bits) is Some {
        crate::nanbox::law_raw_form_is_stable(tags, bits);
    }
    let b = a.slot_noted(tags, index, bits);
    if b.has_raw() {
        assert forall|i: int| 0 <= i < b.length implies number_of(tags, #[trigger] b.slots[i])
            == Some(b.slots[i]) by {
            if i != index {
                assert(b.slots[i] == a.slots[i]);
            }
        }
    }
    if b.has_holes() {
        assert forall|i: int| 0 <= i < b.length implies (#[trigger] b.slots[i] == tags.hole
            || number_of(tags, b.slots[i]) == Some(b.slots[i])) by {
            if i != index {
                assert(b.slots[i] == a.slots[i]);
            }
        }
    }
}

/// A store that is no number leaves no numeric claim behind.
pub proof fn law_foreign_stores_clear_the_claims(
    tags: &ValueTags,
    a: ArrayState,
    index: int,
    bits: u64,
)
    requires
        number_of(tags, bits) is None,
    ensures
        !a.slot_noted(tags, index, bits).has_raw(),
        !a.slot_noted(tags, index, bits).has_holes(),
{
}

/// Filling a gap of a numeric array with holes and demoting it keeps the
/// claims true.
pub proof fn law_hole_fill_then_demote_keeps_the_claims(
    tags: &ValueTags,
    a: ArrayState,
    index: int,
)
    requires
        tags.well_formed(),
        a.well_formed(),
        a.claims_hold(tags),
        a.has_raw() || a.has_holes(),
        0 <= index < a.capacity,
    ensures
        ({
            let filled = a.with_slots(a.slots.update(index, tags.hole));
            filled.with_flags(
                ArrayFlags { raw_f64: false, raw_f64_holes: true, ..a.flags },
            ).claims_hold(tags)
        }),
{
    let filled = a.with_slots(a.slots.update(index, tags.hole));
    assert forall|i: int| 0 <= i < a.length implies (#[trigger] filled.slots[i] == tags.hole
        || number_of(tags, filled.slots[i]) == Some(filled.slots[i])) by {
        if i != index {
            assert(filled.slots[i] == a.slots[i]);
        }
    }
}

/// An array that is moved with its slots keeps true claims.
pub proof fn law_transfer_keeps_the_claims(tags: &ValueTags, from: ArrayState, to: ArrayState)
    requires
        from.claims_hold(tags),
        to.length == from.length,
        forall|i: int| 0 <= i < from.length ==> #[trigger] to.slots[i] == from.slots[i],
    ensures
        (if from.has_raw() {
            to.set_raw()
        } else if from.has_holes() {
            to.clear_numeric().set_holes()
        } else {
            to.clear_numeric()
        }).claims_hold(tags),
{
    if from.has_raw() {
        assert forall|i: int| 0 <= i < to.length implies number_of(tags, #[trigger] to.slots[i])
            == Some(to.slots[i]) by {
            assert(to.slots[i] == from.slots[i]);
        }
    } else if from.has_holes() {
        assert forall|i: int| 0 <= i < to.length implies (#[trigger] to.slots[i] == tags.hole
            || number_of(tags, to.slots[i]) == Some(to.slots[i])) by {
            assert(to.slots[i] == from.slots[i]);
        }
    }
}

/// A number appended to a dense numeric array, in raw form, keeps the claims
/// true, and the elements before it as they were.
pub proof fn law_push_keeps_the_claims(tags: &ValueTags, a: ArrayState, value: u64)
    requires
        a.well_formed(),
        a.claims_hold(tags),
        0 <= a.length < a.capacity,
        number_of(tags, value) is Some,
    ensures
        ({
            let pushed = ArrayState {
                length: a.length + 1,
                ..a.with_slots(a.slots.update(a.length, number_of(tags, value)->0))
            };
            &&& pushed.claims_hold(tags)
            &&& pushed.well_formed()
            &&& pushed.slots.take(a.length) == a.slots.take(a.length)
        }),
{
    let n = number_of(tags, value)->0;
    crate::nanbox::law_raw_form_is_stable(tags, value);
    let pushed = ArrayState {
        length: a.length + 1,
        ..a.with_slots(a.slots.update(a.length, n))
    };
    assert(pushed.slots.take(a.length) =~= a.slots.take(a.length));
    if a.has_raw() {
        assert forall|i: int| 0 <= i < pushed.length implies number_of(
            tags,
            #[trigger] pushed.slots[i],
        ) == Some(pushed.slots[i]) by {
            if i < a.length {
                assert(pushed.slots[i] == a.slots[i]);
            }
        }
    }
    if a.has_holes() {
        assert forall|i: int| 0 <= i < pushed.length implies (#[trigger] pushed.slots[i]
            == tags.hole || number_of(tags, pushed.slots[i]) == Some(pushed.slots[i])) by {
            if i < a.length {
                assert(pushed.slots[i] == a.slots[i]);
            }
        }
    }
}

/// A fresh array of holes may be marked as one.
pub proof fn law_fresh_holes_claim_holds(tags: &ValueTags, a: ArrayState)
    requires
        !a.has_raw(),
        forall|i: int| 0 <= i < a.length ==> #[trigger] a.slots[i] == tags.hole,
    ensures
        a.set_holes().claims_hold(tags),
{
}

/// The two states differ at most in the numeric flags, the slots and what the
/// collector was told.
pub open spec fn differ_in_layout_only(a: ArrayState, b: ArrayState) -> bool {
    &&& b.length == a.length
    &&& b.capacity == a.capacity
    &&& b.is_array == a.is_array
    &&& b.old_gen == a.old_gen
    &&& b.flags == (ArrayFlags {
        raw_f64: b.flags.raw_f64,
        raw_f64_holes: b.flags.raw_f64_holes,
        ..a.flags
    })
}

/// An array of numbers is brought to raw form: every element is the raw form
/// of the number it was, the array claims so, and the collector learns that it
/// holds no pointers. Nothing else changes.
pub proof fn law_numbers_are_brought_to_raw_form(tags: &ValueTags, a: ArrayState, j: int)
    requires
        a.well_formed(),
        0 <= a.length <= a.capacity,
        a.length <= 16_000_000,
        forall|i: int| 0 <= i < a.length ==> number_of(tags, #[trigger] a.slots[i]) is Some,
    ensures
        ({
            let (b, ok) = a.rebuilt(tags);
            &&& ok
            &&& a.is_array ==> b.flags.raw_f64
            &&& b.notes == a.notes.push(HeapNote::PointerFree)
            &&& differ_in_layout_only(a, b)
            &&& b.slots.len() == a.slots.len()
            &&& 0 <= j < a.length ==> Some(b.slots[j]) == number_of(tags, a.slots[j])
            &&& a.length <= j < a.slots.len() ==> b.slots[j] == a.slots[j]
            &&& a.all_numbers(tags)
            &&& a.refreshed(tags) == b
        }),
{
    lemma_first_non_number(tags, a.slots, a.length, 0);
    let k = first_non_number(tags, a.slots, a.length, 0);
    if k < a.length {
        assert(number_of(tags, a.slots[k]) is Some);
    }
    if 0 <= j < a.length {
        assert(number_of(tags, a.slots[j]) is Some);
    }
}

/// One element that is neither a number nor a hole takes the claims away, and
/// one that is a hole only keeps the dense claim from being made. Neither is
/// reported as an array of numbers.
pub proof fn law_other_elements_stop_the_walk(tags: &ValueTags, a: ArrayState, j: int)
    requires
        tags.well_formed(),
        a.well_formed(),
        0 <= j < a.length <= a.capacity,
        a.length <= 16_000_000,
        number_of(tags, a.slots[j]) is None,
    ensures
        ({
            let (b, ok) = a.rebuilt(tags);
            let (c, held) = a.rebuilt_allowing_holes(tags);
            &&& !ok
            &&& !a.all_numbers(tags)
            &&& !a.refreshed(tags).has_raw() && !a.refreshed(tags).has_holes()
            &&& (forall|i: int| 0 <= i < a.length ==> #[trigger] a.slots[i] != tags.hole) ==> {
                &&& !b.has_raw() && !b.has_holes()
                &&& a.claims_hold(tags) ==> !held && !c.has_raw() && !c.has_holes()
            }
            &&& (forall|i: int|
                0 <= i < a.length ==> #[trigger] a.slots[i] == tags.hole || number_of(
                    tags,
                    a.slots[i],
                ) is Some) ==> {
                &&& b.flags == a.flags && b.notes == a.notes
                &&& held
                &&& !a.has_raw() && !a.has_holes() && a.is_array ==> c.flags.raw_f64_holes
                    && !c.has_raw() && c.notes == a.notes.push(HeapNote::PointerFree)
            }
            &&& differ_in_layout_only(a, b)
            &&& differ_in_layout_only(a, c)
        }),
{
    lemma_first_non_number(tags, a.slots, a.length, 0);
    lemma_first_foreign(tags, a.slots, a.length, 0);
    let k = first_non_number(tags, a.slots, a.length, 0);
    let f = first_foreign(tags, a.slots, a.length, 0);
    assert(k <= j);
    assert(number_of(tags, a.slots[k]) is None);
    if forall|i: int| 0 <= i < a.length ==> #[trigger] a.slots[i] != tags.hole {
        assert(a.slots[k] != tags.hole);
        assert(a.slots[j] != tags.hole);
        assert(f <= j);
        if a.claims_hold(tags) {
            if a.has_raw() {
                assert(number_of(tags, a.slots[j]) == Some(a.slots[j]));
            }
            if a.has_holes() {
                assert(a.slots[j] == tags.hole);
            }
        }
    }
    if forall|i: int|
        0 <= i < a.length ==> #[trigger] a.slots[i] == tags.hole || number_of(tags, a.slots[i])
            is Some {
        assert(a.slots[k] == tags.hole);
        assert(a.slots[j] == tags.hole);
        if f < a.length {
            assert(a.slots[f] == tags.hole || number_of(tags, a.slots[f]) is Some);
        }
        assert(has_hole(tags, a.slots, 0, a.length));
    }
}

/// Without holes the walk that allows them makes the dense claim. An array
/// that already has a claim is left as it is, and one whose lengths make no
/// sense loses its claims.
pub proof fn law_holes_are_claimed_only_where_there_are_some(tags: &ValueTags, a: ArrayState)
    requires
        tags.well_formed(),
        a.well_formed(),
        0 <= a.length,
    ensures
        ({
            let (c, held) = a.rebuilt_allowing_holes(tags);
            let sane = a.length <= a.capacity && a.length <= 16_000_000;
            &&& sane && (a.has_raw() || a.has_holes()) ==> held && c == a
            &&& !sane ==> !held && !a.rebuilt(tags).1 && c == a.clear_numeric() && a.rebuilt(
                tags,
            ).0 == a.clear_numeric()
            &&& sane && !a.has_raw() && !a.has_holes() && (forall|i: int|
                0 <= i < a.length ==> number_of(tags, #[trigger] a.slots[i]) is Some) ==> {
                &&& held
                &&& c.has_raw() == a.is_array
                &&& !c.has_holes()
            }
        }),
{
    lemma_first_foreign(tags, a.slots, a.length, 0);
    let f = first_foreign(tags, a.slots, a.length, 0);
    law_hole_is_no_number(tags);
    if forall|i: int| 0 <= i < a.length ==> number_of(tags, #[trigger] a.slots[i]) is Some {
        if a.sane() && f < a.length {
            assert(number_of(tags, a.slots[f]) is Some);
        }
        if a.sane() && has_hole(tags, a.slots, 0, a.length) {
            let i = choose|i: int| 0 <= i < a.length && #[trigger] a.slots[i] == tags.hole;
            assert(number_of(tags, a.slots[i]) is Some);
        }
    }
}

/// Taking the claims away changes the two flags, and is told once where there
/// was one.
pub proof fn law_clearing_is_told_once(a: ArrayState)
    ensures
        ({
            let b = a.clear_numeric();
            &&& !b.has_raw() && !b.has_holes()
            &&& b.slots == a.slots
            &&& differ_in_layout_only(a, b)
            &&& a.has_raw() || a.has_holes() ==> b.notes == a.notes.push(
                HeapNote::RepresentationChanged,
            )
            &&& !a.has_raw() && !a.has_holes() ==> b.notes == a.notes
            &&& b.clear_numeric() == b
        }),
{
}

/// Storing to a slot puts the value there, in raw form where the array keeps
/// that, and leaves all other slots. A number keeps the claims; anything else
/// takes them away. The collector is told last what the slot now holds.
pub proof fn law_stores_reach_their_slot(
    tags: &ValueTags,
    a: ArrayState,
    index: int,
    bits: u64,
    j: int,
)
    requires
        a.well_formed(),
        0 <= index < a.capacity,
        a.capacity <= u32::MAX,
        0 <= j < a.capacity,
        j != index,
    ensures
        ({
            let b = a.slot_noted(tags, index, bits);
            let claimed = a.has_raw() || a.has_holes();
            &&& b.slots.len() == a.slots.len()
            &&& b.slots[j] == a.slots[j]
            &&& claimed && number_of(tags, bits) is Some ==> Some(b.slots[index]) == number_of(
                tags,
                bits,
            )
            &&& !claimed || number_of(tags, bits) is None ==> b.slots[index] == bits
            &&& number_of(tags, bits) is Some ==> b.flags == a.flags && b.notes == a.notes.push(
                HeapNote::LayoutSlot { index: index as usize, bits: b.slots[index] },
            )
            &&& number_of(tags, bits) is None ==> !b.has_raw() && !b.has_holes()
            &&& b.notes.last() == (HeapNote::LayoutSlot {
                index: index as usize,
                bits: b.slots[index],
            })
            &&& differ_in_layout_only(a, b)
        }),
{
    if number_of(tags, bits) is Some {
        law_raw_form_is_stable(tags, bits);
    }
}

/// A window has no holes exactly where each of its elements is a number, as
/// far as the elements are numbers and holes at all.
pub proof fn law_dense_windows_hold_numbers(
    tags: &ValueTags,
    a: ArrayState,
    min_idx: i32,
    max_idx: i32,
)
    requires
        tags.well_formed(),
        a.well_formed(),
        a.claims_hold(tags),
        0 <= a.length <= a.capacity,
        a.length <= 16_000_000,
        forall|i: int|
            0 <= i < a.length ==> #[trigger] a.slots[i] == tags.hole || number_of(
                tags,
                a.slots[i],
            ) is Some,
    ensures
        a.dense_in(tags, min_idx, max_idx).1 <==> forall|i: int|
            0 <= i < a.length && min_idx <= i < max_idx ==> number_of(
                tags,
                #[trigger] a.slots[i],
            ) is Some,
{
    let (c, held) = a.rebuilt_allowing_holes(tags);
    lemma_first_foreign(tags, a.slots, a.length, 0);
    let f = first_foreign(tags, a.slots, a.length, 0);
    if !a.has_raw() && !a.has_holes() && f < a.length {
        assert(a.slots[f] == tags.hole || number_of(tags, a.slots[f]) is Some);
    }
    assert(held);
    law_hole_is_no_number(tags);
    law_walks_keep_the_elements(tags, a);
    law_walks_claim_only_what_holds(tags, a);
    let (lo, hi) = window(c, min_idx, max_idx);
    if has_hole(tags, c.slots, lo, hi) {
        let i = choose|i: int| lo <= i < hi && #[trigger] c.slots[i] == tags.hole;
        assert(a.rebuilt_allowing_holes(tags).0.slots[i] == tags.hole);
        assert(number_of(tags, a.slots[i]) is None);
        if c.has_raw() {
            assert(number_of(tags, c.slots[i]) == Some(c.slots[i]));
        }
    } else {
        assert forall|i: int| 0 <= i < a.length && min_idx <= i < max_idx implies number_of(
            tags,
            #[trigger] a.slots[i],
        ) is Some by {
            if number_of(tags, a.slots[i]) is None {
                assert(a.slots[i] == tags.hole);
                assert(a.rebuilt_allowing_holes(tags).0.slots[i] == a.slots[i]);
                assert(lo <= i < hi);
                assert(c.slots[i] == tags.hole);
            }
        }
    }
    if c.has_raw() && has_hole(tags, c.slots, lo, hi) {
        let i = choose|i: int| lo <= i < hi && #[trigger] c.slots[i] == tags.hole;
        assert(number_of(tags, c.slots[i]) == Some(c.slots[i]));
    }
}

/// Working a layout out again tells the collector that the shape is unknown,
/// then which slots to look at, and, for an array in the old generation, what
/// each of them holds. The elements stay the values they were.
pub proof fn law_rebuilding_tells_the_slots(
    tags: &ValueTags,
    a: ArrayState,
    exact: bool,
    i: int,
)
    requires
        a.well_formed(),
        0 <= a.length <= a.capacity,
        a.length <= 16_000_000,
        0 <= i < a.length,
    ensures
        ({
            let b = a.layout_rebuilt(tags, exact);
            let n = a.notes.len() as int;
            &&& b.notes.len() >= n + 2
            &&& b.notes.take(n) == a.notes
            &&& b.notes[n] == HeapNote::ElementShapeCleared
            &&& b.notes[n + 1] == (HeapNote::LayoutFromSlots { length: a.length as usize, exact })
            &&& a.old_gen ==> b.notes[b.notes.len() - a.length + i] == (HeapNote::Barrier {
                index: i as usize,
                bits: b.slots[i],
            })
            &&& number_of(tags, b.slots[i]) == number_of(tags, a.slots[i])
            &&& number_of(tags, a.slots[i]) is None ==> b.slots[i] == a.slots[i]
            &&& differ_in_layout_only(a, b)
        }),
{
    let shape = a.note(HeapNote::ElementShapeCleared);
    let told = shape.note(HeapNote::LayoutFromSlots { length: a.length as usize, exact });
    law_walks_keep_the_elements(tags, told);
    assert(told.slots == a.slots);
    lemma_raw_upto(tags, a.slots, first_non_number(tags, a.slots, a.length, 0));
    let b = a.layout_rebuilt(tags, exact);
    assert(b.notes.take(a.notes.len() as int) =~= a.notes);
}

/// An array that claims to be dense is left as it is and reported so; any other
/// is walked.
pub proof fn law_claimed_arrays_are_not_walked(tags: &ValueTags, a: ArrayState)
    ensures
        a.length <= a.capacity && a.length <= 16_000_000 && a.is_array && a.flags.raw_f64
            ==> a.ensured(tags) == (a, true),
        !a.is_array || !a.flags.raw_f64 || a.length > a.capacity || a.length > 16_000_000
            ==> a.ensured(tags) == a.rebuilt(tags),
{
}

/// A number that is noted at an index is put into raw form there, where the
/// array keeps that and the index is one of its elements; anything but a
/// number takes the claims away and leaves the slots.
pub proof fn law_noted_numbers_are_put_into_raw_form(
    tags: &ValueTags,
    a: ArrayState,
    index: int,
    bits: u64,
)
    requires
        0 <= index,
    ensures
        ({
            let b = a.index_written(tags, index, bits);
            let raw = a.is_array && a.flags.raw_f64 && index < a.length;
            &&& number_of(tags, bits) matches Some(n) ==> {
                &&& raw ==> b == a.with_slots(a.slots.update(index, n))
                &&& !raw ==> b == a
            }
            &&& number_of(tags, bits) is None ==> b == a.clear_numeric() && b.slots == a.slots
        }),
{
}

} // verus!
