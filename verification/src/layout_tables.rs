//! Layout records of single objects.
//!
//! Most objects take their slot layout from their shape. The few that differ
//! have a record of their own in one of two tables by address: a pointer mask
//! or a typed descriptor. An address that is reused must not inherit a
//! record, so every allocation, death and move asks both tables. A flag that
//! proves both empty, and a filter that proves an address absent, keep that
//! question cheap; neither is ever more than an accelerator.

use std::collections::HashMap;
use vstd::prelude::*;
use crate::array_receiver::{array_receiver_addr, stripped};
use crate::roots::{is_walk_of, lemma_prefix_members, table_keys};
use crate::text::{parse_decimal_exact, parsed};

verus! {

broadcast use vstd::std_specs::hash::group_hash_axioms;

/// Words of the address filter.
pub const LAYOUT_ADDR_FILTER_WORDS: usize = 64;

/// After so many bits the filter is rebuilt from the live records.
pub const LAYOUT_ADDR_FILTER_REBUILD_AFTER: u32 = 2048;

/// Payloads with fewer slots take no mask.
pub const DEFAULT_MASK_MIN_SLOTS: usize = 4;

/// Bytes of the header in front of every object.
pub const GC_HEADER_SIZE: usize = 8;

/// The layout records of one thread. A record is known by its number.
pub struct LayoutTables {
    /// Pointer masks, by address.
    pub masks: HashMap<u64, u64>,
    /// Typed descriptors, by address.
    pub typed: HashMap<u64, u64>,
    /// False only where both tables are empty.
    pub nonempty: bool,
    /// Bits set in the filter since it was last rebuilt.
    pub sets: u32,
    /// A set bit for every address that may have a record.
    pub filter: Vec<u64>,
    /// How many scopes for immortal objects are open.
    pub immortal_depth: u32,
}

/// How many threads have their flag set. Compiled code reads this.
pub struct ArmedThreads {
    pub count: u32,
}

/// The place of an address in the filter, out of 4096.
pub open spec fn filter_index(addr: u64) -> u64 {
    addr.wrapping_mul(0x9E37_79B9_7F4A_7C15) >> 52
}

/// The bit of a place within its word.
pub open spec fn bit_of(index: u64) -> u64 {
    1u64 << (index & 63)
}

/// The bit of a place is set.
pub open spec fn holds_place(filter: Seq<u64>, index: u64) -> bool {
    filter[(index >> 6) as int] & bit_of(index) != 0
}

/// The filter may hold the address.
pub open spec fn filter_holds(filter: Seq<u64>, addr: u64) -> bool {
    holds_place(filter, filter_index(addr))
}

/// Some address has this place.
pub open spec fn is_place_of(addrs: Set<u64>, index: u64) -> bool {
    exists|a: u64| #[trigger] addrs.contains(a) && filter_index(a) == index
}

/// The filter after an address was added to it, `masks` and `typed` being the
/// records by then: the bit of the address is set, and the others are as they
/// were, or, where it was time to rebuild, as the records have them.
pub open spec fn filter_with(
    masks: Map<u64, u64>,
    typed: Map<u64, u64>,
    filter: Seq<u64>,
    sets: u32,
    addr: u64,
    after: Seq<u64>,
) -> bool {
    forall|i: u64|
        i < 4096 ==> (#[trigger] holds_place(after, i) <==> i == filter_index(addr) || if sets
            >= LAYOUT_ADDR_FILTER_REBUILD_AFTER {
            is_place_of(masks.dom(), i) || is_place_of(typed.dom(), i)
        } else {
            holds_place(filter, i)
        })
}

/// How many bits count as set after one more.
pub open spec fn sets_with(sets: u32) -> int {
    if sets >= LAYOUT_ADDR_FILTER_REBUILD_AFTER {
        1
    } else {
        sets + 1
    }
}

/// No bit is set.
pub open spec fn filter_is_clear(filter: Seq<u64>) -> bool {
    forall|i: u64| i < 4096 ==> !#[trigger] holds_place(filter, i)
}

impl LayoutTables {
    /// The flag and the filter claim no more than is true: without the flag
    /// both tables are empty, and what the filter does not hold has no
    /// record.
    pub open spec fn well_formed(&self) -> bool {
        &&& self.filter@.len() == LAYOUT_ADDR_FILTER_WORDS
        &&& !self.nonempty ==> self.masks@ == Map::<u64, u64>::empty() && self.typed@ == Map::<
            u64,
            u64,
        >::empty()
        &&& forall|a: u64| #[trigger]
            self.masks@.dom().contains(a) ==> filter_holds(self.filter@, a)
        &&& forall|a: u64| #[trigger]
            self.typed@.dom().contains(a) ==> filter_holds(self.filter@, a)
    }

    /// The address has a record.
    pub open spec fn has_record(&self, addr: u64) -> bool {
        self.masks@.dom().contains(addr) || self.typed@.dom().contains(addr)
    }

    /// Neither table has a record.
    pub open spec fn both_empty(&self) -> bool {
        self.masks@.len() == 0 && self.typed@.len() == 0
    }

    /// The records, the flag and the scopes are the same.
    pub open spec fn same_records(&self, other: &LayoutTables) -> bool {
        &&& self.masks@ == other.masks@
        &&& self.typed@ == other.typed@
        &&& self.nonempty == other.nonempty
        &&& self.immortal_depth == other.immortal_depth
    }
}

/// This thread counts among the armed ones where its flag is set, and the
/// count leaves room for it where it is not.
pub open spec fn counted(t: &LayoutTables, g: &ArmedThreads) -> bool {
    if t.nonempty {
        g.count > 0
    } else {
        g.count < u32::MAX
    }
}

/// The count has changed by this thread's flag alone.
pub open spec fn count_follows(
    before: &LayoutTables,
    gb: &ArmedThreads,
    after: &LayoutTables,
    ga: &ArmedThreads,
) -> bool {
    ga.count - gb.count == (if after.nonempty {
        1int
    } else {
        0
    }) - (if before.nonempty {
        1int
    } else {
        0
    })
}

proof fn lemma_filter_index(addr: u64)
    ensures
        filter_index(addr) < 4096,
        filter_index(addr) >> 6 < 64,
        filter_index(addr) & 63 < 64,
        bit_of(filter_index(addr)) != 0,
{
    let h = addr.wrapping_mul(0x9E37_79B9_7F4A_7C15);
    assert(h >> 52 < 4096) by (bit_vector);
    let i = filter_index(addr);
    assert(i < 4096 ==> i >> 6 < 64) by (bit_vector);
    assert(i & 63 < 64) by (bit_vector);
    assert(1u64 << (i & 63) != 0) by (bit_vector);
}

proof fn lemma_bits(w: u64, m: u64, n: u64)
    ensures
        w & n != 0 ==> (w | m) & n != 0,
        m != 0 ==> (w | m) & m != 0,
{
    assert(w & n != 0 ==> (w | m) & n != 0) by (bit_vector);
    assert(m != 0 ==> (w | m) & m != 0) by (bit_vector);
}

/// Setting the bit of place `i` in its word sets no other.
proof fn lemma_bit_is_alone(w: u64, i: u64, j: u64)
    requires
        i >> 6 == j >> 6,
        i != j,
    ensures
        ((w | bit_of(i)) & bit_of(j) != 0) == (w & bit_of(j) != 0),
{
    assert(((w | (1u64 << (i & 63))) & (1u64 << (j & 63)) != 0) == (w & (1u64 << (j & 63)) != 0))
        by (bit_vector)
        requires
            i >> 6 == j >> 6,
            i != j,
    ;
}

/// Word and bit of an address in the filter.
fn layout_addr_filter_slot(addr: u64) -> (r: (usize, u64))
    ensures
        r.0 == filter_index(addr) >> 6,
        r.1 == bit_of(filter_index(addr)),
        r.0 < LAYOUT_ADDR_FILTER_WORDS,
        r.1 != 0,
{
    proof {
        lemma_filter_index(addr);
    }
    let index: u64 = addr.wrapping_mul(0x9E37_79B9_7F4A_7C15) >> 52;
    ((index >> 6) as usize, 1u64 << (index & 63))
}

/// Could the address have a record? "No" is a proof, "yes" only a hint.
pub fn layout_addr_filter_may_hold(t: &LayoutTables, addr: u64) -> (r: bool)
    requires
        t.well_formed(),
    ensures
        r == filter_holds(t.filter@, addr),
        !r ==> !t.has_record(addr),
{
    let (word, bit) = layout_addr_filter_slot(addr);
    t.filter[word] & bit != 0
}

fn set_filter_bit(filter: &mut Vec<u64>, addr: u64)
    requires
        old(filter)@.len() == LAYOUT_ADDR_FILTER_WORDS,
    ensures
        final(filter)@.len() == LAYOUT_ADDR_FILTER_WORDS,
        filter_holds(final(filter)@, addr),
        forall|a: u64| filter_holds(old(filter)@, a) ==> #[trigger] filter_holds(final(filter)@, a),
        forall|i: u64|
            i < 4096 ==> (#[trigger] holds_place(final(filter)@, i) <==> i == filter_index(addr)
                || holds_place(old(filter)@, i)),
{
    let ghost before = filter@;
    let (word, bit) = layout_addr_filter_slot(addr);
    let w: u64 = filter[word];
    filter.set(word, w | bit);
    proof {
        lemma_bits(w, bit, bit);
        let at = filter_index(addr);
        assert forall|i: u64| i < 4096 implies (#[trigger] holds_place(filter@, i) <==> i == at
            || holds_place(before, i)) by {
            assert(i < 4096 ==> i >> 6 < 64) by (bit_vector);
            if i != at && i >> 6 == at >> 6 {
                lemma_bit_is_alone(w, at, i);
            }
        }
        assert forall|a: u64| filter_holds(before, a) implies #[trigger] filter_holds(
            filter@,
            a,
        ) by {
            lemma_filter_index(a);
            assert(holds_place(filter@, filter_index(a)));
        }
    }
}

/// Set the bit of an address, without rebuilding.
pub fn layout_addr_filter_note(t: &mut LayoutTables, addr: u64)
    requires
        old(t).well_formed(),
    ensures
        final(t).well_formed(),
        final(t).same_records(old(t)),
        forall|i: u64|
            i < 4096 ==> (#[trigger] holds_place(final(t).filter@, i) <==> i == filter_index(addr)
                || holds_place(old(t).filter@, i)),
        filter_holds(final(t).filter@, addr),
        final(t).sets == old(t).sets.saturating_add(1),
{
    set_filter_bit(&mut t.filter, addr);
    t.sets = t.sets.saturating_add(1);
}

proof fn lemma_zero_words_are_clear(filter: Seq<u64>)
    requires
        filter.len() == LAYOUT_ADDR_FILTER_WORDS,
        forall|k: int| 0 <= k < LAYOUT_ADDR_FILTER_WORDS ==> #[trigger] filter[k] == 0,
    ensures
        filter_is_clear(filter),
{
    assert forall|i: u64| i < 4096 implies !#[trigger] holds_place(filter, i) by {
        assert(i < 4096 ==> i >> 6 < 64) by (bit_vector);
        let m = bit_of(i);
        assert(0u64 & m == 0) by (bit_vector);
    }
}

/// Drop every bit.
fn layout_addr_filter_clear(filter: &mut Vec<u64>)
    requires
        old(filter)@.len() == LAYOUT_ADDR_FILTER_WORDS,
    ensures
        final(filter)@.len() == LAYOUT_ADDR_FILTER_WORDS,
        filter_is_clear(final(filter)@),
{
    let mut i: usize = 0;
    while i < LAYOUT_ADDR_FILTER_WORDS
        invariant
            filter@.len() == LAYOUT_ADDR_FILTER_WORDS,
            i <= LAYOUT_ADDR_FILTER_WORDS,
            forall|k: int| 0 <= k < i ==> #[trigger] filter@[k] == 0,
        decreases LAYOUT_ADDR_FILTER_WORDS - i,
    {
        filter.set(i, 0);
        i = i + 1;
    }
    proof {
        lemma_zero_words_are_clear(filter@);
    }
}

/// One of the addresses has this place.
spec fn is_place_in(keys: Seq<u64>, index: u64) -> bool {
    exists|j: int| 0 <= j < keys.len() && filter_index(#[trigger] keys[j]) == index
}

proof fn lemma_place_in_prefix(keys: Seq<u64>, n: int, index: u64)
    requires
        0 <= n < keys.len(),
    ensures
        is_place_in(keys.take(n + 1), index) == (is_place_in(keys.take(n), index) || filter_index(
            keys[n],
        ) == index),
{
    let short = keys.take(n);
    let long = keys.take(n + 1);
    if is_place_in(long, index) {
        let j = choose|j: int| 0 <= j < long.len() && filter_index(#[trigger] long[j]) == index;
        if j < n {
            assert(short[j] == long[j]);
        }
    }
    if is_place_in(short, index) {
        let j = choose|j: int| 0 <= j < short.len() && filter_index(#[trigger] short[j]) == index;
        assert(long[j] == short[j]);
    }
    assert(long[n] == keys[n]);
}

fn add_keys(filter: &mut Vec<u64>, table: &HashMap<u64, u64>)
    requires
        old(filter)@.len() == LAYOUT_ADDR_FILTER_WORDS,
    ensures
        final(filter)@.len() == LAYOUT_ADDR_FILTER_WORDS,
        forall|a: u64| #[trigger]
            table@.dom().contains(a) ==> filter_holds(final(filter)@, a),
        forall|a: u64| filter_holds(old(filter)@, a) ==> #[trigger] filter_holds(final(filter)@, a),
        forall|i: u64|
            i < 4096 ==> (#[trigger] holds_place(final(filter)@, i) <==> holds_place(
                old(filter)@,
                i,
            ) || is_place_of(table@.dom(), i)),
{
    let ghost before = filter@;
    let keys: Vec<u64> = table_keys(table);
    let mut i: usize = 0;
    while i < keys.len()
        invariant
            i <= keys@.len(),
            is_walk_of(keys@, table@.dom()),
            filter@.len() == LAYOUT_ADDR_FILTER_WORDS,
            forall|a: u64| keys@.take(i as int).contains(a) ==> #[trigger] filter_holds(filter@, a),
            forall|a: u64| filter_holds(before, a) ==> #[trigger] filter_holds(filter@, a),
            forall|k: u64|
                k < 4096 ==> (#[trigger] holds_place(filter@, k) <==> holds_place(before, k)
                    || is_place_in(keys@.take(i as int), k)),
        decreases keys@.len() - i,
    {
        proof {
            lemma_prefix_members(keys@, i as int);
        }
        let ghost reached = filter@;
        set_filter_bit(filter, keys[i]);
        assert forall|k: u64| k < 4096 implies (#[trigger] holds_place(filter@, k) <==> holds_place(
            before,
            k,
        ) || is_place_in(keys@.take(i + 1), k)) by {
            assert(holds_place(reached, k) <==> holds_place(before, k) || is_place_in(
                keys@.take(i as int),
                k,
            ));
            lemma_place_in_prefix(keys@, i as int, k);
        }
        i = i + 1;
    }
    assert(keys@.take(i as int) =~= keys@);
    assert forall|k: u64| is_place_in(keys@, k) == #[trigger] is_place_of(table@.dom(), k) by {
        if is_place_in(keys@, k) {
            let j = choose|j: int| 0 <= j < keys@.len() && filter_index(#[trigger] keys@[j]) == k;
            assert(keys@.to_set().contains(keys@[j]));
            assert(table@.dom().contains(keys@[j]));
        }
        if is_place_of(table@.dom(), k) {
            let a = choose|a: u64| #[trigger]
                table@.dom().contains(a) && filter_index(a) == k;
            assert(keys@.to_set().contains(a));
            let j = choose|j: int| 0 <= j < keys@.len() && keys@[j] == a;
            assert(filter_index(keys@[j]) == k);
        }
    }
    assert forall|a: u64| #[trigger] table@.dom().contains(a) implies filter_holds(filter@, a) by {
        assert(keys@.to_set().contains(a));
    }
}

/// Drop every bit of the filter and add the live records again.
fn layout_addr_filter_rebuild(t: &mut LayoutTables)
    requires
        old(t).well_formed(),
    ensures
        final(t).well_formed(),
        final(t).same_records(old(t)),
        final(t).sets == 0,
        forall|i: u64|
            i < 4096 ==> (#[trigger] holds_place(final(t).filter@, i) <==> is_place_of(
                old(t).masks@.dom(),
                i,
            ) || is_place_of(old(t).typed@.dom(), i)),
{
    layout_addr_filter_clear(&mut t.filter);
    add_keys(&mut t.filter, &t.masks);
    add_keys(&mut t.filter, &t.typed);
    t.sets = 0;
}

/// Record in the filter that an address is about to have a record. A rebuild
/// comes before the bit is set: the record is not in its table yet.
fn layout_addr_filter_add(t: &mut LayoutTables, addr: u64)
    requires
        old(t).well_formed(),
    ensures
        final(t).well_formed(),
        final(t).same_records(old(t)),
        filter_holds(final(t).filter@, addr),
        filter_with(
            old(t).masks@,
            old(t).typed@,
            old(t).filter@,
            old(t).sets,
            addr,
            final(t).filter@,
        ),
        final(t).sets == sets_with(old(t).sets),
{
    if t.sets >= LAYOUT_ADDR_FILTER_REBUILD_AFTER {
        layout_addr_filter_rebuild(t);
    }
    layout_addr_filter_note(t, addr);
}

// ---------------------------------------------------------------------------
// The flag
// ---------------------------------------------------------------------------

/// May either table have a record? "No" is a proof, "yes" only a hint.
pub fn per_object_layouts_maybe_nonempty(t: &LayoutTables) -> (r: bool)
    requires
        t.well_formed(),
    ensures
        r == t.nonempty,
        !r ==> t.both_empty(),
{
    t.nonempty
}

/// Count one more armed thread.
fn per_object_layouts_global_arm(g: &mut ArmedThreads)
    requires
        old(g).count < u32::MAX,
    ensures
        final(g).count == old(g).count + 1,
{
    g.count = g.count + 1;
}

/// Count one armed thread less.
fn per_object_layouts_global_disarm(g: &mut ArmedThreads)
    requires
        old(g).count > 0,
    ensures
        final(g).count == old(g).count - 1,
{
    g.count = g.count - 1;
}

/// Set the flag, before a record is added.
pub fn mark_per_object_layouts_nonempty(t: &mut LayoutTables, g: &mut ArmedThreads)
    requires
        old(t).well_formed(),
        counted(old(t), old(g)),
    ensures
        final(t).well_formed(),
        final(t).masks@ == old(t).masks@,
        final(t).typed@ == old(t).typed@,
        final(t).filter@ == old(t).filter@,
        final(t).sets == old(t).sets,
        final(t).immortal_depth == old(t).immortal_depth,
        final(t).nonempty,
        count_follows(old(t), old(g), final(t), final(g)),
        counted(final(t), final(g)),
{
    if !t.nonempty {
        t.nonempty = true;
        per_object_layouts_global_arm(g);
    }
}

/// After a removal that may have emptied a table: clear the flag and the
/// filter if both are empty.
pub fn refresh_per_object_layouts_flag(
    t: &mut LayoutTables,
    g: &mut ArmedThreads,
    touched_map_emptied: bool,
)
    requires
        old(t).well_formed(),
        counted(old(t), old(g)),
    ensures
        final(t).well_formed(),
        final(t).masks@ == old(t).masks@,
        final(t).typed@ == old(t).typed@,
        final(t).immortal_depth == old(t).immortal_depth,
        final(t).nonempty == (old(t).nonempty && !(touched_map_emptied && old(t).both_empty())),
        if touched_map_emptied && old(t).both_empty() {
            filter_is_clear(final(t).filter@) && final(t).sets == 0
        } else {
            final(t).filter@ == old(t).filter@ && final(t).sets == old(t).sets
        },
        count_follows(old(t), old(g), final(t), final(g)),
        counted(final(t), final(g)),
{
    if !touched_map_emptied {
        return;
    }
    if t.masks.is_empty() && t.typed.is_empty() {
        assert(t.masks@ =~= Map::<u64, u64>::empty());
        assert(t.typed@ =~= Map::<u64, u64>::empty());
        if t.nonempty {
            t.nonempty = false;
            per_object_layouts_global_disarm(g);
        }
        layout_addr_filter_clear(&mut t.filter);
        t.sets = 0;
    }
}

/// The thread ends: it no longer counts among the armed ones.
pub fn thread_exit(t: LayoutTables, g: &mut ArmedThreads)
    requires
        counted(&t, old(g)),
    ensures
        final(g).count == old(g).count - if t.nonempty {
            1int
        } else {
            0
        },
{
    if t.nonempty {
        per_object_layouts_global_disarm(g);
    }
}

// ---------------------------------------------------------------------------
// Records
// ---------------------------------------------------------------------------

/// The tables of a thread that has no records.
pub fn empty_layout_tables() -> (t: LayoutTables)
    ensures
        t.well_formed(),
        t.masks@ == Map::<u64, u64>::empty(),
        t.typed@ == Map::<u64, u64>::empty(),
        !t.nonempty,
        t.sets == 0,
        filter_is_clear(t.filter@),
        t.immortal_depth == 0,
{
    let mut filter: Vec<u64> = Vec::new();
    let mut i: usize = 0;
    while i < LAYOUT_ADDR_FILTER_WORDS
        invariant
            i <= LAYOUT_ADDR_FILTER_WORDS,
            filter@.len() == i,
            forall|k: int| 0 <= k < i ==> #[trigger] filter@[k] == 0,
        decreases LAYOUT_ADDR_FILTER_WORDS - i,
    {
        filter.push(0);
        i = i + 1;
    }
    proof {
        lemma_zero_words_are_clear(filter@);
    }
    LayoutTables {
        masks: HashMap::new(),
        typed: HashMap::new(),
        nonempty: false,
        sets: 0,
        filter,
        immortal_depth: 0,
    }
}

/// How many records there are: masks, descriptors.
pub fn per_object_layout_table_sizes(t: &LayoutTables) -> (r: (usize, usize))
    ensures
        r.0 == t.masks@.len(),
        r.1 == t.typed@.len(),
{
    (t.masks.len(), t.typed.len())
}

/// Add a typed descriptor.
pub fn typed_layouts_insert(
    t: &mut LayoutTables,
    g: &mut ArmedThreads,
    addr: u64,
    descriptor: u64,
)
    requires
        old(t).well_formed(),
        counted(old(t), old(g)),
    ensures
        final(t).well_formed(),
        final(t).typed@ == old(t).typed@.insert(addr, descriptor),
        final(t).masks@ == old(t).masks@,
        final(t).nonempty,
        filter_with(
            old(t).masks@,
            old(t).typed@,
            old(t).filter@,
            old(t).sets,
            addr,
            final(t).filter@,
        ),
        final(t).sets == sets_with(old(t).sets),
        final(t).immortal_depth == old(t).immortal_depth,
        count_follows(old(t), old(g), final(t), final(g)),
        counted(final(t), final(g)),
{
    mark_per_object_layouts_nonempty(t, g);
    layout_addr_filter_add(t, addr);
    t.typed.insert(addr, descriptor);
}

/// Add a pointer mask.
pub fn slot_masks_insert(t: &mut LayoutTables, g: &mut ArmedThreads, addr: u64, mask: u64)
    requires
        old(t).well_formed(),
        counted(old(t), old(g)),
    ensures
        final(t).well_formed(),
        final(t).masks@ == old(t).masks@.insert(addr, mask),
        final(t).typed@ == old(t).typed@,
        final(t).nonempty,
        filter_with(
            old(t).masks@,
            old(t).typed@,
            old(t).filter@,
            old(t).sets,
            addr,
            final(t).filter@,
        ),
        final(t).sets == sets_with(old(t).sets),
        final(t).immortal_depth == old(t).immortal_depth,
        count_follows(old(t), old(g), final(t), final(g)),
        counted(final(t), final(g)),
{
    mark_per_object_layouts_nonempty(t, g);
    layout_addr_filter_add(t, addr);
    t.masks.insert(addr, mask);
}

/// A removal has emptied a table, and both are empty now.
pub open spec fn last_removed(
    before: &LayoutTables,
    masks: Map<u64, u64>,
    typed: Map<u64, u64>,
) -> bool {
    &&& masks.len() == 0 && typed.len() == 0
    &&& masks != before.masks@ || typed != before.typed@
}

/// The flag after records were removed: cleared with the last of them.
pub open spec fn flag_after(
    before: &LayoutTables,
    masks: Map<u64, u64>,
    typed: Map<u64, u64>,
) -> bool {
    before.nonempty && !last_removed(before, masks, typed)
}

/// The filter after records were removed: cleared with the last of them, and
/// else as it was.
pub open spec fn filter_after_removal(before: &LayoutTables, after: &LayoutTables) -> bool {
    if last_removed(before, after.masks@, after.typed@) {
        filter_is_clear(after.filter@) && after.sets == 0
    } else {
        after.filter@ == before.filter@ && after.sets == before.sets
    }
}

/// Remove the typed descriptor of an address.
pub fn typed_layouts_remove(t: &mut LayoutTables, g: &mut ArmedThreads, addr: u64)
    requires
        old(t).well_formed(),
        counted(old(t), old(g)),
    ensures
        final(t).well_formed(),
        final(t).typed@ == old(t).typed@.remove(addr),
        final(t).masks@ == old(t).masks@,
        final(t).nonempty == flag_after(old(t), final(t).masks@, final(t).typed@),
        filter_after_removal(old(t), final(t)),
        final(t).immortal_depth == old(t).immortal_depth,
        count_follows(old(t), old(g), final(t), final(g)),
        counted(final(t), final(g)),
{
    let ghost before = t.typed@;
    if !per_object_layouts_maybe_nonempty(t) || !layout_addr_filter_may_hold(t, addr) {
        assert(before.remove(addr) =~= before);
        return;
    }
    let removed: Option<u64> = t.typed.remove(&addr);
    let emptied: bool = removed.is_some() && t.typed.is_empty();
    proof {
        if removed is None {
            assert(before.remove(addr) =~= before);
        } else {
            assert(!t.typed@.dom().contains(addr));
        }
    }
    refresh_per_object_layouts_flag(t, g, emptied);
}

/// Remove the pointer mask of an address.
pub fn slot_masks_remove(t: &mut LayoutTables, g: &mut ArmedThreads, addr: u64)
    requires
        old(t).well_formed(),
        counted(old(t), old(g)),
    ensures
        final(t).well_formed(),
        final(t).masks@ == old(t).masks@.remove(addr),
        final(t).typed@ == old(t).typed@,
        final(t).nonempty == flag_after(old(t), final(t).masks@, final(t).typed@),
        filter_after_removal(old(t), final(t)),
        final(t).immortal_depth == old(t).immortal_depth,
        count_follows(old(t), old(g), final(t), final(g)),
        counted(final(t), final(g)),
{
    let ghost before = t.masks@;
    if !per_object_layouts_maybe_nonempty(t) || !layout_addr_filter_may_hold(t, addr) {
        assert(before.remove(addr) =~= before);
        return;
    }
    let removed: Option<u64> = t.masks.remove(&addr);
    let emptied: bool = removed.is_some() && t.masks.is_empty();
    proof {
        if removed is None {
            assert(before.remove(addr) =~= before);
        } else {
            assert(!t.masks@.dom().contains(addr));
        }
    }
    refresh_per_object_layouts_flag(t, g, emptied);
}

/// A record in a table.
pub open spec fn record_in(table: Map<u64, u64>, addr: u64) -> Option<u64> {
    if table.dom().contains(addr) {
        Some(table[addr])
    } else {
        None
    }
}

/// The typed descriptor of an address.
pub fn with_per_object_descriptor(t: &LayoutTables, addr: u64) -> (r: Option<u64>)
    requires
        t.well_formed(),
    ensures
        r == record_in(t.typed@, addr),
{
    if !per_object_layouts_maybe_nonempty(t) || !layout_addr_filter_may_hold(t, addr) {
        return None;
    }
    match t.typed.get(&addr) {
        Some(d) => Some(*d),
        None => None,
    }
}

/// The pointer mask of an address.
pub fn per_object_slot_mask(t: &LayoutTables, addr: u64) -> (r: Option<u64>)
    requires
        t.well_formed(),
    ensures
        r == record_in(t.masks@, addr),
{
    if !per_object_layouts_maybe_nonempty(t) || !layout_addr_filter_may_hold(t, addr) {
        return None;
    }
    match t.masks.get(&addr) {
        Some(m) => Some(*m),
        None => None,
    }
}

/// A table after an object has moved: whatever was at the new address is
/// gone, and the object's record, if it has one, is there.
pub open spec fn moved_record(table: Map<u64, u64>, from: u64, to: u64) -> Map<u64, u64> {
    let cleared = table.remove(to);
    if cleared.dom().contains(from) {
        cleared.remove(from).insert(to, cleared[from])
    } else {
        cleared
    }
}

/// Move an object's typed descriptor to its new address; the result says
/// whether there was one.
pub fn transfer_per_object_descriptor(t: &mut LayoutTables, from: u64, to: u64) -> (r: bool)
    requires
        old(t).well_formed(),
    ensures
        final(t).well_formed(),
        final(t).typed@ == moved_record(old(t).typed@, from, to),
        final(t).masks@ == old(t).masks@,
        final(t).nonempty == old(t).nonempty,
        final(t).immortal_depth == old(t).immortal_depth,
        r == (from != to && old(t).typed@.dom().contains(from)),
        if r {
            &&& filter_with(
                old(t).masks@,
                old(t).typed@.remove(to).remove(from),
                old(t).filter@,
                old(t).sets,
                to,
                final(t).filter@,
            )
            &&& final(t).sets == sets_with(old(t).sets)
        } else {
            final(t).filter@ == old(t).filter@ && final(t).sets == old(t).sets
        },
{
    let ghost before = t.typed@;
    if !per_object_layouts_maybe_nonempty(t) || (!layout_addr_filter_may_hold(t, from)
        && !layout_addr_filter_may_hold(t, to)) {
        assert(before.remove(to) =~= before);
        return false;
    }
    layout_forget_typed(t, to);
    match t.typed.remove(&from) {
        Some(d) => {
            layout_addr_filter_add(t, to);
            t.typed.insert(to, d);
            true
        },
        None => {
            assert(before.remove(to).remove(from) =~= before.remove(to));
            false
        },
    }
}

fn layout_forget_typed(t: &mut LayoutTables, addr: u64)
    requires
        old(t).well_formed(),
    ensures
        final(t).well_formed(),
        final(t).typed@ == old(t).typed@.remove(addr),
        final(t).masks@ == old(t).masks@,
        final(t).nonempty == old(t).nonempty,
        final(t).immortal_depth == old(t).immortal_depth,
        final(t).filter@ == old(t).filter@,
        final(t).sets == old(t).sets,
{
    let ghost before = t.typed@;
    t.typed.remove(&addr);
    assert(t.typed@ =~= before.remove(addr));
    assert(before == Map::<u64, u64>::empty() ==> t.typed@ =~= Map::<u64, u64>::empty());
}

fn layout_forget_mask(t: &mut LayoutTables, addr: u64)
    requires
        old(t).well_formed(),
    ensures
        final(t).well_formed(),
        final(t).masks@ == old(t).masks@.remove(addr),
        final(t).typed@ == old(t).typed@,
        final(t).nonempty == old(t).nonempty,
        final(t).immortal_depth == old(t).immortal_depth,
        final(t).filter@ == old(t).filter@,
        final(t).sets == old(t).sets,
{
    let ghost before = t.masks@;
    t.masks.remove(&addr);
    assert(t.masks@ =~= before.remove(addr));
    assert(before == Map::<u64, u64>::empty() ==> t.masks@ =~= Map::<u64, u64>::empty());
}

/// Move an object's pointer mask to its new address.
pub fn transfer_per_object_slot_mask(t: &mut LayoutTables, from: u64, to: u64)
    requires
        old(t).well_formed(),
    ensures
        final(t).well_formed(),
        final(t).masks@ == moved_record(old(t).masks@, from, to),
        final(t).typed@ == old(t).typed@,
        final(t).nonempty == old(t).nonempty,
        final(t).immortal_depth == old(t).immortal_depth,
        if from != to && old(t).masks@.dom().contains(from) {
            &&& filter_with(
                old(t).masks@.remove(to).remove(from),
                old(t).typed@,
                old(t).filter@,
                old(t).sets,
                to,
                final(t).filter@,
            )
            &&& final(t).sets == sets_with(old(t).sets)
        } else {
            final(t).filter@ == old(t).filter@ && final(t).sets == old(t).sets
        },
{
    let ghost before = t.masks@;
    if !per_object_layouts_maybe_nonempty(t) || (!layout_addr_filter_may_hold(t, from)
        && !layout_addr_filter_may_hold(t, to)) {
        assert(before.remove(to) =~= before);
        return;
    }
    layout_forget_mask(t, to);
    match t.masks.remove(&from) {
        Some(m) => {
            layout_addr_filter_add(t, to);
            t.masks.insert(to, m);
        },
        None => {
            assert(before.remove(to).remove(from) =~= before.remove(to));
        },
    }
}

/// Remove whatever record an address has.
pub fn layout_forget_object(t: &mut LayoutTables, g: &mut ArmedThreads, addr: u64)
    requires
        old(t).well_formed(),
        counted(old(t), old(g)),
    ensures
        final(t).well_formed(),
        final(t).masks@ == old(t).masks@.remove(addr),
        final(t).typed@ == old(t).typed@.remove(addr),
        final(t).nonempty == flag_after(old(t), final(t).masks@, final(t).typed@),
        filter_after_removal(old(t), final(t)),
        final(t).immortal_depth == old(t).immortal_depth,
        count_follows(old(t), old(g), final(t), final(g)),
        counted(final(t), final(g)),
{
    let ghost masks = t.masks@;
    let ghost typed = t.typed@;
    if g.count == 0 || !t.nonempty || !layout_addr_filter_may_hold(t, addr) {
        assert(masks.remove(addr) =~= masks);
        assert(typed.remove(addr) =~= typed);
        return;
    }
    let had_mask: bool = t.masks.contains_key(&addr);
    let had_typed: bool = t.typed.contains_key(&addr);
    layout_forget_mask(t, addr);
    layout_forget_typed(t, addr);
    proof {
        if !had_mask {
            assert(masks.remove(addr) =~= masks);
        } else {
            assert(!masks.remove(addr).dom().contains(addr));
        }
        if !had_typed {
            assert(typed.remove(addr) =~= typed);
        } else {
            assert(!typed.remove(addr).dom().contains(addr));
        }
    }
    let emptied: bool = (had_mask && t.masks.is_empty()) || (had_typed && t.typed.is_empty());
    refresh_per_object_layouts_flag(t, g, emptied);
}

/// Remove whatever record an object has, for compiled code that reuses an
/// address.
pub fn js_gc_forget_object_layout(t: &mut LayoutTables, g: &mut ArmedThreads, obj: u64)
    requires
        old(t).well_formed(),
        counted(old(t), old(g)),
    ensures
        final(t).well_formed(),
        counted(final(t), final(g)),
        count_follows(old(t), old(g), final(t), final(g)),
        final(t).immortal_depth == old(t).immortal_depth,
        stripped(obj) == 0 ==> {
            &&& final(t).same_records(old(t))
            &&& final(t).filter@ == old(t).filter@
            &&& final(t).sets == old(t).sets
        },
        stripped(obj) != 0 ==> {
            &&& final(t).masks@ == old(t).masks@.remove(stripped(obj))
            &&& final(t).typed@ == old(t).typed@.remove(stripped(obj))
            &&& final(t).nonempty == flag_after(old(t), final(t).masks@, final(t).typed@)
            &&& filter_after_removal(old(t), final(t))
        },
{
    let addr: u64 = array_receiver_addr(obj);
    if addr == 0 {
        return;
    }
    layout_forget_object(t, g, addr);
}

// ---------------------------------------------------------------------------
// Immortal objects, and small ones
// ---------------------------------------------------------------------------

/// A window whose objects live as long as the process, and take no mask: a
/// record that is never removed would keep the flag set for good.
#[derive(PartialEq, Eq, Structural, Debug)]
pub struct ImmortalLayoutScope {
    /// How many windows are open, this one included.
    pub depth: u32,
}

impl ImmortalLayoutScope {
    /// Open a window.
    pub fn new(t: &mut LayoutTables) -> (s: ImmortalLayoutScope)
        ensures
            final(t).immortal_depth == old(t).immortal_depth.saturating_add(1),
            s.depth == final(t).immortal_depth,
            final(t).masks == old(t).masks,
            final(t).typed == old(t).typed,
            final(t).nonempty == old(t).nonempty,
            final(t).sets == old(t).sets,
            final(t).filter == old(t).filter,
    {
        t.immortal_depth = t.immortal_depth.saturating_add(1);
        ImmortalLayoutScope { depth: t.immortal_depth }
    }

    /// Close the window.
    pub fn close(self, t: &mut LayoutTables)
        ensures
            final(t).immortal_depth == old(t).immortal_depth.saturating_sub(1),
            final(t).masks == old(t).masks,
            final(t).typed == old(t).typed,
            final(t).nonempty == old(t).nonempty,
            final(t).sets == old(t).sets,
            final(t).filter == old(t).filter,
    {
        t.immortal_depth = t.immortal_depth.saturating_sub(1);
    }
}

/// Is such a window open?
pub fn immortal_layout_scope_active(t: &LayoutTables) -> (r: bool)
    ensures
        r == (t.immortal_depth != 0),
{
    t.immortal_depth != 0
}

/// The least number of slots for which a mask is made, from a setting.
pub open spec fn min_slots(setting: Option<&str>) -> int {
    match setting {
        Some(s) => match parsed(s@, usize::MAX as int) {
            Some(n) => n,
            None => DEFAULT_MASK_MIN_SLOTS as int,
        },
        None => DEFAULT_MASK_MIN_SLOTS as int,
    }
}

/// The least number of slots for which a mask is made.
pub fn layout_mask_min_slots(setting: Option<&str>) -> (n: usize)
    ensures
        n == min_slots(setting),
{
    match setting {
        Some(s) => match parse_decimal_exact(s, usize::MAX as u64) {
            Some(n) => n as usize,
            None => DEFAULT_MASK_MIN_SLOTS,
        },
        None => DEFAULT_MASK_MIN_SLOTS,
    }
}

/// What is known of the size of an object's payload.
#[derive(Clone, Copy, PartialEq, Eq, Structural, Debug)]
pub enum Payload {
    /// An array's header.
    Array { length: u32, capacity: u32 },
    /// An object's size in bytes, its header included.
    Object { size: usize },
    /// Nothing.
    Other,
}

/// A bound on the slots that the collector visits, or the greatest number
/// where there is none: so for an append, which is noted before the length
/// grows.
pub open spec fn slot_bound(p: Payload, slot_index: usize) -> usize {
    match p {
        Payload::Array { length, capacity } => if length > capacity || length > 16_000_000
            || slot_index >= length {
            usize::MAX
        } else {
            length as usize
        },
        Payload::Object { size } => if size < GC_HEADER_SIZE {
            usize::MAX
        } else {
            ((size - GC_HEADER_SIZE) / 8) as usize
        },
        Payload::Other => usize::MAX,
    }
}

/// A bound on the slots that the collector visits.
pub fn layout_payload_slot_count(p: Payload, slot_index: usize) -> (n: usize)
    ensures
        n == slot_bound(p, slot_index),
{
    match p {
        Payload::Array { length, capacity } => {
            if length > capacity || length > 16_000_000 || slot_index >= length as usize {
                usize::MAX
            } else {
                length as usize
            }
        },
        Payload::Object { size } => match size.checked_sub(GC_HEADER_SIZE) {
            Some(payload) => payload / 8,
            None => usize::MAX,
        },
        Payload::Other => usize::MAX,
    }
}

/// Is the object so small that looking at every slot beats a mask?
pub fn layout_prefers_scan_over_mask(p: Payload, slot_index: usize, mask_min_slots: usize) -> (r:
    bool)
    ensures
        r == (slot_bound(p, slot_index) < mask_min_slots),
{
    layout_payload_slot_count(p, slot_index) < mask_min_slots
}

// ---------------------------------------------------------------------------
// Laws
// ---------------------------------------------------------------------------

/// Whatever the flag or the filter rules out is not there: skipping the
/// tables on their word never misses a record.
pub proof fn law_accelerators_never_miss(t: &LayoutTables, addr: u64)
    requires
        t.well_formed(),
        !t.nonempty || !filter_holds(t.filter@, addr),
    ensures
        !t.has_record(addr),
{
}

/// A record moves with its object: it is found at the new address, not at the
/// old one, and no other record changes.
pub proof fn law_moved_records_are_found(table: Map<u64, u64>, from: u64, to: u64, other: u64)
    requires
        from != to,
        table.dom().contains(from),
        other != from && other != to,
    ensures
        record_in(moved_record(table, from, to), to) == Some(table[from]),
        record_in(moved_record(table, from, to), from) is None,
        record_in(moved_record(table, from, to), other) == record_in(table, other),
{
}

/// An object without a record leaves none at its new address, whatever was
/// there before.
pub proof fn law_reused_addresses_inherit_nothing(table: Map<u64, u64>, from: u64, to: u64)
    requires
        !table.dom().contains(from),
    ensures
        record_in(moved_record(table, from, to), to) is None,
{
}

/// When no thread is counted as armed, this thread has no record at all.
pub proof fn law_unarmed_means_empty(t: &LayoutTables, g: &ArmedThreads)
    requires
        t.well_formed(),
        counted(t, g),
        g.count == 0,
    ensures
        t.both_empty(),
{
}

/// Windows for immortal objects nest: closing one leaves the depth as it was
/// before it was opened, unless the depth had hit its limit.
pub proof fn law_immortal_scopes_nest(depth: u32)
    requires
        depth < u32::MAX,
    ensures
        depth.saturating_add(1).saturating_sub(1) == depth,
{
}

/// An array that makes sense has a slot for each element; an object has one
/// for every eight bytes behind its header. Of anything else there may be any
/// number.
pub proof fn law_slots_fill_the_payload(length: u32, capacity: u32, size: usize, index: usize)
    ensures
        length <= capacity && length <= 16_000_000 && index < length ==> slot_bound(
            Payload::Array { length, capacity },
            index,
        ) == length,
        length > capacity || length > 16_000_000 || index >= length ==> slot_bound(
            Payload::Array { length, capacity },
            index,
        ) == usize::MAX,
        size >= 8 ==> ({
            let n = slot_bound(Payload::Object { size }, index);
            8 + 8 * n <= size < 8 + 8 * (n + 1)
        }),
        size < 8 ==> slot_bound(Payload::Object { size }, index) == usize::MAX,
        slot_bound(Payload::Other, index) == usize::MAX,
{
}

/// The flag that says there may be records falls when the last one goes, and
/// at no other time; the filter is emptied with it.
pub proof fn law_the_flag_falls_with_the_last_record(
    before: &LayoutTables,
    after: &LayoutTables,
    addr: u64,
)
    requires
        before.well_formed(),
        before.nonempty,
        after.masks@ == before.masks@.remove(addr),
        after.typed@ == before.typed@.remove(addr),
        filter_after_removal(before, after),
    ensures
        ({
            let left = after.masks@.len() > 0 || after.typed@.len() > 0;
            let flag = flag_after(before, after.masks@, after.typed@);
            &&& left ==> flag
            &&& !left && before.has_record(addr) ==> !flag && after.sets == 0 && filter_is_clear(
                after.filter@,
            )
            &&& !before.has_record(addr) ==> flag && after.filter@ == before.filter@ && after.sets
                == before.sets
        }),
{
    if before.has_record(addr) {
        if before.masks@.dom().contains(addr) {
            assert(!after.masks@.dom().contains(addr));
            assert(before.masks@ != after.masks@);
        } else {
            assert(!after.typed@.dom().contains(addr));
            assert(before.typed@ != after.typed@);
        }
    } else {
        assert(after.masks@ =~= before.masks@);
        assert(after.typed@ =~= before.typed@);
    }
}

/// Adding an address to the filter loses no address that has a record: the
/// bits so far stay, until so many were set that the filter is made anew from
/// the records.
pub proof fn law_the_filter_keeps_every_record(
    before: &LayoutTables,
    after: Seq<u64>,
    addr: u64,
    other: u64,
)
    requires
        before.well_formed(),
        filter_with(before.masks@, before.typed@, before.filter@, before.sets, addr, after),
    ensures
        filter_holds(after, addr),
        before.has_record(other) ==> filter_holds(after, other),
        before.sets < 2048 && filter_holds(before.filter@, other) ==> filter_holds(after, other),
        before.sets < 2048 && filter_holds(after, other) ==> filter_holds(before.filter@, other)
            || filter_index(other) == filter_index(addr),
        before.sets >= 2048 && filter_holds(after, other) ==> is_place_of(
            before.masks@.dom(),
            filter_index(other),
        ) || is_place_of(before.typed@.dom(), filter_index(other)) || filter_index(other)
            == filter_index(addr),
        before.sets < 2048 ==> sets_with(before.sets) == before.sets + 1,
        before.sets >= 2048 ==> sets_with(before.sets) == 1,
{
    lemma_filter_index_bound(addr);
    lemma_filter_index_bound(other);
    let i = filter_index(other);
    if before.has_record(other) {
        assert(filter_holds(before.filter@, other));
        if before.masks@.dom().contains(other) {
            assert(is_place_of(before.masks@.dom(), i));
        } else {
            assert(before.typed@.dom().contains(other));
            assert(is_place_of(before.typed@.dom(), i));
        }
    }
}

proof fn lemma_filter_index_bound(addr: u64)
    ensures
        filter_index(addr) < 4096,
{
    let m = addr.wrapping_mul(0x9E37_79B9_7F4A_7C15);
    assert(m >> 52 < 4096) by (bit_vector);
}

/// The setting is the number that it spells; without one, or where it spells
/// none, masks are made from four slots on.
pub proof fn law_masks_start_at_four_slots(s: &str)
    ensures
        min_slots(None) == 4,
        parsed(s@, usize::MAX as int) is None ==> min_slots(Some(s)) == 4,
        parsed(s@, usize::MAX as int) matches Some(n) ==> min_slots(Some(s)) == n,
{
}

/// A thread is counted as armed while it may have records, and only then.
pub proof fn law_armed_threads_are_counted(
    before: &LayoutTables,
    gb: &ArmedThreads,
    after: &LayoutTables,
    ga: &ArmedThreads,
)
    requires
        count_follows(before, gb, after, ga),
    ensures
        before.nonempty == after.nonempty ==> ga.count == gb.count,
        !before.nonempty && after.nonempty ==> ga.count == gb.count + 1,
        before.nonempty && !after.nonempty ==> ga.count == gb.count - 1,
{
}

} // verus!
