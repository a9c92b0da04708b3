//! Resolving the receiver of an array operation.
//!
//! Compiled code hands array helpers a word that should be an array, boxed
//! or not. A static type is only a hint, so the word is believed to be an
//! array only where the collector's tables say so: handles, stale heads of
//! grown arrays, lazy arrays, buffers, typed arrays and plain objects all
//! arrive here too.

use std::collections::HashMap;
use vstd::prelude::*;
use crate::array_layout::ArrayHeader;
use crate::nanbox::{POINTER_TAG, SPECIAL_TAG, TAG_UNIT};

verus! {

broadcast use vstd::std_specs::hash::group_hash_axioms;

/// Words with this tag or a greater one are boxed.
pub const BOX_FLOOR: u64 = 0x7FF8;

/// How many times a moved array is followed.
pub const MAX_FORWARDS: u32 = 64;

/// Longest dense array.
pub const MAX_DENSE_LENGTH: u32 = 100_000_000;

/// Largest dense part of a sparse array.
pub const MAX_SPARSE_CAPACITY: u32 = 1_000_000;

/// What kind of object a collector header describes.
#[derive(Clone, Copy, PartialEq, Eq, Structural, Debug)]
pub enum HeapKind {
    Array,
    LazyArray,
    Object,
    OtherKind,
}

/// A collector header of an object that the allocator owns.
#[derive(Clone, Copy, PartialEq, Eq, Structural, Debug)]
pub struct OwnedHeader {
    pub kind: HeapKind,
    /// The object has moved.
    pub forwarded: bool,
    /// Where it has moved to.
    pub forward_to: u64,
}

/// What the runtime's tables say of an address.
#[derive(Clone, Copy, PartialEq, Eq, Structural, Debug)]
pub struct HeapEntry {
    /// The address lies where heap objects can lie.
    pub plausible: bool,
    /// The header in front of it, where the allocator owns the address.
    pub owned: Option<OwnedHeader>,
    /// The kind byte in front of it, where the address lies above the handle
    /// band, owned or not.
    pub raw_kind: Option<HeapKind>,
    /// The flag word that goes with that byte.
    pub raw_flags: u16,
    /// A lazy array's first word is the one that lazy arrays have.
    pub lazy_magic: bool,
    /// Registered as a buffer.
    pub buffer: bool,
    /// Registered as a typed array.
    pub typed_array: bool,
    /// Lies in the proxy band and is registered as a proxy.
    pub proxy: bool,
    /// The first two words, read as an array's.
    pub header: ArrayHeader,
}

/// The runtime's tables. Of an address without an entry nothing is known.
pub struct Heap {
    pub entries: HashMap<u64, HeapEntry>,
}

/// What a receiver resolves to.
#[derive(Clone, Copy, PartialEq, Eq, Structural, Debug)]
pub enum CleanPtr {
    /// No array.
    Null,
    /// The array at this address.
    At(u64),
    /// What the lazy array at this address turns into when it is
    /// materialized.
    Materialize(u64),
}

/// The address in a word, without its tag.
pub open spec fn stripped(bits: u64) -> u64 {
    if bits / TAG_UNIT >= BOX_FLOOR {
        bits % TAG_UNIT
    } else {
        bits
    }
}

/// A boxed word that is a special value, or holds no address at all.
pub open spec fn is_boxed_nothing(bits: u64) -> bool {
    bits / TAG_UNIT >= BOX_FLOOR && (bits / TAG_UNIT == SPECIAL_TAG || bits % TAG_UNIT == 0)
}

impl Heap {
    pub open spec fn known(&self, addr: u64) -> bool {
        self.entries@.dom().contains(addr)
    }

    pub open spec fn at(&self, addr: u64) -> HeapEntry {
        self.entries@[addr]
    }

    pub open spec fn is_plausible(&self, addr: u64) -> bool {
        self.known(addr) && self.at(addr).plausible
    }

    pub open spec fn owned_header(&self, addr: u64) -> Option<OwnedHeader> {
        if self.known(addr) {
            self.at(addr).owned
        } else {
            None
        }
    }

    pub open spec fn is_buffer(&self, addr: u64) -> bool {
        self.known(addr) && self.at(addr).buffer
    }

    pub open spec fn is_typed_array(&self, addr: u64) -> bool {
        self.known(addr) && self.at(addr).typed_array
    }

    /// The allocator owns an array at the address.
    pub open spec fn is_owned_array(&self, addr: u64) -> bool {
        self.owned_header(addr) matches Some(h) && h.kind == HeapKind::Array
    }

    /// An array that has moved.
    pub open spec fn is_moved_array(&self, addr: u64) -> bool {
        self.is_owned_array(addr) && self.owned_header(addr)->0.forwarded
    }

    /// Follow a moved array to where it is now, at most `left` times.
    /// Nothing where a step leads to no array.
    pub open spec fn followed(&self, addr: u64, left: nat) -> Option<u64>
        decreases left,
    {
        if !self.is_moved_array(addr) {
            Some(addr)
        } else {
            let next = self.owned_header(addr)->0.forward_to;
            if left == 0 || !self.is_owned_array(next) {
                None
            } else {
                self.followed(next, (left - 1) as nat)
            }
        }
    }

    /// The first two words can be those of what lies at the address: a dense
    /// array, a sparse one, or a buffer or typed array of any size.
    pub open spec fn header_makes_sense(&self, addr: u64) -> bool {
        let h = self.at(addr).header;
        ||| h.length <= h.capacity && h.length <= MAX_DENSE_LENGTH
        ||| self.is_owned_array(addr) && h.length > h.capacity && h.capacity
            <= MAX_SPARSE_CAPACITY
        ||| self.is_buffer(addr)
        ||| self.is_typed_array(addr)
    }

    /// What lies at an address that is no moved array.
    pub open spec fn settled(&self, addr: u64) -> CleanPtr {
        let array = if self.owned_header(addr) is Some {
            self.is_owned_array(addr)
        } else {
            self.is_buffer(addr) || self.is_typed_array(addr)
        };
        if self.owned_header(addr) matches Some(h) && h.kind == HeapKind::LazyArray && self.at(
            addr,
        ).lazy_magic {
            CleanPtr::Materialize(addr)
        } else if array && self.header_makes_sense(addr) {
            CleanPtr::At(addr)
        } else {
            CleanPtr::Null
        }
    }

    /// What a receiver resolves to.
    pub open spec fn cleaned(&self, bits: u64) -> CleanPtr {
        let addr = stripped(bits);
        if is_boxed_nothing(bits) || !self.is_plausible(addr) {
            CleanPtr::Null
        } else {
            match self.followed(addr, MAX_FORWARDS as nat) {
                None => CleanPtr::Null,
                Some(head) => self.settled(head),
            }
        }
    }

    fn entry(&self, addr: u64) -> (e: Option<HeapEntry>)
        ensures
            e == if self.known(addr) {
                Some(self.at(addr))
            } else {
                None
            },
    {
        match self.entries.get(&addr) {
            Some(e) => Some(*e),
            None => None,
        }
    }

    fn owned(&self, addr: u64) -> (h: Option<OwnedHeader>)
        ensures
            h == self.owned_header(addr),
    {
        match self.entry(addr) {
            Some(e) => e.owned,
            None => None,
        }
    }
}

impl Heap {
    /// Is a typed array registered at the address?
    pub fn registered_typed_array(&self, addr: u64) -> (r: bool)
        ensures
            r == self.is_typed_array(addr),
    {
        match self.entry(addr) {
            Some(e) => e.typed_array,
            None => false,
        }
    }

    /// Is a buffer registered at the address?
    pub fn registered_buffer(&self, addr: u64) -> (r: bool)
        ensures
            r == self.is_buffer(addr),
    {
        match self.entry(addr) {
            Some(e) => e.buffer,
            None => false,
        }
    }
}

/// Follow a moved array to where it is now.
fn follow_forwards(heap: &Heap, addr: u64) -> (head: Option<u64>)
    ensures
        head == heap.followed(addr, MAX_FORWARDS as nat),
{
    let mut at: u64 = addr;
    let mut steps: u32 = 0;
    while steps <= MAX_FORWARDS
        invariant
            steps <= MAX_FORWARDS,
            heap.followed(addr, MAX_FORWARDS as nat) == heap.followed(
                at,
                (MAX_FORWARDS - steps) as nat,
            ),
        decreases MAX_FORWARDS - steps,
    {
        let h: OwnedHeader = match heap.owned(at) {
            None => return Some(at),
            Some(h) => h,
        };
        if h.kind != HeapKind::Array || !h.forwarded {
            return Some(at);
        }
        match heap.owned(h.forward_to) {
            None => return None,
            Some(target) => {
                if target.kind != HeapKind::Array {
                    return None;
                }
            },
        }
        if steps == MAX_FORWARDS {
            return None;
        }
        at = h.forward_to;
        steps = steps + 1;
    }
    None
}

/// Resolve the receiver of an array operation: strip its tag, follow a moved
/// array to its current head, and accept only what the tables show to be an
/// array, a buffer or a typed array with a header that makes sense.
pub fn clean_arr_ptr(heap: &Heap, bits: u64) -> (p: CleanPtr)
    ensures
        p == heap.cleaned(bits),
{
    let tag: u64 = bits / TAG_UNIT;
    let addr: u64 = if tag >= BOX_FLOOR {
        if tag == SPECIAL_TAG || bits % TAG_UNIT == 0 {
            return CleanPtr::Null;
        }
        bits % TAG_UNIT
    } else {
        bits
    };
    match heap.entry(addr) {
        None => return CleanPtr::Null,
        Some(e) => {
            if !e.plausible {
                return CleanPtr::Null;
            }
        },
    }
    let head: u64 = match follow_forwards(heap, addr) {
        None => return CleanPtr::Null,
        Some(head) => head,
    };
    let e: HeapEntry = match heap.entry(head) {
        None => return CleanPtr::Null,
        Some(e) => e,
    };
    let mut owned_array: bool = false;
    match e.owned {
        Some(h) => {
            if h.kind == HeapKind::LazyArray && e.lazy_magic {
                return CleanPtr::Materialize(head);
            }
            if h.kind != HeapKind::Array {
                return CleanPtr::Null;
            }
            owned_array = true;
        },
        None => {
            if !e.buffer && !e.typed_array {
                return CleanPtr::Null;
            }
        },
    }
    let h: ArrayHeader = e.header;
    if h.length > h.capacity || h.length > MAX_DENSE_LENGTH {
        let sparse: bool = owned_array && h.length > h.capacity && h.capacity
            <= MAX_SPARSE_CAPACITY;
        if sparse || e.buffer || e.typed_array {
            return CleanPtr::At(head);
        }
        return CleanPtr::Null;
    }
    CleanPtr::At(head)
}

/// Kind and flags in front of an address; nothing for an address that cannot
/// have a header.
pub fn array_receiver_gc_tag(heap: &Heap, addr: u64) -> (tag: Option<(HeapKind, u16)>)
    ensures
        tag == if heap.known(addr) && heap.at(addr).raw_kind is Some {
            Some((heap.at(addr).raw_kind->0, heap.at(addr).raw_flags))
        } else {
            None
        },
{
    match heap.entry(addr) {
        Some(e) => match e.raw_kind {
            Some(kind) => Some((kind, e.raw_flags)),
            None => None,
        },
        None => None,
    }
}

/// The flags of an array, from kind and flags that were read already; none
/// for what is no array.
pub fn array_object_flags_from_tag(tag: Option<(HeapKind, u16)>) -> (flags: u16)
    ensures
        flags == match tag {
            Some((HeapKind::Array, flags)) => flags,
            _ => 0,
        },
{
    match tag {
        Some((HeapKind::Array, flags)) => flags,
        _ => 0,
    }
}

/// The address of a receiver without its tag, for table lookups only.
pub fn array_receiver_addr(bits: u64) -> (addr: u64)
    ensures
        addr == stripped(bits),
{
    if bits / TAG_UNIT >= BOX_FLOOR {
        bits % TAG_UNIT
    } else {
        bits
    }
}

/// The address of a receiver that is really a typed array. To be asked before
/// the receiver is resolved as an array, which rejects typed arrays.
pub fn typed_array_receiver(heap: &Heap, bits: u64) -> (addr: Option<u64>)
    ensures
        addr == if heap.is_plausible(stripped(bits)) && heap.is_typed_array(stripped(bits)) {
            Some(stripped(bits))
        } else {
            None
        },
{
    let addr: u64 = array_receiver_addr(bits);
    match heap.entry(addr) {
        Some(e) => if e.plausible && e.typed_array {
            Some(addr)
        } else {
            None
        },
        None => None,
    }
}

/// The boxed pointer to an address.
pub open spec fn boxed_pointer(addr: u64) -> int {
    POINTER_TAG * TAG_UNIT + addr
}

/// The boxed proxy, where the receiver is really one.
pub fn array_ptr_as_proxy(heap: &Heap, bits: u64) -> (boxed: Option<u64>)
    ensures
        ({
            let raw = stripped(bits);
            if raw < TAG_UNIT && heap.known(raw) && heap.at(raw).proxy {
                boxed == Some(boxed_pointer(raw) as u64)
            } else {
                boxed is None
            }
        }),
{
    let raw: u64 = array_receiver_addr(bits);
    if raw < TAG_UNIT {
        if let Some(e) = heap.entry(raw) {
            if e.proxy {
                return Some(POINTER_TAG * TAG_UNIT + raw);
            }
        }
    }
    None
}

/// The receiver of a generic array method.
#[derive(Clone, Copy, PartialEq, Eq, Structural, Debug)]
pub enum Normalized {
    /// As `clean_arr_ptr` resolves it.
    Resolved(CleanPtr),
    /// A buffer or a typed array, wherever it lies.
    Registered(u64),
    /// A plain object, to be copied into an array by its `length` and
    /// indexed keys.
    ArrayLike(u64),
}

impl Heap {
    /// What the receiver of a generic array method is.
    pub open spec fn normalized(&self, bits: u64) -> Normalized {
        let addr = stripped(bits);
        let registered = self.is_typed_array(addr) || self.is_buffer(addr);
        if self.known(addr) && self.at(addr).raw_kind is Some && self.at(addr).raw_kind != Some(
            HeapKind::Array,
        ) && registered {
            Normalized::Registered(addr)
        } else if self.known(addr) && self.at(addr).raw_kind == Some(HeapKind::Object) {
            Normalized::ArrayLike(addr)
        } else {
            Normalized::Resolved(self.cleaned(bits))
        }
    }
}

/// Find what the receiver of a generic array method is.
pub fn normalize_array_receiver(heap: &Heap, bits: u64) -> (n: Normalized)
    ensures
        n == heap.normalized(bits),
{
    let addr: u64 = array_receiver_addr(bits);
    if let Some(e) = heap.entry(addr) {
        if let Some(kind) = e.raw_kind {
            if kind != HeapKind::Array {
                if kind == HeapKind::Object && !e.typed_array && !e.buffer {
                    return Normalized::ArrayLike(addr);
                }
                if e.typed_array || e.buffer {
                    return Normalized::Registered(addr);
                }
            }
        }
    }
    Normalized::Resolved(clean_arr_ptr(heap, bits))
}

/// A local's array head, brought up to date.
#[derive(Clone, Copy, PartialEq, Eq, Structural, Debug)]
pub enum RefreshedHead {
    /// The word that the local should hold.
    Value(u64),
    /// The local holds a lazy array; `refreshed_head_of` boxes what it is
    /// materialized into.
    Materialize(u64),
}

/// Box the current head of an array.
pub fn refreshed_head_of(addr: u64) -> (value: u64)
    requires
        addr < TAG_UNIT,
    ensures
        value == boxed_pointer(addr),
{
    POINTER_TAG * TAG_UNIT + addr
}

/// Point a local that holds a moved array at the array's current head. Every
/// other word is left as it is.
pub fn js_array_refresh_local_head(heap: &Heap, value: u64) -> (r: RefreshedHead)
    ensures
        ({
            let raw = value % TAG_UNIT;
            if value / TAG_UNIT != POINTER_TAG || !heap.is_plausible(raw) {
                r == RefreshedHead::Value(value)
            } else {
                match heap.cleaned(raw) {
                    CleanPtr::Null => r == RefreshedHead::Value(value),
                    CleanPtr::At(head) => r == RefreshedHead::Value(
                        if head == raw {
                            value
                        } else {
                            boxed_pointer((head % TAG_UNIT) as u64) as u64
                        },
                    ),
                    CleanPtr::Materialize(lazy) => r == RefreshedHead::Materialize(lazy),
                }
            }
        }),
{
    if value / TAG_UNIT != POINTER_TAG {
        return RefreshedHead::Value(value);
    }
    let raw: u64 = value % TAG_UNIT;
    match heap.entry(raw) {
        None => return RefreshedHead::Value(value),
        Some(e) => {
            if !e.plausible {
                return RefreshedHead::Value(value);
            }
        },
    }
    match clean_arr_ptr(heap, raw) {
        CleanPtr::Null => RefreshedHead::Value(value),
        CleanPtr::At(head) => if head == raw {
            RefreshedHead::Value(value)
        } else {
            RefreshedHead::Value(refreshed_head_of(head % TAG_UNIT))
        },
        CleanPtr::Materialize(lazy) => RefreshedHead::Materialize(lazy),
    }
}

// ---------------------------------------------------------------------------
// Laws
// ---------------------------------------------------------------------------

proof fn lemma_followed(heap: &Heap, addr: u64, left: nat)
    ensures
        heap.followed(addr, left) matches Some(head) ==> {
            &&& !heap.is_moved_array(head)
            &&& head == addr || heap.is_owned_array(head)
        },
    decreases left,
{
    if heap.is_moved_array(addr) {
        let next = heap.owned_header(addr)->0.forward_to;
        if left > 0 && heap.is_owned_array(next) {
            lemma_followed(heap, next, (left - 1) as nat);
        }
    }
}

/// What is accepted is an array that has not moved, or a registered buffer or
/// typed array, and its header makes sense.
pub proof fn law_accepted_receivers_are_arrays(heap: &Heap, bits: u64)
    requires
        heap.cleaned(bits) is At,
    ensures
        ({
            let head = heap.cleaned(bits)->At_0;
            &&& heap.known(head)
            &&& !heap.is_moved_array(head)
            &&& heap.is_owned_array(head) || (heap.owned_header(head) is None && (heap.is_buffer(
                head,
            ) || heap.is_typed_array(head)))
            &&& heap.header_makes_sense(head)
        }),
{
    lemma_followed(heap, stripped(bits), MAX_FORWARDS as nat);
}

/// Whatever the allocator owns that is no array is rejected; a static type
/// does not make it one.
pub proof fn law_owned_non_arrays_are_rejected(heap: &Heap, bits: u64)
    requires
        heap.owned_header(stripped(bits)) matches Some(h) && h.kind != HeapKind::Array && h.kind
            != HeapKind::LazyArray,
    ensures
        heap.cleaned(bits) == CleanPtr::Null,
{
}

/// Resolving twice changes nothing: the head of an array resolves to itself.
/// It has to lie where heap objects can lie, below the tags.
pub proof fn law_resolving_is_idempotent(heap: &Heap, bits: u64)
    requires
        heap.cleaned(bits) is At,
        heap.at(heap.cleaned(bits)->At_0).plausible,
        heap.cleaned(bits)->At_0 / TAG_UNIT < BOX_FLOOR,
    ensures
        heap.cleaned(heap.cleaned(bits)->At_0) == heap.cleaned(bits),
{
    lemma_followed(heap, stripped(bits), MAX_FORWARDS as nat);
}

/// A boxed receiver and the bare address are the same receiver.
pub proof fn law_boxing_does_not_matter(heap: &Heap, addr: u64)
    requires
        0 < addr < TAG_UNIT,
    ensures
        heap.cleaned(boxed_pointer(addr) as u64) == heap.cleaned(addr),
{
    let b = boxed_pointer(addr) as u64;
    assert(b / TAG_UNIT == POINTER_TAG);
    assert(b % TAG_UNIT == addr);
}

/// An array that was moved step by step resolves to its current head from any
/// of the places it was at, as long as no more than the allowed number of
/// steps lies between.
pub proof fn law_stale_heads_resolve_to_the_live_one(heap: &Heap, addr: u64, left: nat)
    requires
        heap.is_moved_array(addr),
        heap.is_owned_array(heap.owned_header(addr)->0.forward_to),
        left > 0,
    ensures
        heap.followed(addr, left) == heap.followed(
            heap.owned_header(addr)->0.forward_to,
            (left - 1) as nat,
        ),
{
}

/// A word with one of the tags from 0x7FF8 on holds its address in the lower
/// 48 bits; any other word is the address itself. The undefined value and its
/// like, and an address of zero behind a tag, name nothing.
pub proof fn law_addresses_lie_behind_their_tag(tag: u64, addr: u64)
    requires
        tag <= 0xFFFF,
        addr < 0x1_0000_0000_0000,
    ensures
        ({
            let bits = (tag * 0x1_0000_0000_0000 + addr) as u64;
            &&& tag >= 0x7FF8 ==> stripped(bits) == addr
            &&& tag < 0x7FF8 ==> stripped(bits) == bits
            &&& is_boxed_nothing(bits) <==> tag == 0x7FFC || tag >= 0x7FF8 && addr == 0
        }),
{
    let bits = (tag * 0x1_0000_0000_0000 + addr) as u64;
    assert(0 <= tag * 0x1_0000_0000_0000 + addr <= u64::MAX);
    assert(bits / TAG_UNIT == tag);
    assert(bits % TAG_UNIT == addr);
}

/// An array that has not moved resolves to itself, with all its length
/// reserved or sparse; so does a buffer or a typed array that the allocator
/// does not own.
pub proof fn law_live_arrays_resolve_to_themselves(heap: &Heap, addr: u64)
    requires
        0 < addr < TAG_UNIT,
        heap.known(addr),
        heap.at(addr).plausible,
    ensures
        ({
            let e = heap.at(addr);
            let dense = e.header.length <= e.header.capacity && e.header.length <= 100_000_000;
            let sparse = e.header.length > e.header.capacity && e.header.capacity <= 1_000_000;
            let view = e.buffer || e.typed_array;
            &&& e.owned matches Some(h) ==> {
                &&& h.kind == HeapKind::Array && !h.forwarded ==> heap.cleaned(addr) == if dense
                    || sparse || view {
                    CleanPtr::At(addr)
                } else {
                    CleanPtr::Null
                }
                &&& h.kind == HeapKind::LazyArray ==> heap.cleaned(addr) == if e.lazy_magic {
                    CleanPtr::Materialize(addr)
                } else {
                    CleanPtr::Null
                }
            }
            &&& e.owned is None ==> heap.cleaned(addr) == if view {
                CleanPtr::At(addr)
            } else {
                CleanPtr::Null
            }
        }),
{
    assert(heap.followed(addr, 64) == if !heap.is_moved_array(addr) {
        Some(addr)
    } else {
        heap.followed(addr, 64)
    });
}

/// What is not where heap objects lie is no array, nor is a word that names
/// nothing.
pub proof fn law_stray_words_are_rejected(heap: &Heap, bits: u64)
    requires
        !heap.known(stripped(bits)) || !heap.at(stripped(bits)).plausible || bits / TAG_UNIT
            == SPECIAL_TAG || (bits / TAG_UNIT >= BOX_FLOOR && bits % TAG_UNIT == 0),
    ensures
        heap.cleaned(bits) == CleanPtr::Null,
{
}

/// Where an array lies after it has moved `n` times.
pub open spec fn hop(heap: &Heap, addr: u64, n: nat) -> u64
    decreases n,
{
    if n == 0 {
        addr
    } else {
        heap.at(hop(heap, addr, (n - 1) as nat)).owned->0.forward_to
    }
}

/// Up to 64 moves are followed to the place where the array now lies. A longer
/// way, or one that leads to something else, leads nowhere.
pub proof fn law_moves_are_followed_to_the_end(heap: &Heap, addr: u64, n: nat, left: nat)
    requires
        forall|k: nat| k < n ==> heap.is_moved_array(#[trigger] hop(heap, addr, k)),
        forall|k: nat| 0 < k < n ==> heap.is_owned_array(#[trigger] hop(heap, addr, k)),
    ensures
        n <= left && !heap.is_moved_array(hop(heap, addr, n)) && (n == 0 || heap.is_owned_array(
            hop(heap, addr, n),
        )) ==> heap.followed(addr, left) == Some(hop(heap, addr, n)),
        n > left ==> heap.followed(addr, left) is None,
        n > 0 && !heap.is_owned_array(hop(heap, addr, n)) ==> heap.followed(addr, left) is None,
        MAX_FORWARDS == 64,
    decreases n,
{
    if n > 0 {
        let next = heap.at(addr).owned->0.forward_to;
        assert(hop(heap, addr, 0) == addr);
        assert forall|k: nat| k < n implies hop(heap, next, k) == hop(
            heap,
            addr,
            k + 1,
        ) by {
            lemma_hop_shifts(heap, addr, k);
        }
        lemma_hop_shifts(heap, addr, (n - 1) as nat);
        assert forall|k: nat| k < n - 1 implies heap.is_moved_array(
            #[trigger] hop(heap, next, k),
        ) by {
            lemma_hop_shifts(heap, addr, k);
            assert(heap.is_moved_array(hop(heap, addr, k + 1)));
        }
        assert forall|k: nat| 0 < k < n - 1 implies heap.is_owned_array(
            #[trigger] hop(heap, next, k),
        ) by {
            lemma_hop_shifts(heap, addr, k);
            assert(heap.is_owned_array(hop(heap, addr, k + 1)));
        }
        lemma_hop_shifts(heap, addr, 0);
        assert(hop(heap, next, 0) == next);
        if left > 0 {
            law_moves_are_followed_to_the_end(heap, next, (n - 1) as nat, (left - 1) as nat);
        }
        if n > 1 {
            assert(heap.is_moved_array(hop(heap, addr, 1)));
        }
    }
}

proof fn lemma_hop_shifts(heap: &Heap, addr: u64, k: nat)
    ensures
        hop(heap, heap.at(addr).owned->0.forward_to, k) == hop(heap, addr, k + 1),
    decreases k,
{
    assert(hop(heap, addr, 0) == addr);
    assert(hop(heap, addr, 1) == heap.at(addr).owned->0.forward_to);
    if k > 0 {
        lemma_hop_shifts(heap, addr, (k - 1) as nat);
    }
}

/// A buffer or a typed array is taken as one unless the heap holds an array
/// there; an object is taken by its length and its indexed keys; everything
/// else as an array.
pub proof fn law_receivers_are_taken_as_what_they_are(heap: &Heap, bits: u64)
    ensures
        ({
            let addr = stripped(bits);
            let e = heap.at(addr);
            let n = heap.normalized(bits);
            let kind = e.raw_kind;
            let view = e.buffer || e.typed_array;
            &&& heap.known(addr) && kind == Some(HeapKind::Object) && !view ==> n
                == Normalized::ArrayLike(addr)
            &&& heap.known(addr) && view && kind is Some && kind->0 != HeapKind::Array ==> n
                == Normalized::Registered(addr)
            &&& kind == Some(HeapKind::Array) || kind is None || !heap.known(addr) || (!view
                && kind != Some(HeapKind::Object)) ==> n == Normalized::Resolved(heap.cleaned(bits))
        }),
{
}

} // verus!
