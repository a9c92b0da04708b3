//! The collector's view of a runtime table: a visitor that is shown every
//! root and says where it is now.

use std::collections::HashMap;
use vstd::prelude::*;
use vstd::std_specs::iter::IteratorSpec;

verus! {

broadcast use vstd::std_specs::hash::group_hash_axioms;

/// One root shown to the collector.
#[derive(Clone, Copy, PartialEq, Eq, Structural, Debug)]
pub enum Visit {
    /// An address whose object stays alive.
    Pointer(u64),
    /// A boxed value; what it points to stays alive.
    Word(u64),
    /// An address that is followed, but keeps nothing alive.
    Metadata(u64),
}

/// Where objects have moved to.
pub ghost struct Moves {
    pub addrs: Map<u64, u64>,
    pub words: Map<u64, u64>,
}

impl Moves {
    /// Where the object at `addr` is now.
    pub open spec fn new_addr(self, addr: u64) -> u64 {
        if self.addrs.dom().contains(addr) {
            self.addrs[addr]
        } else {
            addr
        }
    }

    /// What the boxed value is now.
    pub open spec fn new_word(self, word: u64) -> u64 {
        if self.words.dom().contains(word) {
            self.words[word]
        } else {
            word
        }
    }
}

/// The collector, as a table sees it: where each object has moved to, and
/// the roots that it has been shown, oldest first.
pub struct RuntimeRootVisitor {
    /// The new address of each object that has moved.
    pub moves: HashMap<u64, u64>,
    /// The new form of each boxed value whose object has moved.
    pub word_moves: HashMap<u64, u64>,
    /// The roots shown so far.
    pub visits: Vec<Visit>,
}

impl RuntimeRootVisitor {
    /// Where objects have moved to.
    pub open spec fn known(&self) -> Moves {
        Moves { addrs: self.moves@, words: self.word_moves@ }
    }

    /// Where the object at `addr` is now.
    pub fn moved(&self, addr: u64) -> (r: u64)
        ensures
            r == self.known().new_addr(addr),
    {
        match self.moves.get(&addr) {
            Some(a) => *a,
            None => addr,
        }
    }

    /// Show a pointer; the result is its new value.
    pub fn visit_raw_mut_ptr_slot(&mut self, ptr: u64) -> (r: u64)
        ensures
            r == old(self).known().new_addr(ptr),
            final(self).known() == old(self).known(),
            final(self).visits@ == old(self).visits@.push(Visit::Pointer(ptr)),
    {
        self.visits.push(Visit::Pointer(ptr));
        self.moved(ptr)
    }

    /// Show an address that is followed, but keeps nothing alive; the result
    /// is its new value.
    pub fn visit_metadata_usize_slot(&mut self, addr: u64) -> (r: u64)
        ensures
            r == old(self).known().new_addr(addr),
            final(self).known() == old(self).known(),
            final(self).visits@ == old(self).visits@.push(Visit::Metadata(addr)),
    {
        self.visits.push(Visit::Metadata(addr));
        self.moved(addr)
    }

    /// Show a boxed value; the result is its new form.
    pub fn visit_nanbox_slot(&mut self, word: u64) -> (r: u64)
        ensures
            r == old(self).known().new_word(word),
            final(self).known() == old(self).known(),
            final(self).visits@ == old(self).visits@.push(Visit::Word(word)),
    {
        self.visits.push(Visit::Word(word));
        match self.word_moves.get(&word) {
            Some(w) => *w,
            None => word,
        }
    }
}

/// A sequence that walks through a set, each member once.
pub open spec fn is_walk_of(order: Seq<u64>, s: Set<u64>) -> bool {
    order.no_duplicates() && order.to_set() == s
}

/// The keys of a table, in the order in which it is walked.
pub fn table_keys<V>(m: &HashMap<u64, V>) -> (keys: Vec<u64>)
    ensures
        is_walk_of(keys@, m@.dom()),
{
    let mut keys: Vec<u64> = Vec::new();
    let ghost all = m.keys().remaining();
    for k in it: m.keys()
        invariant
            it.seq() == all,
            keys@.len() == it.index(),
            forall|i: int| 0 <= i < it.index() ==> #[trigger] keys@[i] == *all[i],
    {
        keys.push(*k);
    }
    assert(keys@ =~= all.unref());
    assert(keys@.no_duplicates()) by {
        assert forall|i: int, j: int| 0 <= i < keys@.len() && 0 <= j < keys@.len() && i != j implies keys@[i] != keys@[j] by {
            assert(all[i] != all[j]);
        }
    }
    keys
}

/// A longer prefix has one member more.
pub proof fn lemma_prefix_members(s: Seq<u64>, i: int)
    requires
        0 <= i < s.len(),
    ensures
        forall|x: u64| #[trigger]
            s.take(i + 1).contains(x) <==> s.take(i).contains(x) || x == s[i],
{
    assert(s.take(i + 1) =~= s.take(i).push(s[i]));
    assert forall|x: u64| s.take(i + 1).contains(x) implies s.take(i).contains(x) || x == s[i] by {
        let j = choose|j: int| 0 <= j < i + 1 && #[trigger] s.take(i + 1)[j] == x;
        if j < i {
            assert(s.take(i)[j] == x);
        }
    }
    assert forall|x: u64| s.take(i).contains(x) || x == s[i] implies #[trigger] s.take(
        i + 1,
    ).contains(x) by {
        if x == s[i] {
            assert(s.take(i + 1)[i] == x);
        } else {
            let j = choose|j: int| 0 <= j < i && #[trigger] s.take(i)[j] == x;
            assert(s.take(i + 1)[j] == x);
        }
    }
}

/// What moved is found at its new place, and what did not stays where it is.
pub proof fn law_moved_objects_are_found(mv: Moves, a: u64)
    ensures
        mv.addrs.dom().contains(a) ==> mv.new_addr(a) == mv.addrs[a],
        !mv.addrs.dom().contains(a) ==> mv.new_addr(a) == a,
        mv.words.dom().contains(a) ==> mv.new_word(a) == mv.words[a],
        !mv.words.dom().contains(a) ==> mv.new_word(a) == a,
{
}

} // verus!
