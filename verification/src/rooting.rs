//! What the rooting code does when it runs.
//!
//! A machine for the code of `temp_root`: registers, the temp-root slots, the
//! implicit `this`, and a collector that may move every object at each
//! instruction that can reach a collection point. The collector rewrites what
//! is rooted and leaves registers alone, so a word says when its address was
//! read. The laws hold for every choice of collections.

use vstd::prelude::*;
use crate::temp_root::{
    guarded, handle_begun, handle_read, inst_collects, later_collects, lemma_quiet, lowered_rooted,
    lowered_upto, may_collect, protection, pushed, reread_at, reread_upto, store_reread,
    this_restored, this_saved, Group, Inst, LocalFacts, Operand, OperandProtection, Out,
    Val,
};

verus! {

/// Which value a word stands for.
pub ghost enum Origin {
    /// That of a string literal, which is the same each time it is loaded.
    Literal(int),
    /// That which the code at this place computed.
    Computed(int),
    /// That of a constant.
    Constant(int),
    /// One from before the code.
    Earlier(int),
}

/// A word: a value, and the collection after which its address was read. The
/// address is current while no later collection has run.
pub ghost struct Word {
    pub origin: Origin,
    pub age: int,
}

/// The state of the machine.
pub ghost struct Machine {
    pub regs: Map<u64, Word>,
    /// The slot that an index register names.
    pub slot_of: Map<u64, int>,
    pub slots: Seq<Word>,
    /// The implicit `this`, which is a root too.
    pub this_word: Word,
    /// How many collections have run.
    pub now: int,
}

impl Machine {
    /// A word as a collection leaves it in a root: its address is brought up
    /// to date, unless it was stale already.
    pub open spec fn rewritten(self, w: Word) -> Word {
        if w.age == self.now {
            Word { age: self.now + 1, ..w }
        } else {
            w
        }
    }

    /// After a collection: every root is rewritten, no register is.
    pub open spec fn collected(self) -> Machine {
        Machine {
            slots: Seq::new(self.slots.len(), |j: int| self.rewritten(self.slots[j])),
            this_word: self.rewritten(self.this_word),
            now: self.now + 1,
            ..self
        }
    }

    /// After a register was defined.
    pub open spec fn with(self, dst: u64, w: Word) -> Machine {
        Machine { regs: self.regs.insert(dst, w), ..self }
    }

    /// The word of a value.
    pub open spec fn word(self, v: Val) -> Word {
        match v {
            Val::Reg(r) => self.regs[r],
            Val::Const(c) => Word { origin: Origin::Constant(c as int), age: self.now },
        }
    }

    /// The slot that an index names.
    pub open spec fn slot(self, v: Val) -> int {
        match v {
            Val::Reg(r) => self.slot_of[r],
            Val::Const(c) => c as int,
        }
    }

    /// The value is at hand: it is this one, and its address is current.
    pub open spec fn holds(self, v: Val, origin: Origin) -> bool {
        self.word(v) == (Word { origin, age: self.now })
    }
}

/// What evaluating operand `k` at place `p` yields: a literal is the same each
/// time, anything else may have changed since it was last evaluated.
pub open spec fn origin_of(es: Seq<Operand>, k: int, p: int) -> Origin {
    if es[k].form is Text {
        Origin::Literal(k)
    } else {
        Origin::Computed(p)
    }
}

/// The instruction can reach a collection point: it is the code of an operand
/// that can, or it allocates.
pub open spec fn can_collect(facts: LocalFacts, es: Seq<Operand>, i: Inst) -> bool {
    inst_collects(facts, es, i) || i is ArrayAlloc || i is ArrayPushTempRooted
}

/// The machine after the instruction at place `p`. It collects where it can
/// and `moves` says so.
pub open spec fn machine_step(
    facts: LocalFacts,
    es: Seq<Operand>,
    moves: Set<int>,
    p: int,
    i: Inst,
    m: Machine,
) -> Machine {
    let m = if can_collect(facts, es, i) && moves.contains(p) {
        m.collected()
    } else {
        m
    };
    match i {
        Inst::Lower { dst, operand } => m.with(
            dst,
            Word { origin: origin_of(es, operand as int, p), age: m.now },
        ),
        Inst::DoubleToBits { dst, value } => m.with(dst, m.word(value)),
        Inst::BitsToDouble { dst, value } => m.with(dst, m.word(value)),
        Inst::TempRootPush { dst, value } => Machine {
            slots: m.slots.push(m.word(value)),
            slot_of: m.slot_of.insert(dst, m.slots.len() as int),
            ..m
        },
        Inst::TempRootGet { dst, slot } => m.with(dst, m.slots[m.slot(slot)]),
        Inst::TempRootSet { slot, value } => Machine {
            slots: m.slots.update(m.slot(slot), m.word(value)),
            ..m
        },
        Inst::TempRootTruncate { slot } => Machine {
            slots: if 0 <= m.slot(slot) < m.slots.len() {
                m.slots.take(m.slot(slot))
            } else {
                m.slots
            },
            ..m
        },
        Inst::ImplicitThisSet { dst, value } => Machine {
            this_word: m.word(value),
            ..m.with(dst, m.this_word)
        },
        Inst::ArrayPushTempRooted { .. } => m,
        Inst::ArrayAlloc { dst, .. } => m.with(
            dst,
            Word { origin: Origin::Computed(p), age: m.now },
        ),
    }
}

/// The machine after the code from place `from` on.
pub open spec fn machine_run(
    facts: LocalFacts,
    es: Seq<Operand>,
    moves: Set<int>,
    code: Seq<Inst>,
    from: int,
    m: Machine,
) -> Machine
    decreases code.len(),
{
    if code.len() <= from || code.len() == 0 {
        m
    } else {
        machine_step(
            facts,
            es,
            moves,
            code.len() - 1,
            code.last(),
            machine_run(facts, es, moves, code.drop_last(), from, m),
        )
    }
}

proof fn lemma_machine_push(
    facts: LocalFacts,
    es: Seq<Operand>,
    moves: Set<int>,
    code: Seq<Inst>,
    i: Inst,
    from: int,
    m: Machine,
)
    requires
        0 <= from <= code.len(),
    ensures
        machine_run(facts, es, moves, code.push(i), from, m) == machine_step(
            facts,
            es,
            moves,
            code.len() as int,
            i,
            machine_run(facts, es, moves, code, from, m),
        ),
{
    assert(code.push(i).drop_last() =~= code);
}

/// The place of operand `i`'s own code among that of its group.
pub open spec fn place_of(facts: LocalFacts, es: Seq<Operand>, o: Out, i: int) -> int {
    lowered_upto(facts, es, o, i).0.code.len() as int
}

/// Operand `i` of a group can still be had: from its slot, by loading it
/// again, or from its register, as it is protected.
spec fn kept(
    facts: LocalFacts,
    es: Seq<Operand>,
    g: Group,
    m: Machine,
    low: int,
    next: int,
    i: int,
    origin: Origin,
) -> bool {
    let p = protection(es[i], later_collects(facts, es, i));
    &&& g.values[i] matches Val::Reg(r) && low <= r < next && m.regs[r].origin == origin && (
    later_collects(facts, es, i) || m.regs[r].age == m.now)
    &&& g.slots[i] is Some == (p == OperandProtection::Root)
    &&& g.reloadable[i] == (p == OperandProtection::Reload)
    &&& g.slots[i] is Some ==> {
        &&& g.slots[i]->0 matches Val::Reg(q) && low <= q < next
        &&& 0 <= m.slot(g.slots[i]->0) < m.slots.len()
        &&& m.slots[m.slot(g.slots[i]->0)] == Word { origin, age: m.now }
    }
}

proof fn lemma_lowered_machine(
    facts: LocalFacts,
    es: Seq<Operand>,
    moves: Set<int>,
    o: Out,
    n: int,
    m: Machine,
)
    requires
        0 <= n <= es.len() <= usize::MAX,
        0 <= o.next,
        lowered_upto(facts, es, o, n).0.next <= u64::MAX,
    ensures
        ({
            let (end, g) = lowered_upto(facts, es, o, n);
            let after = machine_run(facts, es, moves, end.code, o.code.len() as int, m);
            &&& o.next <= end.next
            &&& o.code.len() <= end.code.len()
            &&& g.well_formed()
            &&& g.values.len() == n
            &&& forall|i: int|
                0 <= i < n ==> #[trigger] kept(
                    facts,
                    es,
                    g,
                    after,
                    o.next,
                    end.next,
                    i,
                    origin_of(es, i, place_of(facts, es, o, i)),
                )
        }),
    decreases n,
{
    let from = o.code.len() as int;
    if n > 0 {
        let (o1, g1) = lowered_upto(facts, es, o, n - 1);
        let (end, g) = lowered_upto(facts, es, o, n);
        let k = (n - 1) as usize;
        let o2 = o1.lower(k);
        assert(o1.next <= end.next);
        lemma_lowered_machine(facts, es, moves, o, n - 1, m);
        let m1 = machine_run(facts, es, moves, o1.code, from, m);
        let m2 = machine_run(facts, es, moves, o2.code, from, m);
        let lower = Inst::Lower { dst: o1.fresh(), operand: k };
        lemma_machine_push(facts, es, moves, o1.code, lower, from, m);
        let v = o2.last();
        let root = protection(es[n - 1], later_collects(facts, es, n - 1))
            == OperandProtection::Root;
        let after = machine_run(facts, es, moves, end.code, from, m);
        if root {
            let to_bits = Inst::DoubleToBits { dst: o2.fresh(), value: v };
            let o3 = o2.define(to_bits);
            lemma_machine_push(facts, es, moves, o2.code, to_bits, from, m);
            let push = Inst::TempRootPush { dst: o3.fresh(), value: Val::Reg(o2.fresh()) };
            lemma_machine_push(facts, es, moves, o3.code, push, from, m);
        }
        assert forall|i: int| 0 <= i < n implies #[trigger] kept(
            facts,
            es,
            g,
            after,
            o.next,
            end.next,
            i,
            origin_of(es, i, place_of(facts, es, o, i)),
        ) by {
            if i < n - 1 {
                assert(kept(
                    facts,
                    es,
                    g1,
                    m1,
                    o.next,
                    o1.next,
                    i,
                    origin_of(es, i, place_of(facts, es, o, i)),
                ));
                if !later_collects(facts, es, i) {
                    assert(!may_collect(facts, es[n - 1]));
                    lemma_quiet(facts, es[n - 1]);
                }
            }
        }
    }
}

proof fn lemma_reread_machine(
    facts: LocalFacts,
    es: Seq<Operand>,
    moves: Set<int>,
    o: Out,
    n: int,
    m: Machine,
)
    requires
        0 <= n <= es.len() <= usize::MAX,
        0 <= o.next,
        ({
            let (mid, g) = lowered_upto(facts, es, o, es.len() as int);
            reread_upto(mid, g, n).0.next <= u64::MAX
        }),
    ensures
        ({
            let from = o.code.len() as int;
            let (mid, g) = lowered_upto(facts, es, o, es.len() as int);
            let (end, values) = reread_upto(mid, g, n);
            let before = machine_run(facts, es, moves, mid.code, from, m);
            let after = machine_run(facts, es, moves, end.code, from, m);
            &&& mid.next <= end.next
            &&& mid.code.len() <= end.code.len()
            &&& values.len() == n
            &&& after.now == before.now
            &&& after.slots == before.slots
            &&& after.slot_of == before.slot_of
            &&& forall|r: u64| r < mid.next ==> #[trigger] after.regs[r] == before.regs[r]
            &&& forall|i: int|
                0 <= i < n ==> {
                    let origin = origin_of(es, i, place_of(facts, es, o, i));
                    &&& #[trigger] values[i] matches Val::Reg(r) && r < end.next
                    &&& after.word(values[i]).origin == origin
                    &&& es[i].non_pointer || after.holds(values[i], origin)
                }
        }),
    decreases n,
{
    let from = o.code.len() as int;
    let (mid, g) = lowered_upto(facts, es, o, es.len() as int);
    lemma_reread_grows(mid, g, n);
    lemma_lowered_machine(facts, es, moves, o, es.len() as int, m);
    let before = machine_run(facts, es, moves, mid.code, from, m);
    if n > 0 {
        let (o1, values1) = reread_upto(mid, g, n - 1);
        let (end, values) = reread_upto(mid, g, n);
        assert(o1.next <= end.next);
        lemma_reread_machine(facts, es, moves, o, n - 1, m);
        let m1 = machine_run(facts, es, moves, o1.code, from, m);
        let after = machine_run(facts, es, moves, end.code, from, m);
        let last = n - 1;
        assert(kept(
            facts,
            es,
            g,
            before,
            o.next,
            mid.next,
            last,
            origin_of(es, last, place_of(facts, es, o, last)),
        ));
        if g.slots[last] is Some {
            let slot = g.slots[last]->0;
            let get = Inst::TempRootGet { dst: o1.fresh(), slot };
            let o2 = o1.define(get);
            lemma_machine_push(facts, es, moves, o1.code, get, from, m);
            let to_double = Inst::BitsToDouble { dst: o2.fresh(), value: Val::Reg(o1.fresh()) };
            lemma_machine_push(facts, es, moves, o2.code, to_double, from, m);
        } else if g.reloadable[last] {
            let lower = Inst::Lower { dst: o1.fresh(), operand: last as usize };
            lemma_machine_push(facts, es, moves, o1.code, lower, from, m);
            assert(es[last].form is Text);
            lemma_quiet(facts, es[last]);
        }
        assert forall|i: int| 0 <= i < n implies ({
            let origin = origin_of(es, i, place_of(facts, es, o, i));
            &&& #[trigger] values[i] matches Val::Reg(r) && r < end.next
            &&& after.word(values[i]).origin == origin
            &&& es[i].non_pointer || after.holds(values[i], origin)
        }) by {
            if i < last {
                assert(values[i] == values1[i]);
            }
        }
    }
}

proof fn lemma_reread_grows(o: Out, g: Group, n: int)
    requires
        0 <= n,
    ensures
        o.next <= reread_upto(o, g, n).0.next,
        o.code.len() <= reread_upto(o, g, n).0.code.len(),
    decreases n,
{
    if n > 0 {
        lemma_reread_grows(o, g, n - 1);
    }
}

/// Whatever collections run while a group of operands is lowered, the
/// consumer gets of each operand the value that it had when it was evaluated,
/// at its current address. The address of what is no heap reference never
/// matters.
pub proof fn law_consumers_see_every_operand(
    facts: LocalFacts,
    es: Seq<Operand>,
    moves: Set<int>,
    o: Out,
    m: Machine,
    i: int,
)
    requires
        0 <= i < es.len() <= usize::MAX,
        0 <= o.next,
        lowered_rooted(facts, es, o).0.next <= u64::MAX,
    ensures
        ({
            let (end, values, _) = lowered_rooted(facts, es, o);
            let after = machine_run(facts, es, moves, end.code, o.code.len() as int, m);
            let origin = origin_of(es, i, place_of(facts, es, o, i));
            &&& after.word(values[i]).origin == origin
            &&& es[i].non_pointer || after.holds(values[i], origin)
        }),
{
    let (mid, g) = lowered_upto(facts, es, o, es.len() as int);
    let (end, values) = reread_upto(mid, g, es.len() as int);
    lemma_reread_machine(facts, es, moves, o, es.len() as int, m);
    assert(values[i] matches Val::Reg(r) && r < end.next);
}

/// What any code may do to the machine between two pieces of rooting code:
/// collect, define new registers, and push slots of its own. It keeps the
/// slots and the registers that were there.
pub open spec fn went_on(before: Machine, after: Machine, next: int) -> bool {
    &&& before.now <= after.now
    &&& before.slots.len() <= after.slots.len()
    &&& forall|j: int|
        0 <= j < before.slots.len() ==> {
            &&& (#[trigger] after.slots[j]).origin == before.slots[j].origin
            &&& before.slots[j].age == before.now ==> after.slots[j].age == after.now
        }
    &&& forall|r: u64| r < next ==> #[trigger] after.regs[r] == before.regs[r]
    &&& forall|r: u64| r < next ==> #[trigger] after.slot_of[r] == before.slot_of[r]
}

/// An operand of a group can be read again at any later point: whatever ran
/// in between, the value is the one that was recorded, at its current
/// address. The one duty of the caller is to announce a collection.
pub proof fn law_recorded_operands_stay_valid(
    facts: LocalFacts,
    es: Seq<Operand>,
    moves: Set<int>,
    o: Out,
    g: Group,
    k: int,
    p: int,
    value: Val,
    collects: bool,
    m: Machine,
    later: Machine,
    o2: Out,
    g2: Group,
)
    requires
        0 <= k < es.len() <= usize::MAX,
        0 <= o.next <= o2.next,
        o2.next + 2 <= u64::MAX,
        g.well_formed() && g.values.len() == k,
        value matches Val::Reg(r) && r < o.next,
        m.holds(value, origin_of(es, k, p)),
        ({
            let (o1, g1) = pushed(o, g, es[k], value, collects);
            let m1 = machine_run(facts, es, moves, o1.code, o.code.len() as int, m);
            &&& o1.next <= o2.next
            &&& went_on(m1, later, o1.next)
            &&& collects || later.now == m1.now
            &&& g2.slots[k] == g1.slots[k]
            &&& g2.values[k] == g1.values[k]
            &&& g2.reloadable[k] == g1.reloadable[k]
        }),
    ensures
        ({
            let (end, v) = reread_at(o2, g2, k);
            let after = machine_run(facts, es, moves, end.code, o2.code.len() as int, later);
            &&& after.word(v).origin == origin_of(es, k, p)
            &&& es[k].non_pointer || after.holds(v, origin_of(es, k, p))
        }),
{
    let from = o.code.len() as int;
    let (o1, g1) = pushed(o, g, es[k], value, collects);
    if protection(es[k], collects) == OperandProtection::Root {
        lemma_push_double(facts, es, moves, o, value, from, m);
        lemma_get_double(facts, es, moves, o2, g2.slots[k]->0, later);
    } else if g2.reloadable[k] {
        let lower = Inst::Lower { dst: o2.fresh(), operand: k as usize };
        lemma_machine_push(facts, es, moves, o2.code, lower, o2.code.len() as int, later);
    }
}

proof fn lemma_push_double(
    facts: LocalFacts,
    es: Seq<Operand>,
    moves: Set<int>,
    o: Out,
    value: Val,
    from: int,
    m: Machine,
)
    requires
        0 <= from <= o.code.len(),
        0 <= o.next,
        o.next + 2 <= u64::MAX,
    ensures
        ({
            let before = machine_run(facts, es, moves, o.code, from, m);
            let end = o.push_double(value);
            let after = machine_run(facts, es, moves, end.code, from, m);
            &&& after.slots == before.slots.push(before.word(value))
            &&& after.slot(end.last()) == before.slots.len()
            &&& after.now == before.now
            &&& after.this_word == before.this_word
            &&& forall|r: u64| r < o.next ==> #[trigger] after.regs[r] == before.regs[r]
        }),
{
    let to_bits = Inst::DoubleToBits { dst: o.fresh(), value };
    let o1 = o.define(to_bits);
    lemma_machine_push(facts, es, moves, o.code, to_bits, from, m);
    let push = Inst::TempRootPush { dst: o1.fresh(), value: Val::Reg(o.fresh()) };
    lemma_machine_push(facts, es, moves, o1.code, push, from, m);
}

proof fn lemma_get_double(
    facts: LocalFacts,
    es: Seq<Operand>,
    moves: Set<int>,
    o: Out,
    slot: Val,
    m: Machine,
)
    requires
        0 <= o.next,
        o.next + 2 <= u64::MAX,
    ensures
        ({
            let end = o.get_double(slot);
            let after = machine_run(facts, es, moves, end.code, o.code.len() as int, m);
            &&& after.word(end.last()) == m.slots[m.slot(slot)]
            &&& after.now == m.now
            &&& after.slots == m.slots
            &&& after.slot_of == m.slot_of
            &&& after.this_word == m.this_word
        }),
{
    let from = o.code.len() as int;
    let get = Inst::TempRootGet { dst: o.fresh(), slot };
    let o1 = o.define(get);
    lemma_machine_push(facts, es, moves, o.code, get, from, m);
    let to_double = Inst::BitsToDouble { dst: o1.fresh(), value: Val::Reg(o.fresh()) };
    lemma_machine_push(facts, es, moves, o1.code, to_double, from, m);
}

/// The receiver or key of a store survives the evaluation of the value: read
/// again, it is the one that was lowered, at its current address.
pub proof fn law_store_operands_stay_valid(
    facts: LocalFacts,
    es: Seq<Operand>,
    moves: Set<int>,
    o: Out,
    k: int,
    p: int,
    lowered: Val,
    collects: bool,
    m: Machine,
    later: Machine,
    o2: Out,
)
    requires
        0 <= k < es.len() <= usize::MAX,
        0 <= o.next <= o2.next,
        o2.next + 2 <= u64::MAX,
        lowered matches Val::Reg(r) && r < o.next,
        m.holds(lowered, origin_of(es, k, p)),
        ({
            let (o1, _) = guarded(o, es[k], lowered, collects);
            let m1 = machine_run(facts, es, moves, o1.code, o.code.len() as int, m);
            &&& o1.next <= o2.next
            &&& went_on(m1, later, o1.next)
            &&& collects || later.now == m1.now
        }),
    ensures
        ({
            let (_, guard) = guarded(o, es[k], lowered, collects);
            let (end, v) = store_reread(o2, guard, k as usize, lowered);
            let after = machine_run(facts, es, moves, end.code, o2.code.len() as int, later);
            &&& after.word(v).origin == origin_of(es, k, p)
            &&& es[k].non_pointer || after.holds(v, origin_of(es, k, p))
        }),
{
    let from = o.code.len() as int;
    let (o1, guard) = guarded(o, es[k], lowered, collects);
    if protection(es[k], collects) == OperandProtection::Root {
        lemma_push_double(facts, es, moves, o, lowered, from, m);
        lemma_get_double(facts, es, moves, o2, guard.slot->0, later);
    } else if guard.reload {
        let lower = Inst::Lower { dst: o2.fresh(), operand: k as usize };
        lemma_machine_push(facts, es, moves, o2.code, lower, o2.code.len() as int, later);
    }
}

/// A half-built container survives its initializers: read again, the handle
/// is the one that was rooted, at its current address.
pub proof fn law_handles_stay_valid(
    facts: LocalFacts,
    es: Seq<Operand>,
    moves: Set<int>,
    o: Out,
    handle: Val,
    origin: Origin,
    protect: bool,
    m: Machine,
    later: Machine,
    o2: Out,
)
    requires
        0 <= o.next <= o2.next,
        o2.next + 1 <= u64::MAX,
        handle matches Val::Reg(r) && r < o.next,
        m.holds(handle, origin),
        ({
            let (o1, _) = handle_begun(o, handle, protect);
            let m1 = machine_run(facts, es, moves, o1.code, o.code.len() as int, m);
            &&& o1.next <= o2.next
            &&& went_on(m1, later, o1.next)
            &&& protect || later.now == m1.now
        }),
    ensures
        ({
            let (_, h) = handle_begun(o, handle, protect);
            let (end, v) = handle_read(o2, h);
            let after = machine_run(facts, es, moves, end.code, o2.code.len() as int, later);
            after.holds(v, origin)
        }),
{
    let (o1, h) = handle_begun(o, handle, protect);
    if protect {
        let push = Inst::TempRootPush { dst: o.fresh(), value: handle };
        lemma_machine_push(facts, es, moves, o.code, push, o.code.len() as int, m);
        let get = Inst::TempRootGet { dst: o2.fresh(), slot: h.slot->0 };
        lemma_machine_push(facts, es, moves, o2.code, get, o2.code.len() as int, later);
    }
}

/// A dispatch leaves the implicit `this` as it found it: the restored value is
/// the one that was bound before, at its current address, and the slot that
/// held it is gone.
pub proof fn law_implicit_this_is_restored(
    facts: LocalFacts,
    es: Seq<Operand>,
    moves: Set<int>,
    o: Out,
    new_this: Val,
    m: Machine,
    later: Machine,
    o2: Out,
)
    requires
        0 <= o.next,
        o2.next + 3 <= u64::MAX,
        m.this_word.age == m.now,
        ({
            let o1 = this_saved(o, new_this);
            let m1 = machine_run(facts, es, moves, o1.code, o.code.len() as int, m);
            &&& o1.next <= o2.next
            &&& went_on(m1, later, o1.next)
        }),
    ensures
        ({
            let slot = this_saved(o, new_this).last();
            let end = this_restored(o2, slot);
            let after = machine_run(facts, es, moves, end.code, o2.code.len() as int, later);
            &&& after.this_word == Word { origin: m.this_word.origin, age: after.now }
            &&& after.slots == later.slots.take(m.slots.len() as int)
        }),
{
    let from = o.code.len() as int;
    let bind = Inst::ImplicitThisSet { dst: o.fresh(), value: new_this };
    lemma_machine_push(facts, es, moves, o.code, bind, from, m);
    lemma_push_double(facts, es, moves, o.define(bind), Val::Reg(o.fresh()), from, m);
    let m1 = machine_run(facts, es, moves, this_saved(o, new_this).code, from, m);
    let slot = this_saved(o, new_this).last();
    assert(later.slots[m.slots.len() as int].origin == m1.slots[m.slots.len() as int].origin);
    lemma_get_double(facts, es, moves, o2, slot, later);
    let read = o2.get_double(slot);
    let truncate = Inst::TempRootTruncate { slot };
    let from2 = o2.code.len() as int;
    lemma_machine_push(facts, es, moves, read.code, truncate, from2, later);
    let dropped = read.truncate(slot);
    let rebind = Inst::ImplicitThisSet { dst: dropped.fresh(), value: read.last() };
    lemma_machine_push(facts, es, moves, dropped.code, rebind, from2, later);
}

} // verus!
