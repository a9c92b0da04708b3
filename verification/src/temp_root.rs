//! Precise rooting for expression temporaries.
//!
//! A value that exists only between two instructions lives in a register, and
//! a register is no root for the garbage collector: an operand that waits for
//! its sibling dies, or moves away, if the sibling's evaluation collects. The
//! code emitted here keeps such operands in temp-root slots, which the
//! collector marks and rewrites, and reads them back below the last point
//! that can collect:
//!
//! ```text
//! idx = temp_root_push(value)     before the collection point
//! ...                             anything that may collect
//! v   = temp_root_get(idx)        always read again
//!       temp_root_truncate(idx)   after the last use
//! ```
//!
//! No operand register outlives a collection point: after the last thing that
//! can collect, every operand is re-read from a slot, or re-derived from
//! immutable storage, or is no heap reference at all.

use std::collections::HashMap;
use vstd::prelude::*;
use crate::hir::Type;

verus! {

broadcast use vstd::std_specs::hash::group_hash_axioms;

// ---------------------------------------------------------------------------
// Operands
// ---------------------------------------------------------------------------

/// A binary operator, as far as rooting tells them apart: `+` may
/// concatenate, and then its result is a fresh heap value.
#[derive(Clone, Copy, PartialEq, Eq, Structural, Debug)]
pub enum BinaryOp {
    Add,
    NonAdd,
}

/// The shape of an operand expression.
pub enum Form {
    Undefined,
    Null,
    Bool(bool),
    /// A number, by its IEEE-754 bit pattern.
    Number(u64),
    Integer(i64),
    /// A string literal.
    Text(String),
    LocalGet(u32),
    GlobalGet(u32),
    /// `++` or `--` on a local.
    Update(u32),
    Unary(Box<Operand>),
    Compare(Box<Operand>, Box<Operand>),
    Binary(BinaryOp, Box<Operand>, Box<Operand>),
    Conditional(Box<Operand>, Box<Operand>, Box<Operand>),
    Sequence(Vec<Operand>),
    /// Any other expression.
    Opaque,
}

/// An operand expression, with the verdict of the shadow-value analysis on
/// it: `non_pointer` holds where its value provably is no heap reference.
pub struct Operand {
    pub form: Form,
    pub non_pointer: bool,
}

/// What is known of a function's locals.
pub struct LocalFacts {
    /// The locals that have a shadow slot, with its index: those that may
    /// hold a pointer.
    pub shadow_slot_map: HashMap<u32, u32>,
    /// The bindings that are module-level globals, with their symbol.
    pub module_globals: HashMap<u32, String>,
    /// The refined types.
    pub local_types: HashMap<u32, Type>,
}

/// Types whose values are primitives that never live on the heap.
pub open spec fn is_inert_type(ty: Type) -> bool {
    ty is Number || ty is Int32 || ty is Boolean || ty is Null || ty is Void || ty is Never
}

/// A local that provably holds a non-pointer primitive: it has no shadow
/// slot, is no module global, and its refined type says so.
pub open spec fn is_inert_local(facts: LocalFacts, id: u32) -> bool {
    &&& !facts.shadow_slot_map@.dom().contains(id)
    &&& !facts.module_globals@.dom().contains(id)
    &&& facts.local_types@.dom().contains(id)
    &&& is_inert_type(facts.local_types@[id])
}

/// Does the local provably hold a non-pointer primitive?
pub fn local_is_inert_primitive(facts: &LocalFacts, id: u32) -> (r: bool)
    ensures
        r == is_inert_local(*facts, id),
{
    if facts.shadow_slot_map.contains_key(&id) || facts.module_globals.contains_key(&id) {
        return false;
    }
    match facts.local_types.get(&id) {
        Some(ty) => matches!(
            ty,
            Type::Number | Type::Int32 | Type::Boolean | Type::Null | Type::Void | Type::Never
        ),
        None => false,
    }
}

/// A value whose evaluation and coercion provably neither run user code nor
/// allocate: literals, inert locals, and operators over those, where `+`
/// also needs both operands to be no heap references, since it concatenates
/// strings.
pub open spec fn is_inert(facts: LocalFacts, e: Operand) -> bool
    decreases e,
{
    match e.form {
        Form::Undefined | Form::Null | Form::Bool(_) | Form::Number(_) | Form::Integer(_)
        | Form::Text(_) => true,
        Form::LocalGet(id) | Form::Update(id) => is_inert_local(facts, id),
        Form::Unary(x) => is_inert(facts, *x),
        Form::Compare(l, r) => is_inert(facts, *l) && is_inert(facts, *r),
        Form::Binary(op, l, r) => {
            &&& is_inert(facts, *l)
            &&& is_inert(facts, *r)
            &&& op == BinaryOp::Add ==> l.non_pointer && r.non_pointer
        },
        _ => false,
    }
}

/// Is the operand's evaluation and coercion provably free of user code and
/// allocation?
pub fn expr_is_inert_primitive(facts: &LocalFacts, e: &Operand) -> (r: bool)
    ensures
        r == is_inert(*facts, *e),
    decreases e,
{
    match &e.form {
        Form::Undefined | Form::Null | Form::Bool(_) | Form::Number(_) | Form::Integer(_)
        | Form::Text(_) => true,
        Form::LocalGet(id) | Form::Update(id) => local_is_inert_primitive(facts, *id),
        Form::Unary(x) => expr_is_inert_primitive(facts, x),
        Form::Compare(l, r) => expr_is_inert_primitive(facts, l) && expr_is_inert_primitive(
            facts,
            r,
        ),
        Form::Binary(op, l, r) => expr_is_inert_primitive(facts, l) && expr_is_inert_primitive(
            facts,
            r,
        ) && (*op != BinaryOp::Add || (l.non_pointer && r.non_pointer)),
        _ => false,
    }
}

/// Can evaluating the operand reach a collection point? Only what provably
/// allocates nothing answers no.
pub open spec fn may_collect(facts: LocalFacts, e: Operand) -> bool
    decreases e,
{
    match e.form {
        Form::Undefined | Form::Null | Form::Bool(_) | Form::Number(_) | Form::Integer(_)
        | Form::LocalGet(_) | Form::GlobalGet(_) | Form::Text(_) => false,
        Form::Unary(_) | Form::Compare(..) | Form::Binary(..) => !is_inert(facts, e),
        Form::Conditional(c, t, f) => may_collect(facts, *c) || may_collect(facts, *t)
            || may_collect(facts, *f),
        Form::Sequence(es) => any_collects(facts, es),
        _ => true,
    }
}

/// Can evaluating one of the operands reach a collection point?
pub open spec fn any_collects(facts: LocalFacts, es: Vec<Operand>) -> bool
    decreases es,
{
    exists|i: int| 0 <= i < es@.len() && may_collect(facts, #[trigger] es@[i])
}

/// Can evaluating the operand reach a collection point?
pub fn expr_may_trigger_gc(facts: &LocalFacts, e: &Operand) -> (r: bool)
    ensures
        r == may_collect(*facts, *e),
    decreases e,
{
    match &e.form {
        Form::Undefined | Form::Null | Form::Bool(_) | Form::Number(_) | Form::Integer(_)
        | Form::LocalGet(_) | Form::GlobalGet(_) | Form::Text(_) => false,
        Form::Unary(_) | Form::Compare(..) | Form::Binary(..) => !expr_is_inert_primitive(facts, e),
        Form::Conditional(c, t, f) => expr_may_trigger_gc(facts, c) || expr_may_trigger_gc(facts, t)
            || expr_may_trigger_gc(facts, f),
        Form::Sequence(es) => any_may_trigger_gc(facts, es),
        _ => true,
    }
}

/// Can evaluating one of the operands reach a collection point?
pub fn any_may_trigger_gc(facts: &LocalFacts, es: &Vec<Operand>) -> (r: bool)
    ensures
        r == any_collects(*facts, *es),
    decreases es,
{
    let mut i: usize = 0;
    while i < es.len()
        invariant
            i <= es@.len(),
            forall|k: int| 0 <= k < i ==> !may_collect(*facts, #[trigger] es@[k]),
        decreases es@.len() - i,
    {
        assert(decreases_to!(*es => es@[i as int]));
        if expr_may_trigger_gc(facts, &es[i]) {
            assert(may_collect(*facts, es@[i as int]));
            return true;
        }
        i = i + 1;
    }
    false
}

// ---------------------------------------------------------------------------
// What evaluating an operand runs
// ---------------------------------------------------------------------------

/// Operand `s` is `e`, or is evaluated somewhere within it: as an operand, a
/// condition, a branch or a member of a sequence.
pub open spec fn part_of(s: Operand, e: Operand) -> bool
    decreases e,
{
    s == e || match e.form {
        Form::Unary(x) => part_of(s, *x),
        Form::Compare(l, r) => part_of(s, *l) || part_of(s, *r),
        Form::Binary(_, l, r) => part_of(s, *l) || part_of(s, *r),
        Form::Conditional(c, t, f) => part_of(s, *c) || part_of(s, *t) || part_of(s, *f),
        Form::Sequence(es) => part_of_one(s, es),
        _ => false,
    }
}

/// Operand `s` is evaluated within one of the operands.
pub open spec fn part_of_one(s: Operand, es: Vec<Operand>) -> bool
    decreases es,
{
    exists|i: int| 0 <= i < es@.len() && part_of(s, #[trigger] es@[i])
}

/// Values of the type may live on the heap.
pub open spec fn lives_on_heap(ty: Type) -> bool {
    match ty {
        Type::Any | Type::Unknown | Type::BigInt | Type::String | Type::Symbol | Type::Array(_)
        | Type::Tuple(_) | Type::Object(_) | Type::Union(_) | Type::Named(_)
        | Type::Generic { .. } | Type::Function => true,
        Type::Void | Type::Null | Type::Never | Type::Boolean | Type::Number | Type::Int32 => {
            false
        },
    }
}

/// The local may hold an object: another function may assign to it, it was
/// given a root, or its type does not say otherwise.
pub open spec fn may_hold_object(facts: LocalFacts, id: u32) -> bool {
    ||| facts.module_globals@.dom().contains(id)
    ||| facts.shadow_slot_map@.dom().contains(id)
    ||| !facts.local_types@.dom().contains(id)
    ||| lives_on_heap(facts.local_types@[id])
}

/// The value of the operand may be an object, whose coercion calls whatever
/// method it has for that. The results of operators are primitives.
pub open spec fn may_be_object(facts: LocalFacts, e: Operand) -> bool {
    match e.form {
        Form::LocalGet(id) => may_hold_object(facts, id),
        Form::GlobalGet(_) | Form::Conditional(..) | Form::Sequence(_) | Form::Opaque => true,
        _ => false,
    }
}

/// Evaluating this very node, its parts aside, may run code of the program or
/// allocate: calls and the like may, an operator may where it coerces an
/// object, and `+` where it concatenates.
pub open spec fn runs_code(facts: LocalFacts, e: Operand) -> bool {
    match e.form {
        Form::Opaque => true,
        Form::Update(id) => may_hold_object(facts, id),
        Form::Unary(x) => may_be_object(facts, *x),
        Form::Compare(l, r) => may_be_object(facts, *l) || may_be_object(facts, *r),
        Form::Binary(op, l, r) => {
            ||| may_be_object(facts, *l)
            ||| may_be_object(facts, *r)
            ||| op == BinaryOp::Add && !(l.non_pointer && r.non_pointer)
        },
        _ => false,
    }
}

/// Evaluating the operand may run code of the program or allocate, in some
/// part of it.
pub open spec fn evaluates_code(facts: LocalFacts, e: Operand) -> bool {
    exists|s: Operand| #[trigger] part_of(s, e) && runs_code(facts, s)
}

proof fn lemma_inert_is_no_object(facts: LocalFacts, e: Operand)
    requires
        is_inert(facts, e),
    ensures
        !may_be_object(facts, e),
{
}

/// No part of what is inert runs anything, and each part is inert.
proof fn lemma_inert_parts(facts: LocalFacts, s: Operand, e: Operand)
    requires
        is_inert(facts, e),
        part_of(s, e),
    ensures
        is_inert(facts, s),
        !runs_code(facts, s),
    decreases e,
{
    match e.form {
        Form::Unary(x) => {
            lemma_inert_is_no_object(facts, *x);
            if s != e {
                lemma_inert_parts(facts, s, *x);
            }
        },
        Form::Compare(l, r) => {
            lemma_inert_is_no_object(facts, *l);
            lemma_inert_is_no_object(facts, *r);
            if part_of(s, *l) {
                lemma_inert_parts(facts, s, *l);
            } else if s != e {
                lemma_inert_parts(facts, s, *r);
            }
        },
        Form::Binary(_, l, r) => {
            lemma_inert_is_no_object(facts, *l);
            lemma_inert_is_no_object(facts, *r);
            if part_of(s, *l) {
                lemma_inert_parts(facts, s, *l);
            } else if s != e {
                lemma_inert_parts(facts, s, *r);
            }
        },
        _ => {},
    }
}

/// Nothing runs unannounced: where any part of an operand, a branch that is
/// not taken included, may run code of the program or allocate, the whole
/// operand counts as one that may collect.
pub proof fn law_what_runs_may_collect(facts: LocalFacts, s: Operand, e: Operand)
    requires
        part_of(s, e),
        runs_code(facts, s),
    ensures
        may_collect(facts, e),
        evaluates_code(facts, e),
    decreases e,
{
    match e.form {
        Form::Unary(_) | Form::Compare(..) | Form::Binary(..) => {
            if is_inert(facts, e) {
                lemma_inert_parts(facts, s, e);
            }
        },
        Form::Conditional(c, t, f) => {
            if part_of(s, *c) {
                law_what_runs_may_collect(facts, s, *c);
            } else if part_of(s, *t) {
                law_what_runs_may_collect(facts, s, *t);
            } else if part_of(s, *f) {
                law_what_runs_may_collect(facts, s, *f);
            }
        },
        Form::Sequence(es) => {
            if s != e {
                assert(part_of_one(s, es));
                let i = choose|i: int| 0 <= i < es@.len() && part_of(s, #[trigger] es@[i]);
                assert(decreases_to!(e => es));
                assert(decreases_to!(es => es@[i]));
                law_what_runs_may_collect(facts, s, es@[i]);
                assert(may_collect(facts, es@[i]));
                assert(any_collects(facts, es));
            }
        },
        _ => {},
    }
}

/// Whether an operand may collect is closed under what is evaluated: one part
/// that may collect makes the whole so. An update of a local is the one part
/// that is judged more strictly on its own than within an operator.
pub proof fn law_collecting_parts_make_the_whole_collect(facts: LocalFacts, s: Operand, e: Operand)
    requires
        part_of(s, e),
        may_collect(facts, s),
        !(s.form is Update),
    ensures
        may_collect(facts, e),
    decreases e,
{
    if s != e {
        match e.form {
            Form::Unary(_) | Form::Compare(..) | Form::Binary(..) => {
                if is_inert(facts, e) {
                    lemma_inert_parts(facts, s, e);
                    law_inert_operands_do_not_collect(facts, s);
                }
            },
            Form::Conditional(c, t, f) => {
                if part_of(s, *c) {
                    law_collecting_parts_make_the_whole_collect(facts, s, *c);
                } else if part_of(s, *t) {
                    law_collecting_parts_make_the_whole_collect(facts, s, *t);
                } else {
                    law_collecting_parts_make_the_whole_collect(facts, s, *f);
                }
            },
            Form::Sequence(es) => {
                assert(part_of_one(s, es));
                let i = choose|i: int| 0 <= i < es@.len() && part_of(s, #[trigger] es@[i]);
                assert(decreases_to!(e => es));
                assert(decreases_to!(es => es@[i]));
                law_collecting_parts_make_the_whole_collect(facts, s, es@[i]);
                assert(may_collect(facts, es@[i]));
                assert(any_collects(facts, es));
            },
            _ => {},
        }
    }
}

/// A part of a part is a part.
proof fn lemma_parts_nest(a: Operand, b: Operand, e: Operand)
    requires
        part_of(a, b),
        part_of(b, e),
    ensures
        part_of(a, e),
    decreases e,
{
    if b != e {
        match e.form {
            Form::Unary(x) => lemma_parts_nest(a, b, *x),
            Form::Compare(l, r) | Form::Binary(_, l, r) => {
                if part_of(b, *l) {
                    lemma_parts_nest(a, b, *l);
                } else {
                    lemma_parts_nest(a, b, *r);
                }
            },
            Form::Conditional(c, t, f) => {
                if part_of(b, *c) {
                    lemma_parts_nest(a, b, *c);
                } else if part_of(b, *t) {
                    lemma_parts_nest(a, b, *t);
                } else {
                    lemma_parts_nest(a, b, *f);
                }
            },
            Form::Sequence(es) => {
                assert(part_of_one(b, es));
                let i = choose|i: int| 0 <= i < es@.len() && part_of(b, #[trigger] es@[i]);
                assert(decreases_to!(e => es));
                assert(decreases_to!(es => es@[i]));
                lemma_parts_nest(a, b, es@[i]);
                assert(part_of(a, es@[i]));
                assert(part_of_one(a, es));
            },
            _ => {},
        }
    }
}

proof fn lemma_parts_run(facts: LocalFacts, b: Operand, e: Operand)
    requires
        part_of(b, e),
        evaluates_code(facts, b),
    ensures
        evaluates_code(facts, e),
{
    let s = choose|s: Operand| #[trigger] part_of(s, b) && runs_code(facts, s);
    lemma_parts_nest(s, b, e);
}

/// What is not inert, and no operand that could be an object, runs code in
/// some part.
proof fn lemma_not_inert_runs(facts: LocalFacts, e: Operand)
    requires
        !is_inert(facts, e),
        !may_be_object(facts, e),
    ensures
        evaluates_code(facts, e),
    decreases e,
{
    assert(part_of(e, e));
    if !runs_code(facts, e) {
        match e.form {
            Form::Unary(x) => {
                assert(part_of(*x, *x));
                assert(part_of(*x, e));
                lemma_not_inert_runs(facts, *x);
                lemma_parts_run(facts, *x, e);
            },
            Form::Compare(l, r) | Form::Binary(_, l, r) => {
                assert(part_of(*l, *l));
                assert(part_of(*r, *r));
                assert(part_of(*l, e));
                assert(part_of(*r, e));
                if !is_inert(facts, *l) {
                    lemma_not_inert_runs(facts, *l);
                    lemma_parts_run(facts, *l, e);
                } else {
                    lemma_not_inert_runs(facts, *r);
                    lemma_parts_run(facts, *r, e);
                }
            },
            _ => {},
        }
    }
}

/// An operand is said to collect only for a reason: some part of it may run
/// code or allocate, or updates a local.
pub proof fn law_only_what_runs_may_collect(facts: LocalFacts, e: Operand)
    requires
        may_collect(facts, e),
    ensures
        evaluates_code(facts, e) || exists|s: Operand| #[trigger]
            part_of(s, e) && s.form is Update,
    decreases e,
{
    assert(part_of(e, e));
    match e.form {
        Form::Unary(_) | Form::Compare(..) | Form::Binary(..) => lemma_not_inert_runs(facts, e),
        Form::Conditional(c, t, f) => {
            let b = if may_collect(facts, *c) {
                *c
            } else if may_collect(facts, *t) {
                *t
            } else {
                *f
            };
            assert(part_of(b, b));
            assert(part_of(b, e));
            law_only_what_runs_may_collect(facts, b);
            if evaluates_code(facts, b) {
                lemma_parts_run(facts, b, e);
            } else {
                let s = choose|s: Operand| #[trigger] part_of(s, b) && s.form is Update;
                lemma_parts_nest(s, b, e);
            }
        },
        Form::Sequence(es) => {
            assert(any_collects(facts, es));
            let i = choose|i: int| 0 <= i < es@.len() && may_collect(facts, #[trigger] es@[i]);
            let b = es@[i];
            assert(decreases_to!(e => es));
            assert(decreases_to!(es => es@[i]));
            assert(part_of(b, b));
            assert(part_of_one(b, es));
            assert(part_of(b, e));
            law_only_what_runs_may_collect(facts, b);
            if evaluates_code(facts, b) {
                lemma_parts_run(facts, b, e);
            } else {
                let s = choose|s: Operand| #[trigger] part_of(s, b) && s.form is Update;
                lemma_parts_nest(s, b, e);
            }
        },
        _ => {},
    }
}

/// An inert local can hold no object: it is no global, has no root, and its
/// type keeps it off the heap. A local for which all that holds is inert.
pub proof fn law_inert_locals_hold_no_object(facts: LocalFacts, id: u32)
    ensures
        is_inert_local(facts, id) == !may_hold_object(facts, id),
{
}

/// What evaluating an operand may run is announced.
pub proof fn law_running_operands_are_announced(facts: LocalFacts, e: Operand)
    requires
        evaluates_code(facts, e),
    ensures
        may_collect(facts, e),
{
    let s = choose|s: Operand| #[trigger] part_of(s, e) && runs_code(facts, s);
    law_what_runs_may_collect(facts, s, e);
}

/// What may not collect runs nothing.
pub proof fn lemma_quiet(facts: LocalFacts, e: Operand)
    requires
        !may_collect(facts, e),
    ensures
        !evaluates_code(facts, e),
{
    if evaluates_code(facts, e) {
        law_running_operands_are_announced(facts, e);
    }
}

// ---------------------------------------------------------------------------
// The protection of an operand
// ---------------------------------------------------------------------------

/// What an already lowered operand needs so that its consumer sees a valid
/// value across a following collection point.
#[derive(Clone, Copy, PartialEq, Eq, Structural, Debug)]
pub enum OperandProtection {
    /// Push a temp-root slot and read it again. The slot keeps the value that
    /// the operand had, alive and at its current address.
    Root,
    /// Lower the operand again: its storage is immutable and a root itself.
    Reload,
    /// Keep the register: nothing can collect in between, or the value is no
    /// heap reference.
    Reuse,
}

/// A string literal can be loaded again; nothing else is immutable.
pub open spec fn is_reloadable(e: Operand) -> bool {
    e.form is Text
}

/// The operand needs a slot of its own across a collection point.
pub open spec fn needs_root(e: Operand) -> bool {
    !e.non_pointer && !is_reloadable(e)
}

/// The one decision on how an operand is protected.
pub open spec fn protection(e: Operand, collects: bool) -> OperandProtection {
    if !collects {
        OperandProtection::Reuse
    } else if needs_root(e) {
        OperandProtection::Root
    } else if is_reloadable(e) {
        OperandProtection::Reload
    } else {
        OperandProtection::Reuse
    }
}

/// Does lowering the operand again, after a collection, give the same value
/// at its current address?
pub fn operand_is_reloadable(e: &Operand) -> (r: bool)
    ensures
        r == is_reloadable(*e),
{
    matches!(e.form, Form::Text(_))
}

/// Would the operand need a temp root if everything after it could collect?
pub fn operand_needs_root(e: &Operand) -> (r: bool)
    ensures
        r == needs_root(*e),
{
    !e.non_pointer && !matches!(e.form, Form::Text(_))
}

/// Decide how an operand is protected; `collects` says whether anything
/// between it and its consumer can reach a collection point.
pub fn operand_protection(e: &Operand, collects: bool) -> (p: OperandProtection)
    ensures
        p == protection(*e, collects),
{
    if !collects {
        return OperandProtection::Reuse;
    }
    if operand_needs_root(e) {
        return OperandProtection::Root;
    }
    if operand_is_reloadable(e) {
        return OperandProtection::Reload;
    }
    OperandProtection::Reuse
}

// ---------------------------------------------------------------------------
// Emitted code
// ---------------------------------------------------------------------------

/// A value in emitted code: a register or a constant.
#[derive(Clone, Copy, PartialEq, Eq, Structural, Debug)]
pub enum Val {
    Reg(u64),
    Const(i64),
}

/// An emitted instruction. `dst` is the register that it defines.
#[derive(Clone, Copy, PartialEq, Eq, Structural, Debug)]
pub enum Inst {
    /// The code of an operand, known by its number, leaving its value in `dst`.
    Lower { dst: u64, operand: usize },
    /// The bits of a double.
    DoubleToBits { dst: u64, value: Val },
    /// The double with the given bits.
    BitsToDouble { dst: u64, value: Val },
    /// Push a temp-root slot and leave its index in `dst`.
    TempRootPush { dst: u64, value: Val },
    /// Read a temp-root slot.
    TempRootGet { dst: u64, slot: Val },
    /// Overwrite a temp-root slot.
    TempRootSet { slot: Val, value: Val },
    /// Drop a temp-root slot and everything pushed above it.
    TempRootTruncate { slot: Val },
    /// Bind the implicit `this` and leave the value that it had in `dst`.
    ImplicitThisSet { dst: u64, value: Val },
    /// Push a value onto the array held in a temp-root slot.
    ArrayPushTempRooted { slot: Val, value: Val },
    /// Allocate an array.
    ArrayAlloc { dst: u64, cap: Val },
}

/// The function being compiled: what is known of its locals, the code
/// emitted so far, and the number of the next free register.
pub struct FnCtx {
    pub facts: LocalFacts,
    pub code: Vec<Inst>,
    pub next_reg: u64,
}

/// The function being compiled: what is known of its locals, emitted code and
/// the next free register.
pub ghost struct Out {
    pub facts: LocalFacts,
    pub code: Seq<Inst>,
    pub next: int,
}

impl View for FnCtx {
    type V = Out;

    open spec fn view(&self) -> Out {
        Out { facts: self.facts, code: self.code@, next: self.next_reg as int }
    }
}

impl Out {
    /// The next free register.
    pub open spec fn fresh(self) -> u64 {
        self.next as u64
    }

    /// After an instruction that defines no register.
    pub open spec fn emit(self, i: Inst) -> Out {
        Out { code: self.code.push(i), ..self }
    }

    /// After an instruction that defines the next register.
    pub open spec fn define(self, i: Inst) -> Out {
        Out { code: self.code.push(i), next: self.next + 1, ..self }
    }

    pub open spec fn push_i64(self, v: Val) -> Out {
        self.define(Inst::TempRootPush { dst: self.fresh(), value: v })
    }

    /// A double is pushed by its bits; the slot's index is the second of the
    /// two new registers.
    pub open spec fn push_double(self, v: Val) -> Out {
        self.define(Inst::DoubleToBits { dst: self.fresh(), value: v }).push_i64(
            Val::Reg(self.fresh()),
        )
    }

    pub open spec fn get_i64(self, slot: Val) -> Out {
        self.define(Inst::TempRootGet { dst: self.fresh(), slot })
    }

    /// A double is read by its bits; the double is the second of the two new
    /// registers.
    pub open spec fn get_double(self, slot: Val) -> Out {
        let o = self.get_i64(slot);
        o.define(Inst::BitsToDouble { dst: o.fresh(), value: Val::Reg(self.fresh()) })
    }

    pub open spec fn truncate(self, slot: Val) -> Out {
        self.emit(Inst::TempRootTruncate { slot })
    }

    pub open spec fn lower(self, operand: usize) -> Out {
        self.define(Inst::Lower { dst: self.fresh(), operand })
    }

    /// The register defined last.
    pub open spec fn last(self) -> Val {
        Val::Reg((self.next - 1) as u64)
    }
}

impl FnCtx {
    /// There are `n` free registers left.
    pub open spec fn room(&self, n: nat) -> bool {
        self.next_reg + n <= u64::MAX
    }

    fn emit(&mut self, i: Inst)
        ensures
            final(self)@ == old(self)@.emit(i),
    {
        self.code.push(i);
    }

    /// Take the next register.
    fn fresh(&mut self) -> (dst: u64)
        requires
            old(self).room(1),
        ensures
            dst == old(self)@.fresh(),
            final(self)@ == (Out { next: old(self)@.next + 1, ..old(self)@ }),
    {
        let dst: u64 = self.next_reg;
        self.next_reg = dst + 1;
        dst
    }

    /// Emit the code of an operand.
    pub fn lower(&mut self, operand: usize) -> (v: Val)
        requires
            old(self).room(1),
        ensures
            final(self)@ == old(self)@.lower(operand),
            v == final(self)@.last(),
    {
        let dst: u64 = self.fresh();
        self.emit(Inst::Lower { dst, operand });
        Val::Reg(dst)
    }
}

/// Push a heap pointer or boxed bits; the result is the slot's index.
pub fn temp_root_push_i64(ctx: &mut FnCtx, value: Val) -> (slot: Val)
    requires
        old(ctx).room(1),
    ensures
        final(ctx)@ == old(ctx)@.push_i64(value),
        slot == final(ctx)@.last(),
{
    let dst: u64 = ctx.fresh();
    ctx.emit(Inst::TempRootPush { dst, value });
    Val::Reg(dst)
}

/// Push a boxed double; the result is the slot's index.
pub fn temp_root_push_double(ctx: &mut FnCtx, value: Val) -> (slot: Val)
    requires
        old(ctx).room(2),
    ensures
        final(ctx)@ == old(ctx)@.push_double(value),
        slot == final(ctx)@.last(),
{
    let dst: u64 = ctx.fresh();
    ctx.emit(Inst::DoubleToBits { dst, value });
    temp_root_push_i64(ctx, Val::Reg(dst))
}

/// Read a slot as raw bits.
pub fn temp_root_get_i64(ctx: &mut FnCtx, slot: Val) -> (v: Val)
    requires
        old(ctx).room(1),
    ensures
        final(ctx)@ == old(ctx)@.get_i64(slot),
        v == final(ctx)@.last(),
{
    let dst: u64 = ctx.fresh();
    ctx.emit(Inst::TempRootGet { dst, slot });
    Val::Reg(dst)
}

/// Read a slot as a boxed double.
pub fn temp_root_get_double(ctx: &mut FnCtx, slot: Val) -> (v: Val)
    requires
        old(ctx).room(2),
    ensures
        final(ctx)@ == old(ctx)@.get_double(slot),
        v == final(ctx)@.last(),
{
    let bits: Val = temp_root_get_i64(ctx, slot);
    let dst: u64 = ctx.fresh();
    ctx.emit(Inst::BitsToDouble { dst, value: bits });
    Val::Reg(dst)
}

/// Overwrite a slot with raw bits.
pub fn temp_root_set_i64(ctx: &mut FnCtx, slot: Val, value: Val)
    ensures
        final(ctx)@ == old(ctx)@.emit(Inst::TempRootSet { slot, value }),
{
    ctx.emit(Inst::TempRootSet { slot, value });
}

/// Overwrite a slot with a boxed double.
pub fn temp_root_set_double(ctx: &mut FnCtx, slot: Val, value: Val)
    requires
        old(ctx).room(1),
    ensures
        final(ctx)@ == old(ctx)@.define(
            Inst::DoubleToBits { dst: old(ctx)@.fresh(), value },
        ).emit(Inst::TempRootSet { slot, value: Val::Reg(old(ctx)@.fresh()) }),
{
    let dst: u64 = ctx.fresh();
    ctx.emit(Inst::DoubleToBits { dst, value });
    temp_root_set_i64(ctx, slot, Val::Reg(dst));
}

/// Drop a slot and everything pushed above it.
pub fn temp_root_truncate(ctx: &mut FnCtx, slot: Val)
    ensures
        final(ctx)@ == old(ctx)@.truncate(slot),
{
    ctx.emit(Inst::TempRootTruncate { slot });
}

/// Release a group by its guard, where it has one.
pub open spec fn released(o: Out, guard: Option<Val>) -> Out {
    match guard {
        Some(slot) => o.truncate(slot),
        None => o,
    }
}

/// Release a group by its guard. Belongs after the consuming call, which may
/// itself allocate while it reads the values.
pub fn temp_root_release(ctx: &mut FnCtx, guard: Option<Val>)
    ensures
        final(ctx)@ == released(old(ctx)@, guard),
{
    if let Some(slot) = guard {
        temp_root_truncate(ctx, slot);
    }
}

/// A saved implicit `this`, held in a temp-root slot during a dispatch.
#[derive(Clone, Copy, PartialEq, Eq, Structural, Debug)]
pub struct ImplicitThisSave {
    pub slot: Val,
}

/// Bind the implicit `this` and root the value that it had.
pub open spec fn this_saved(o: Out, new_this: Val) -> Out {
    o.define(Inst::ImplicitThisSet { dst: o.fresh(), value: new_this }).push_double(
        Val::Reg(o.fresh()),
    )
}

/// Read the saved value from its slot, drop the slot, and bind the value.
pub open spec fn this_restored(o: Out, slot: Val) -> Out {
    let read = o.get_double(slot);
    let dropped = read.truncate(slot);
    dropped.define(Inst::ImplicitThisSet { dst: dropped.fresh(), value: read.last() })
}

/// Bind `new_this` as the implicit `this` and root the value that it had.
pub fn implicit_this_save(ctx: &mut FnCtx, new_this: Val) -> (save: ImplicitThisSave)
    requires
        old(ctx).room(3),
    ensures
        final(ctx)@ == this_saved(old(ctx)@, new_this),
        save.slot == final(ctx)@.last(),
{
    let dst: u64 = ctx.fresh();
    ctx.emit(Inst::ImplicitThisSet { dst, value: new_this });
    let slot: Val = temp_root_push_double(ctx, Val::Reg(dst));
    ImplicitThisSave { slot }
}

/// Restore the implicit `this` from its slot, not from the register that was
/// pushed: a collection in between may have moved the object. The slot is
/// dropped before the restoring call, so that nested saves release from the
/// inside out.
pub fn implicit_this_restore(ctx: &mut FnCtx, save: ImplicitThisSave)
    requires
        old(ctx).room(3),
    ensures
        final(ctx)@ == this_restored(old(ctx)@, save.slot),
{
    let prev: Val = temp_root_get_double(ctx, save.slot);
    temp_root_truncate(ctx, save.slot);
    let dst: u64 = ctx.fresh();
    ctx.emit(Inst::ImplicitThisSet { dst, value: prev });
}

/// Push a value onto the array in a slot; the slot follows the array where it
/// has to be reallocated.
pub fn temp_rooted_array_push(ctx: &mut FnCtx, slot: Val, value: Val)
    ensures
        final(ctx)@ == old(ctx)@.emit(Inst::ArrayPushTempRooted { slot, value }),
{
    ctx.emit(Inst::ArrayPushTempRooted { slot, value });
}

/// Allocate an argument array and root it; the result is the slot's index.
pub fn rooted_array_begin(ctx: &mut FnCtx, cap: Val) -> (slot: Val)
    requires
        old(ctx).room(2),
    ensures
        final(ctx)@ == old(ctx)@.define(
            Inst::ArrayAlloc { dst: old(ctx)@.fresh(), cap },
        ).push_i64(Val::Reg(old(ctx)@.fresh())),
        slot == final(ctx)@.last(),
{
    let dst: u64 = ctx.fresh();
    ctx.emit(Inst::ArrayAlloc { dst, cap });
    temp_root_push_i64(ctx, Val::Reg(dst))
}

/// Read an argument array back. The slot stays, so that the array is rooted
/// while its consumer runs.
pub fn rooted_array_read(ctx: &mut FnCtx, slot: Val) -> (v: Val)
    requires
        old(ctx).room(1),
    ensures
        final(ctx)@ == old(ctx)@.get_i64(slot),
        v == final(ctx)@.last(),
{
    temp_root_get_i64(ctx, slot)
}

// ---------------------------------------------------------------------------
// Groups of operands
// ---------------------------------------------------------------------------

/// Lowered operands kept valid across work whose shape the caller controls.
/// Each is recorded before the next one is lowered.
pub struct RootedOperands {
    /// Per operand, the index of its slot, where it has one.
    pub slots: Vec<Option<Val>>,
    /// The registers as first lowered.
    pub values: Vec<Val>,
    /// Whether an operand without a slot is lowered again.
    pub reloadable: Vec<bool>,
    /// The first slot pushed; dropping it drops the whole group.
    pub guard: Option<Val>,
}

/// The contents of a group.
pub ghost struct Group {
    pub slots: Seq<Option<Val>>,
    pub values: Seq<Val>,
    pub reloadable: Seq<bool>,
    pub guard: Option<Val>,
}

impl View for RootedOperands {
    type V = Group;

    open spec fn view(&self) -> Group {
        Group {
            slots: self.slots@,
            values: self.values@,
            reloadable: self.reloadable@,
            guard: self.guard,
        }
    }
}

impl Group {
    /// The group of no operands.
    pub open spec fn empty() -> Group {
        Group { slots: Seq::empty(), values: Seq::empty(), reloadable: Seq::empty(), guard: None }
    }

    /// The three lists go side by side.
    pub open spec fn well_formed(self) -> bool {
        self.slots.len() == self.values.len() && self.reloadable.len() == self.values.len()
    }

    /// The group after one more operand.
    pub open spec fn push(self, slot: Option<Val>, value: Val, reload: bool) -> Group {
        Group {
            slots: self.slots.push(slot),
            values: self.values.push(value),
            reloadable: self.reloadable.push(reload),
            guard: if self.guard is None {
                slot
            } else {
                self.guard
            },
        }
    }
}

/// Record operand `e`, lowered to `value`: the code, and the group after it.
pub open spec fn pushed(o: Out, g: Group, e: Operand, value: Val, collects: bool) -> (Out, Group) {
    let p = protection(e, collects);
    if p == OperandProtection::Root {
        let o = o.push_double(value);
        (o, g.push(Some(o.last()), value, false))
    } else {
        (o, g.push(None, value, p == OperandProtection::Reload))
    }
}

/// Read operand `i` again: from its slot, or by lowering it again, or from
/// its register.
pub open spec fn reread_at(o: Out, g: Group, i: int) -> (Out, Val) {
    if g.slots[i] is Some {
        let o = o.get_double(g.slots[i]->0);
        (o, o.last())
    } else if g.reloadable[i] {
        let o = o.lower(i as usize);
        (o, o.last())
    } else {
        (o, g.values[i])
    }
}

/// Read the first `n` operands again, in order.
pub open spec fn reread_upto(o: Out, g: Group, n: int) -> (Out, Seq<Val>)
    decreases n,
{
    if n <= 0 {
        (o, Seq::empty())
    } else {
        let (o, values) = reread_upto(o, g, n - 1);
        let (o, v) = reread_at(o, g, n - 1);
        (o, values.push(v))
    }
}

/// Start a group. Its capacity is a hint only.
pub fn root_operands_begin(capacity: usize) -> (g: RootedOperands)
    ensures
        g@ == Group::empty(),
{
    let g = RootedOperands {
        slots: Vec::with_capacity(capacity),
        values: Vec::with_capacity(capacity),
        reloadable: Vec::with_capacity(capacity),
        guard: None,
    };
    assert(g.slots@ =~= Seq::empty());
    assert(g.values@ =~= Seq::empty());
    assert(g.reloadable@ =~= Seq::empty());
    g
}

impl RootedOperands {
    /// Record one lowered operand. `collects` says whether anything between
    /// it and its consumer can reach a collection point.
    pub fn push(&mut self, ctx: &mut FnCtx, operand: &Operand, value: Val, collects: bool)
        requires
            old(ctx).room(2),
        ensures
            (final(ctx)@, final(self)@) == pushed(old(ctx)@, old(self)@, *operand, value, collects),
    {
        let protection: OperandProtection = operand_protection(operand, collects);
        let slot: Option<Val> = if protection == OperandProtection::Root {
            let idx: Val = temp_root_push_double(ctx, value);
            if self.guard.is_none() {
                self.guard = Some(idx);
            }
            Some(idx)
        } else {
            None
        };
        self.slots.push(slot);
        self.reloadable.push(protection == OperandProtection::Reload);
        self.values.push(value);
    }

    /// Read one operand again, at a point that the caller picks.
    pub fn reread_one(&self, ctx: &mut FnCtx, i: usize) -> (v: Val)
        requires
            self@.well_formed(),
            i < self@.values.len(),
            old(ctx).room(2),
        ensures
            (final(ctx)@, v) == reread_at(old(ctx)@, self@, i as int),
    {
        match self.slots[i] {
            Some(idx) => temp_root_get_double(ctx, idx),
            None => if self.reloadable[i] {
                ctx.lower(i)
            } else {
                self.values[i]
            },
        }
    }

    /// Read every operand again, below the collection point.
    pub fn reread(&self, ctx: &mut FnCtx) -> (out: Vec<Val>)
        requires
            self@.well_formed(),
            old(ctx).room(2 * self@.values.len()),
        ensures
            (final(ctx)@, out@) == reread_upto(old(ctx)@, self@, self@.values.len() as int),
            final(ctx).facts == old(ctx).facts,
    {
        let ghost start = ctx@;
        let ghost facts = ctx.facts;
        let mut out: Vec<Val> = Vec::new();
        let mut i: usize = 0;
        assert(out@ =~= Seq::empty());
        while i < self.values.len()
            invariant
                self@.well_formed(),
                i <= self@.values.len(),
                start.next + 2 * self@.values.len() <= u64::MAX,
                ctx@.next <= start.next + 2 * i,
                (ctx@, out@) == reread_upto(start, self@, i as int),
                ctx.facts == facts,
            decreases self@.values.len() - i,
        {
            let v: Val = self.reread_one(ctx, i);
            out.push(v);
            i = i + 1;
        }
        out
    }

    /// Has the group pushed any slot?
    pub fn is_rooted(&self) -> (r: bool)
        ensures
            r == (self@.guard is Some),
    {
        self.guard.is_some()
    }

    /// Drop the group's slots. Belongs after the consuming call.
    pub fn release(self, ctx: &mut FnCtx)
        ensures
            final(ctx)@ == released(old(ctx)@, self@.guard),
    {
        temp_root_release(ctx, self.guard);
    }

    /// The group's first slot, for a caller that releases it together with
    /// slots of its own.
    pub fn guard(&self) -> (g: Option<Val>)
        ensures
            g == self@.guard,
    {
        self.guard
    }
}

/// Can any operand after number `i` reach a collection point?
pub open spec fn later_collects(facts: LocalFacts, es: Seq<Operand>, i: int) -> bool {
    exists|j: int| i < j < es.len() && may_collect(facts, #[trigger] es[j])
}

/// Can any operand after number `i` reach a collection point? Where none can,
/// operand `i` needs no protection.
pub fn any_later_ref_may_trigger_gc(facts: &LocalFacts, es: &Vec<Operand>, i: usize) -> (r: bool)
    requires
        i < es@.len(),
    ensures
        r == later_collects(*facts, es@, i as int),
{
    let n: usize = es.len();
    let mut j: usize = i + 1;
    while j < n
        invariant
            n == es@.len(),
            i < j <= n,
            forall|k: int| i < k < j ==> !may_collect(*facts, #[trigger] es@[k]),
        decreases n - j,
    {
        if expr_may_trigger_gc(facts, &es[j]) {
            assert(may_collect(*facts, es@[j as int]));
            return true;
        }
        j = j + 1;
    }
    false
}

/// Lower the first `n` operands from left to right, recording each before the
/// next one.
pub open spec fn lowered_upto(facts: LocalFacts, es: Seq<Operand>, o: Out, n: int) -> (Out, Group)
    decreases n,
{
    if n <= 0 {
        (o, Group::empty())
    } else {
        let (o, g) = lowered_upto(facts, es, o, n - 1);
        let o = o.lower((n - 1) as usize);
        pushed(o, g, es[n - 1], o.last(), later_collects(facts, es, n - 1))
    }
}

/// Lower all operands, then read each again.
pub open spec fn lowered_rooted(facts: LocalFacts, es: Seq<Operand>, o: Out) -> (
    Out,
    Seq<Val>,
    Option<Val>,
) {
    let (o, g) = lowered_upto(facts, es, o, es.len() as int);
    let (o, values) = reread_upto(o, g, es.len() as int);
    (o, values, g.guard)
}

/// Lower operands from left to right, keeping each valid across the
/// evaluation of those that follow. The values come back as they are below
/// the last collection point, with the guard to release once the consumer
/// has run.
pub fn lower_exprs_rooted(ctx: &mut FnCtx, es: &Vec<Operand>) -> (r: (Vec<Val>, Option<Val>))
    requires
        old(ctx).room(5 * es@.len()),
    ensures
        (final(ctx)@, r.0@, r.1) == lowered_rooted(old(ctx).facts, es@, old(ctx)@),
        final(ctx).facts == old(ctx).facts,
        r.0@.len() == es@.len(),
{
    let ghost start = ctx@;
    let ghost facts = ctx.facts;
    let mut group: RootedOperands = root_operands_begin(es.len());
    let mut i: usize = 0;
    while i < es.len()
        invariant
            i <= es@.len(),
            ctx.facts == facts,
            start.next + 5 * es@.len() <= u64::MAX,
            ctx@.next <= start.next + 3 * i,
            (ctx@, group@) == lowered_upto(facts, es@, start, i as int),
            group@.well_formed(),
            group@.values.len() == i,
        decreases es@.len() - i,
    {
        let value: Val = ctx.lower(i);
        let collects: bool = any_later_ref_may_trigger_gc(&ctx.facts, es, i);
        group.push(ctx, &es[i], value, collects);
        i = i + 1;
    }
    let values: Vec<Val> = group.reread(ctx);
    proof {
        lemma_reread_len(lowered_upto(facts, es@, start, i as int).0, group@, i as int);
    }
    (values, group.guard())
}

proof fn lemma_reread_len(o: Out, g: Group, n: int)
    requires
        0 <= n,
    ensures
        reread_upto(o, g, n).1.len() == n,
    decreases n,
{
    if n > 0 {
        lemma_reread_len(o, g, n - 1);
    }
}

/// Lower a pair of operands, as `lower_exprs_rooted` does.
pub fn lower_operand_pair_rooted(ctx: &mut FnCtx, pair: &Vec<Operand>) -> (r: (
    Val,
    Val,
    Option<Val>,
))
    requires
        pair@.len() == 2,
        old(ctx).room(10),
    ensures
        (final(ctx)@, seq![r.0, r.1], r.2) == lowered_rooted(old(ctx).facts, pair@, old(ctx)@),
        final(ctx).facts == old(ctx).facts,
{
    let (values, guard) = lower_exprs_rooted(ctx, pair);
    assert(values@ =~= seq![values@[0], values@[1]]);
    (values[0], values[1], guard)
}

// ---------------------------------------------------------------------------
// Operands of a store
// ---------------------------------------------------------------------------

/// An operand of a property or element store that is lowered before the
/// value: the receiver, or a computed key.
#[derive(Clone, Copy, PartialEq, Eq, Structural, Debug)]
pub struct StoreOperandGuard {
    /// The operand's slot, where it has one.
    pub slot: Option<Val>,
    /// The operand is lowered again below the collection point.
    pub reload: bool,
}

/// Guard an operand: the code, and the guard.
pub open spec fn guarded(o: Out, e: Operand, lowered: Val, collects: bool) -> (
    Out,
    StoreOperandGuard,
) {
    let p = protection(e, collects);
    if p == OperandProtection::Root {
        let o = o.push_double(lowered);
        (o, StoreOperandGuard { slot: Some(o.last()), reload: false })
    } else {
        (o, StoreOperandGuard { slot: None, reload: p == OperandProtection::Reload })
    }
}

/// Guard a lowered operand across work that may collect. A receiver's window
/// covers both the key and the value, so the caller states it.
pub fn guard_store_operand_across(
    ctx: &mut FnCtx,
    operand: &Operand,
    lowered: Val,
    collects: bool,
) -> (g: StoreOperandGuard)
    requires
        old(ctx).room(2),
    ensures
        (final(ctx)@, g) == guarded(old(ctx)@, *operand, lowered, collects),
{
    let protection: OperandProtection = operand_protection(operand, collects);
    let slot: Option<Val> = match protection {
        OperandProtection::Root => Some(temp_root_push_double(ctx, lowered)),
        OperandProtection::Reload | OperandProtection::Reuse => None,
    };
    StoreOperandGuard { slot, reload: protection == OperandProtection::Reload }
}

/// Guard a lowered operand across the evaluation of `value`.
pub fn guard_store_operand(
    ctx: &mut FnCtx,
    operand: &Operand,
    lowered: Val,
    value: &Operand,
) -> (g: StoreOperandGuard)
    requires
        old(ctx).room(2),
    ensures
        (final(ctx)@, g) == guarded(
            old(ctx)@,
            *operand,
            lowered,
            may_collect(old(ctx).facts, *value),
        ),
{
    let collects: bool = expr_may_trigger_gc(&ctx.facts, value);
    guard_store_operand_across(ctx, operand, lowered, collects)
}

/// Read a guarded operand again: the code, and the value.
pub open spec fn store_reread(o: Out, g: StoreOperandGuard, operand: usize, lowered: Val) -> (
    Out,
    Val,
) {
    match g.slot {
        Some(slot) => (o.get_double(slot), o.get_double(slot).last()),
        None => if g.reload {
            (o.lower(operand), o.lower(operand).last())
        } else {
            (o, lowered)
        },
    }
}

/// Read the operand again below the value's evaluation: from its slot, or by
/// lowering it again, or, where neither was needed, from its register.
pub fn reread_store_operand(
    ctx: &mut FnCtx,
    guard: &StoreOperandGuard,
    operand: usize,
    lowered: Val,
) -> (v: Val)
    requires
        old(ctx).room(2),
    ensures
        (final(ctx)@, v) == store_reread(old(ctx)@, *guard, operand, lowered),
{
    match guard.slot {
        Some(slot) => temp_root_get_double(ctx, slot),
        None => if guard.reload {
            ctx.lower(operand)
        } else {
            lowered
        },
    }
}

/// Drop the guard. Belongs after the store, which may allocate.
pub fn release_store_operand(ctx: &mut FnCtx, guard: StoreOperandGuard)
    ensures
        final(ctx)@ == released(old(ctx)@, guard.slot),
{
    temp_root_release(ctx, guard.slot);
}

// ---------------------------------------------------------------------------
// Handles and scopes
// ---------------------------------------------------------------------------

/// A fresh container that is written to while its initializers are lowered.
#[derive(Clone, Copy, PartialEq, Eq, Structural, Debug)]
pub struct RootedHandle {
    pub slot: Option<Val>,
    pub value: Val,
}

/// Root a handle where asked to: the code, and the handle.
pub open spec fn handle_begun(o: Out, handle: Val, protect: bool) -> (Out, RootedHandle) {
    if protect {
        let o = o.push_i64(handle);
        (o, RootedHandle { slot: Some(o.last()), value: handle })
    } else {
        (o, RootedHandle { slot: None, value: handle })
    }
}

/// Read a handle: the code, and the value.
pub open spec fn handle_read(o: Out, h: RootedHandle) -> (Out, Val) {
    match h.slot {
        Some(slot) => (o.get_i64(slot), o.get_i64(slot).last()),
        None => (o, h.value),
    }
}

/// Root a handle where an initializer to come can collect.
pub fn rooted_handle_begin(ctx: &mut FnCtx, handle: Val, protect: bool) -> (h: RootedHandle)
    requires
        old(ctx).room(1),
    ensures
        (final(ctx)@, h) == handle_begun(old(ctx)@, handle, protect),
{
    let slot: Option<Val> = if protect {
        Some(temp_root_push_i64(ctx, handle))
    } else {
        None
    };
    RootedHandle { slot, value: handle }
}

/// The handle as it is now.
pub fn rooted_handle_get(ctx: &mut FnCtx, handle: &RootedHandle) -> (v: Val)
    requires
        old(ctx).room(1),
    ensures
        (final(ctx)@, v) == handle_read(old(ctx)@, *handle),
{
    match handle.slot {
        Some(slot) => temp_root_get_i64(ctx, slot),
        None => handle.value,
    }
}

/// Drop the handle's slot.
pub fn rooted_handle_release(ctx: &mut FnCtx, handle: RootedHandle)
    ensures
        final(ctx)@ == released(old(ctx)@, handle.slot),
{
    temp_root_release(ctx, handle.slot);
}

/// Would any of the operands need a slot?
pub open spec fn any_needs_root(es: Seq<Operand>) -> bool {
    exists|i: int| 0 <= i < es.len() && needs_root(#[trigger] es[i])
}

/// Open a scope for a call: a marker slot that roots nothing, below every
/// slot that the call pushes, so that closing the scope drops them all.
/// Nothing is emitted where no operand needs a slot and `also_needed` does
/// not ask for one.
pub fn temp_root_scope_begin(ctx: &mut FnCtx, args: &Vec<Operand>, also_needed: bool) -> (scope:
    Option<Val>)
    requires
        old(ctx).room(1),
    ensures
        (also_needed || any_needs_root(args@)) ==> final(ctx)@ == old(ctx)@.push_i64(Val::Const(0))
            && scope == Some(final(ctx)@.last()),
        !(also_needed || any_needs_root(args@)) ==> final(ctx)@ == old(ctx)@ && scope is None,
{
    let mut needed: bool = also_needed;
    let mut i: usize = 0;
    while i < args.len() && !needed
        invariant
            i <= args@.len(),
            needed ==> also_needed || any_needs_root(args@),
            !needed ==> !also_needed && forall|k: int|
                0 <= k < i ==> !needs_root(#[trigger] args@[k]),
        decreases args@.len() - i,
    {
        if operand_needs_root(&args[i]) {
            assert(needs_root(args@[i as int]));
            needed = true;
        }
        i = i + 1;
    }
    if needed {
        Some(temp_root_push_i64(ctx, Val::Const(0)))
    } else {
        None
    }
}

/// Close a scope.
pub fn temp_root_scope_end(ctx: &mut FnCtx, scope: Option<Val>)
    ensures
        final(ctx)@ == released(old(ctx)@, scope),
{
    temp_root_release(ctx, scope);
}

// ---------------------------------------------------------------------------
// Laws
// ---------------------------------------------------------------------------

/// The stack of temp-root slots while emitted code runs: how many slots there
/// are, and which slot each index register names.
pub ghost struct SlotStack {
    pub height: int,
    pub slot_of: Map<u64, int>,
}

/// The stack after one instruction. An operand's own code leaves it as it
/// found it.
pub open spec fn step(s: SlotStack, i: Inst) -> SlotStack {
    match i {
        Inst::TempRootPush { dst, .. } => SlotStack {
            height: s.height + 1,
            slot_of: s.slot_of.insert(dst, s.height),
        },
        Inst::TempRootTruncate { slot: Val::Reg(r) } => SlotStack {
            height: if s.slot_of[r] < s.height {
                s.slot_of[r]
            } else {
                s.height
            },
            slot_of: s.slot_of,
        },
        _ => s,
    }
}

/// The stack after a run of code.
pub open spec fn run(code: Seq<Inst>, s: SlotStack) -> SlotStack
    decreases code.len(),
{
    if code.len() == 0 {
        s
    } else {
        step(run(code.drop_last(), s), code.last())
    }
}

proof fn lemma_run_push(code: Seq<Inst>, i: Inst, s: SlotStack)
    ensures
        run(code.push(i), s) == step(run(code, s), i),
{
    assert(code.push(i).drop_last() =~= code);
}

/// How many of the operands have a slot.
spec fn rooted_count(slots: Seq<Option<Val>>) -> int
    decreases slots.len(),
{
    if slots.len() == 0 {
        0
    } else {
        rooted_count(slots.drop_last()) + if slots.last() is Some {
            1int
        } else {
            0int
        }
    }
}

proof fn lemma_lowered_stack(facts: LocalFacts, es: Seq<Operand>, o: Out, n: int, s: SlotStack)
    requires
        0 <= n <= es.len(),
        0 <= o.next,
        lowered_upto(facts, es, o, n).0.next <= u64::MAX,
    ensures
        ({
            let (end, g) = lowered_upto(facts, es, o, n);
            let before = run(o.code, s);
            let after = run(end.code, s);
            &&& o.next <= end.next
            &&& g.well_formed()
            &&& g.values.len() == n
            &&& rooted_count(g.slots) >= 0
            &&& after.height == before.height + rooted_count(g.slots)
            &&& g.guard is None ==> rooted_count(g.slots) == 0
            &&& g.guard is Some ==> {
                &&& rooted_count(g.slots) > 0
                &&& g.guard->0 matches Val::Reg(r) && o.next <= r < end.next
                    && after.slot_of.dom().contains(r) && after.slot_of[r] == before.height
            }
        }),
    decreases n,
{
    if n > 0 {
        let (o1, g1) = lowered_upto(facts, es, o, n - 1);
        let o2 = o1.lower((n - 1) as usize);
        let (end, g) = lowered_upto(facts, es, o, n);
        assert(o1.next <= end.next);
        lemma_lowered_stack(facts, es, o, n - 1, s);
        lemma_run_push(o1.code, Inst::Lower { dst: o1.fresh(), operand: (n - 1) as usize }, s);
        assert(g.slots.drop_last() =~= g1.slots);
        let v = o2.last();
        if protection(es[n - 1], later_collects(facts, es, n - 1)) == OperandProtection::Root {
            let o3 = o2.define(Inst::DoubleToBits { dst: o2.fresh(), value: v });
            lemma_run_push(o2.code, Inst::DoubleToBits { dst: o2.fresh(), value: v }, s);
            lemma_run_push(
                o3.code,
                Inst::TempRootPush { dst: o3.fresh(), value: Val::Reg(o2.fresh()) },
                s,
            );
        }
    }
}

proof fn lemma_reread_stack(o: Out, g: Group, n: int, s: SlotStack)
    requires
        0 <= n,
    ensures
        run(reread_upto(o, g, n).0.code, s) == run(o.code, s),
        reread_upto(o, g, n).0.next >= o.next,
    decreases n,
{
    if n > 0 {
        lemma_reread_stack(o, g, n - 1, s);
        let (o1, _) = reread_upto(o, g, n - 1);
        if g.slots[n - 1] is Some {
            let slot = g.slots[n - 1]->0;
            let o2 = o1.get_i64(slot);
            lemma_run_push(o1.code, Inst::TempRootGet { dst: o1.fresh(), slot }, s);
            lemma_run_push(
                o2.code,
                Inst::BitsToDouble { dst: o2.fresh(), value: Val::Reg(o1.fresh()) },
                s,
            );
        } else if g.reloadable[n - 1] {
            lemma_run_push(
                o1.code,
                Inst::Lower { dst: o1.fresh(), operand: (n - 1) as usize },
                s,
            );
        }
    }
}

/// Releasing the guard drops every slot that lowering a group of operands
/// pushed, and no other: the stack is as high as it was before the group.
pub proof fn law_release_drops_the_whole_group(
    facts: LocalFacts,
    es: Seq<Operand>,
    o: Out,
    s: SlotStack,
)
    requires
        0 <= o.next,
        lowered_rooted(facts, es, o).0.next <= u64::MAX,
    ensures
        ({
            let (end, _, guard) = lowered_rooted(facts, es, o);
            run(released(end, guard).code, s).height == run(o.code, s).height
        }),
{
    let n = es.len() as int;
    let (o1, g) = lowered_upto(facts, es, o, n);
    let (end, _) = reread_upto(o1, g, n);
    lemma_reread_stack(o1, g, n, s);
    lemma_lowered_stack(facts, es, o, n, s);
    if g.guard is Some {
        lemma_run_push(end.code, Inst::TempRootTruncate { slot: g.guard->0 }, s);
    }
}

/// A guard below another may be released after it, or instead of it: the
/// outcome is the same.
pub proof fn law_outer_release_covers_inner(s: SlotStack, outer: u64, inner: u64)
    requires
        s.slot_of[outer] <= s.slot_of[inner],
    ensures
        ({
            let drop_outer = Inst::TempRootTruncate { slot: Val::Reg(outer) };
            let drop_inner = Inst::TempRootTruncate { slot: Val::Reg(inner) };
            step(step(s, drop_inner), drop_outer) == step(s, drop_outer)
        }),
{
}

/// The register that an instruction defines is `v`.
pub open spec fn defines(i: Inst, v: Val) -> bool {
    match i {
        Inst::Lower { dst, .. } => v == Val::Reg(dst),
        Inst::BitsToDouble { dst, .. } => v == Val::Reg(dst),
        _ => false,
    }
}

/// The instruction can reach a collection point: it is the code of an operand
/// some part of which may run code of the program or allocate.
pub open spec fn inst_collects(facts: LocalFacts, es: Seq<Operand>, i: Inst) -> bool {
    i matches Inst::Lower { operand, .. } && evaluates_code(facts, es[operand as int])
}

/// Value `v` was defined after everything that can collect.
pub open spec fn defined_after_collections(
    facts: LocalFacts,
    es: Seq<Operand>,
    from: int,
    code: Seq<Inst>,
    v: Val,
) -> bool {
    exists|p: int|
        from <= p < code.len() && defines(#[trigger] code[p], v) && forall|q: int|
            p < q < code.len() ==> !inst_collects(facts, es, #[trigger] code[q])
}

/// Where operand `i`'s own code stands.
spec fn lower_pos(facts: LocalFacts, es: Seq<Operand>, o: Out, i: int) -> int {
    lowered_upto(facts, es, o, i).0.code.len() as int
}

proof fn lemma_lowered_code(facts: LocalFacts, es: Seq<Operand>, o: Out, n: int, i: int)
    requires
        0 <= i < n <= es.len() <= usize::MAX,
        0 <= o.next,
    ensures
        ({
            let (end, g) = lowered_upto(facts, es, o, n);
            let p = lower_pos(facts, es, o, i);
            &&& g.well_formed()
            &&& g.values.len() == n
            &&& o.code.len() <= p < end.code.len()
            &&& defines(end.code[p], g.values[i])
            &&& forall|q: int|
                p < q < end.code.len() ==> (#[trigger] end.code[q] matches Inst::Lower { operand, .. }
                    ==> i < operand < es.len())
            &&& g.slots[i] is Some == (protection(es[i], later_collects(facts, es, i))
                == OperandProtection::Root)
            &&& g.reloadable[i] == (protection(es[i], later_collects(facts, es, i))
                == OperandProtection::Reload)
        }),
    decreases n,
{
    let (o1, g1) = lowered_upto(facts, es, o, n - 1);
    let (end, g) = lowered_upto(facts, es, o, n);
    lemma_lowered_shape(facts, es, o, n - 1);
    if i < n - 1 {
        lemma_lowered_code(facts, es, o, n - 1, i);
        let p = lower_pos(facts, es, o, i);
        assert(end.code[p] == o1.code[p]);
        assert forall|q: int| p < q < end.code.len() implies (#[trigger] end.code[q] matches
            Inst::Lower { operand, .. } ==> i < operand < es.len()) by {
            if q < o1.code.len() {
                assert(end.code[q] == o1.code[q]);
            }
        }
    }
}

proof fn lemma_lowered_shape(facts: LocalFacts, es: Seq<Operand>, o: Out, n: int)
    requires
        0 <= n <= es.len(),
    ensures
        ({
            let (end, g) = lowered_upto(facts, es, o, n);
            &&& g.well_formed()
            &&& g.values.len() == n
            &&& o.code.len() <= end.code.len()
        }),
    decreases n,
{
    if n > 0 {
        lemma_lowered_shape(facts, es, o, n - 1);
    }
}

proof fn lemma_reread_code(o: Out, g: Group, n: int, i: int)
    requires
        0 <= n <= usize::MAX,
    ensures
        ({
            let (end, values) = reread_upto(o, g, n);
            &&& values.len() == n
            &&& o.code.len() <= end.code.len()
            &&& o.code == end.code.subrange(0, o.code.len() as int)
            &&& forall|q: int|
                o.code.len() <= q < end.code.len() ==> (#[trigger] end.code[q] matches Inst::Lower {
                    operand,
                    ..
                } ==> 0 <= operand < n && g.slots[operand as int] is None
                    && g.reloadable[operand as int])
            &&& 0 <= i < n && (g.slots[i] is Some || g.reloadable[i]) ==> exists|p: int|
                o.code.len() <= p < end.code.len() && defines(#[trigger] end.code[p], values[i])
            &&& 0 <= i < n && !(g.slots[i] is Some || g.reloadable[i]) ==> values[i] == g.values[i]
        }),
    decreases n,
{
    if n > 0 {
        lemma_reread_code(o, g, n - 1, i);
        let (o1, v1) = reread_upto(o, g, n - 1);
        let (end, values) = reread_upto(o, g, n);
        assert(o1.code =~= end.code.subrange(0, o1.code.len() as int));
        assert(o.code =~= end.code.subrange(0, o.code.len() as int));
        assert forall|q: int| o.code.len() <= q < end.code.len() implies (
        #[trigger] end.code[q] matches Inst::Lower { operand, .. } ==> 0 <= operand < n
            && g.slots[operand as int] is None && g.reloadable[operand as int]) by {
            if q < o1.code.len() {
                assert(end.code[q] == o1.code[q]);
            }
        }
        if 0 <= i < n && (g.slots[i] is Some || g.reloadable[i]) {
            if i == n - 1 {
                let p = end.code.len() - 1;
                assert(defines(end.code[p], values[i]));
            } else {
                let p = choose|p: int|
                    o.code.len() <= p < o1.code.len() && defines(#[trigger] o1.code[p], v1[i]);
                assert(end.code[p] == o1.code[p]);
            }
        }
    } else {
        assert(o.code =~= o.code.subrange(0, o.code.len() as int));
    }
}

/// No operand register outlives a collection point: each value handed to the
/// consumer was defined after the last instruction that can collect, unless
/// it provably is no heap reference.
pub proof fn law_no_register_outlives_a_collection(
    facts: LocalFacts,
    es: Seq<Operand>,
    o: Out,
    i: int,
)
    requires
        0 <= i < es.len() <= usize::MAX,
        0 <= o.next,
    ensures
        ({
            let (end, values, _) = lowered_rooted(facts, es, o);
            es[i].non_pointer || defined_after_collections(
                facts,
                es,
                o.code.len() as int,
                end.code,
                values[i],
            )
        }),
{
    let n = es.len() as int;
    let (o1, g) = lowered_upto(facts, es, o, n);
    let (end, values) = reread_upto(o1, g, n);
    lemma_lowered_shape(facts, es, o, n);
    lemma_reread_code(o1, g, n, i);
    lemma_lowered_code(facts, es, o, n, i);
    // re-reading never collects: only literals are lowered again
    assert forall|q: int| o1.code.len() <= q < end.code.len() implies !inst_collects(
        facts,
        es,
        #[trigger] end.code[q],
    ) by {
        if let Inst::Lower { operand, .. } = end.code[q] {
            lemma_lowered_code(facts, es, o, n, operand as int);
            assert(es[operand as int].form is Text);
            lemma_quiet(facts, es[operand as int]);
        }
    }
    if !es[i].non_pointer {
        if g.slots[i] is Some || g.reloadable[i] {
            let p = choose|p: int|
                o1.code.len() <= p < end.code.len() && defines(#[trigger] end.code[p], values[i]);
            assert(defines(end.code[p], values[i]));
        } else {
            let p = lower_pos(facts, es, o, i);
            assert(!later_collects(facts, es, i));
            assert(end.code[p] == end.code.subrange(0, o1.code.len() as int)[p]);
            assert forall|q: int| p < q < end.code.len() implies !inst_collects(
                facts,
                es,
                #[trigger] end.code[q],
            ) by {
                if q < o1.code.len() {
                    assert(end.code[q] == end.code.subrange(0, o1.code.len() as int)[q]);
                    if let Inst::Lower { operand, .. } = o1.code[q] {
                        assert(!may_collect(facts, es[operand as int]));
                        lemma_quiet(facts, es[operand as int]);
                    }
                }
            }
            assert(defines(end.code[p], values[i]));
        }
    }
}

/// An operand is never lowered twice unless it is immutable, so its consumer
/// sees the value that it had when it was evaluated.
pub proof fn law_only_literals_are_lowered_again(e: Operand, collects: bool)
    ensures
        protection(e, collects) == OperandProtection::Reload ==> e.form is Text,
        e.form is LocalGet || e.form is GlobalGet ==> protection(e, collects)
            != OperandProtection::Reload,
{
}

/// What is no collection point emits nothing: without a later operand that
/// can collect, an operand keeps its register.
pub proof fn law_no_protection_without_collection(e: Operand)
    ensures
        protection(e, false) == OperandProtection::Reuse,
{
}

/// What is no heap reference never takes a slot.
pub proof fn law_non_references_take_no_slot(e: Operand, collects: bool)
    requires
        e.non_pointer,
    ensures
        protection(e, collects) != OperandProtection::Root,
        !needs_root(e),
{
}

/// The code of operand `i` stands in this code, from place `from` on.
pub open spec fn is_lowered_in(code: Seq<Inst>, from: int, i: int) -> bool {
    exists|q: int|
        from <= q < code.len() && (#[trigger] code[q] matches Inst::Lower { operand, .. } && operand
            == i)
}

proof fn lemma_lowered_order(facts: LocalFacts, es: Seq<Operand>, o: Out, n: int)
    requires
        0 <= n <= es.len() <= usize::MAX,
    ensures
        ({
            let code = lowered_upto(facts, es, o, n).0.code;
            let from = o.code.len() as int;
            &&& from <= code.len()
            &&& forall|q: int|
                from <= q < code.len() ==> (#[trigger] code[q] matches Inst::Lower { operand, .. }
                    ==> operand < n)
            &&& forall|p: int, q: int|
                from <= p < q < code.len() ==> (#[trigger] code[p] matches Inst::Lower {
                    operand: a,
                    ..
                } ==> (#[trigger] code[q] matches Inst::Lower { operand: b, .. } ==> a < b))
            &&& forall|i: int|
                0 <= i < n ==> #[trigger] is_lowered_in(code, from, i)
        }),
    decreases n,
{
    if n > 0 {
        lemma_lowered_order(facts, es, o, n - 1);
        let from = o.code.len() as int;
        let before = lowered_upto(facts, es, o, n - 1).0.code;
        let code = lowered_upto(facts, es, o, n).0.code;
        let at = before.len() as int;
        assert(code[at] matches Inst::Lower { operand, .. } && operand == n - 1);
        assert forall|q: int| from <= q < at implies #[trigger] code[q] == before[q] by {}
        assert forall|i: int| 0 <= i < n implies #[trigger] is_lowered_in(code, from, i) by {
            if i < n - 1 {
                assert(is_lowered_in(before, from, i));
                let q = choose|q: int|
                    from <= q < before.len() && (#[trigger] before[q] matches Inst::Lower {
                        operand,
                        ..
                    } && operand == i);
                assert(code[q] == before[q]);
            } else {
                assert(code[at] matches Inst::Lower { operand, .. } && operand == i);
            }
        }
    }
}

/// Operands are evaluated from left to right, each of them, and each once. A
/// literal alone may be loaded a second time.
pub proof fn law_operands_run_in_order(facts: LocalFacts, es: Seq<Operand>, o: Out)
    requires
        es.len() <= usize::MAX,
        0 <= o.next,
    ensures
        ({
            let code = lowered_rooted(facts, es, o).0.code;
            let from = o.code.len() as int;
            &&& forall|i: int|
                0 <= i < es.len() ==> #[trigger] is_lowered_in(code, from, i)
            &&& forall|p: int, q: int|
                from <= p < q < code.len() ==> (#[trigger] code[p] matches Inst::Lower {
                    operand: a,
                    ..
                } ==> (#[trigger] code[q] matches Inst::Lower { operand: b, .. } ==> a < b
                    || es[b as int].form is Text))
        }),
{
    let n = es.len() as int;
    let from = o.code.len() as int;
    let (mid, g) = lowered_upto(facts, es, o, n);
    let code = reread_upto(mid, g, n).0.code;
    lemma_lowered_order(facts, es, o, n);
    lemma_lowered_shape(facts, es, o, n);
    lemma_reread_code(mid, g, n, 0);
    assert forall|q: int| 0 <= q < mid.code.len() implies #[trigger] code[q] == mid.code[q] by {
        assert(code.subrange(0, mid.code.len() as int)[q] == code[q]);
    }
    assert forall|i: int| 0 <= i < n implies #[trigger] is_lowered_in(code, from, i) by {
        assert(is_lowered_in(mid.code, from, i));
        let q = choose|q: int|
            from <= q < mid.code.len() && (#[trigger] mid.code[q] matches Inst::Lower {
                operand,
                ..
            } && operand == i);
        assert(code[q] == mid.code[q]);
    }
    assert forall|p: int, q: int| from <= p < q < code.len() implies (
    #[trigger] code[p] matches Inst::Lower { operand: a, .. } ==> (
    #[trigger] code[q] matches Inst::Lower { operand: b, .. } ==> a < b
        || es[b as int].form is Text)) by {
        if let Inst::Lower { operand: b, .. } = code[q] {
            if q >= mid.code.len() {
                lemma_lowered_code(facts, es, o, n, b as int);
            }
        }
    }
}

/// Across a collection, what may be a heap reference is never left in its
/// register: it is rooted, or, where it is a literal, loaded again.
pub proof fn law_references_are_protected(e: Operand)
    requires
        !e.non_pointer,
    ensures
        protection(e, true) == if e.form is Text {
            OperandProtection::Reload
        } else {
            OperandProtection::Root
        },
        needs_root(e) == !(e.form is Text),
{
}

/// Whatever is inert cannot collect, with one exception that is judged apart:
/// an update of a local.
pub proof fn law_inert_operands_do_not_collect(facts: LocalFacts, e: Operand)
    requires
        is_inert(facts, e),
        !(e.form is Update),
    ensures
        !may_collect(facts, e),
{
}

} // verus!
