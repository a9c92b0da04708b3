//! Protecting lowered operands across collections.

use std::collections::HashMap;

use perry::hir::Type;
use perry::temp_root::{
    any_may_trigger_gc, expr_is_inert_primitive, expr_may_trigger_gc, guard_store_operand,
    implicit_this_restore, implicit_this_save, local_is_inert_primitive, lower_exprs_rooted,
    lower_operand_pair_rooted, operand_is_reloadable, operand_needs_root, operand_protection,
    release_store_operand, reread_store_operand, root_operands_begin, rooted_array_begin,
    rooted_array_read, rooted_handle_begin, rooted_handle_get, rooted_handle_release,
    temp_root_release, temp_root_scope_begin, temp_root_scope_end, temp_root_set_double,
    temp_rooted_array_push, BinaryOp, FnCtx, Form, Inst, LocalFacts, Operand, OperandProtection,
    Val,
};

fn facts() -> LocalFacts {
    LocalFacts {
        shadow_slot_map: HashMap::from([(2, 0)]),
        module_globals: HashMap::from([(3, "g".to_string())]),
        local_types: HashMap::from([
            (1, Type::Number),
            (2, Type::Number),
            (3, Type::Number),
            (4, Type::String),
        ]),
    }
}

fn ctx() -> FnCtx {
    FnCtx { facts: facts(), code: Vec::new(), next_reg: 0 }
}

fn op(form: Form) -> Operand {
    Operand { form, non_pointer: false }
}

fn local(id: u32) -> Operand {
    op(Form::LocalGet(id))
}

fn call() -> Operand {
    op(Form::Opaque)
}

fn text() -> Operand {
    op(Form::Text("s".to_string()))
}

#[test]
fn typed_locals_are_inert() {
    let f = facts();
    assert!(local_is_inert_primitive(&f, 1));
    assert!(!local_is_inert_primitive(&f, 2), "it has a shadow slot");
    assert!(!local_is_inert_primitive(&f, 3), "it is a module global");
    assert!(!local_is_inert_primitive(&f, 4), "a string is a pointer");
    assert!(!local_is_inert_primitive(&f, 9), "its type is unknown");
    assert!(expr_is_inert_primitive(&f, &op(Form::Number(0))));
    assert!(expr_is_inert_primitive(&f, &text()));
    assert!(expr_is_inert_primitive(&f, &op(Form::Update(1))));
    assert!(!expr_is_inert_primitive(&f, &call()));
}

#[test]
fn arithmetic_on_numbers_does_not_collect() {
    let f = facts();
    let one = || Operand { form: Form::LocalGet(1), non_pointer: true };
    let four = Operand { form: Form::Integer(4), non_pointer: true };
    let sum = |b| op(Form::Binary(BinaryOp::Add, Box::new(one()), Box::new(b)));
    assert!(!expr_may_trigger_gc(&f, &sum(four)));
    assert!(expr_may_trigger_gc(&f, &sum(text())), "it may concatenate");
    assert!(expr_may_trigger_gc(&f, &op(Form::Update(1))));
    assert!(expr_may_trigger_gc(&f, &call()));
    assert!(!expr_may_trigger_gc(&f, &local(4)));
    assert!(any_may_trigger_gc(&f, &vec![local(1), call()]));
    assert!(!any_may_trigger_gc(&f, &vec![local(1), text()]));
}

#[test]
fn operands_are_rooted_or_reloaded() {
    assert!(operand_is_reloadable(&text()));
    assert!(!operand_is_reloadable(&local(1)));
    assert!(operand_needs_root(&call()));
    assert!(!operand_needs_root(&Operand { form: Form::Opaque, non_pointer: true }));
    assert_eq!(operand_protection(&call(), true), OperandProtection::Root);
    assert_eq!(operand_protection(&call(), false), OperandProtection::Reuse);
    assert_eq!(operand_protection(&text(), true), OperandProtection::Reload);
}

#[test]
fn only_what_precedes_a_collection_is_rooted() {
    let mut c = ctx();
    let (values, guard) = lower_exprs_rooted(&mut c, &vec![call(), call()]);
    assert_eq!(
        c.code,
        vec![
            Inst::Lower { dst: 0, operand: 0 },
            Inst::DoubleToBits { dst: 1, value: Val::Reg(0) },
            Inst::TempRootPush { dst: 2, value: Val::Reg(1) },
            Inst::Lower { dst: 3, operand: 1 },
            Inst::TempRootGet { dst: 4, slot: Val::Reg(2) },
            Inst::BitsToDouble { dst: 5, value: Val::Reg(4) },
        ]
    );
    assert_eq!(values, vec![Val::Reg(5), Val::Reg(3)]);
    assert_eq!(guard, Some(Val::Reg(2)));
    temp_root_release(&mut c, guard);
    assert_eq!(c.code[6], Inst::TempRootTruncate { slot: Val::Reg(2) });
}

#[test]
fn quiet_operands_need_no_protection() {
    let mut c = ctx();
    let (a, b, guard) = lower_operand_pair_rooted(&mut c, &vec![call(), local(1)]);
    assert_eq!((a, b, guard), (Val::Reg(0), Val::Reg(1), None));
    assert_eq!(c.code.len(), 2);
    let quiet = vec![Operand { form: Form::LocalGet(1), non_pointer: true }];
    let scope = temp_root_scope_begin(&mut c, &quiet, false);
    assert_eq!(scope, None);
    temp_root_scope_end(&mut c, scope);
    assert_eq!(c.code.len(), 2);
    assert!(temp_root_scope_begin(&mut c, &vec![call()], false).is_some());
}

#[test]
fn string_literals_are_lowered_again() {
    let mut c = ctx();
    let v = c.lower(0);
    let guard = guard_store_operand(&mut c, &text(), v, &call());
    assert!(guard.reload && guard.slot.is_none());
    let again = reread_store_operand(&mut c, &guard, 0, v);
    assert_eq!(again, Val::Reg(1));
    assert_eq!(c.code[1], Inst::Lower { dst: 1, operand: 0 });
    release_store_operand(&mut c, guard);
    assert_eq!(c.code.len(), 2);
}

#[test]
fn groups_are_dropped_at_their_first_slot() {
    let mut c = ctx();
    let mut g = root_operands_begin(3);
    let a = c.lower(0);
    g.push(&mut c, &call(), a, true);
    let b = c.lower(1);
    g.push(&mut c, &call(), b, true);
    let first = g.guard();
    assert!(g.is_rooted());
    assert_eq!(g.reread(&mut c).len(), 2);
    g.release(&mut c);
    assert_eq!(c.code.last(), Some(&Inst::TempRootTruncate { slot: first.unwrap() }));
}

#[test]
fn arrays_this_and_handles_live_in_slots() {
    let mut c = ctx();
    let slot = rooted_array_begin(&mut c, Val::Const(4));
    temp_rooted_array_push(&mut c, slot, Val::Const(1));
    let read = rooted_array_read(&mut c, slot);
    assert_eq!(c.code[0], Inst::ArrayAlloc { dst: 0, cap: Val::Const(4) });
    assert!(c.code.contains(&Inst::ArrayPushTempRooted { slot, value: Val::Const(1) }));
    assert!(matches!(read, Val::Reg(_)));
    temp_root_set_double(&mut c, slot, Val::Const(2));

    let mut c = ctx();
    let save = implicit_this_save(&mut c, Val::Const(0));
    assert_eq!(c.code[0], Inst::ImplicitThisSet { dst: 0, value: Val::Const(0) });
    implicit_this_restore(&mut c, save);
    let n = c.code.len();
    assert_eq!(c.code[n - 2], Inst::TempRootTruncate { slot: save.slot });
    assert!(matches!(c.code[n - 1], Inst::ImplicitThisSet { .. }));

    let mut c = ctx();
    let bare = rooted_handle_begin(&mut c, Val::Const(8), false);
    assert_eq!(rooted_handle_get(&mut c, &bare), Val::Const(8));
    rooted_handle_release(&mut c, bare);
    assert!(c.code.is_empty());
    let rooted = rooted_handle_begin(&mut c, Val::Const(8), true);
    assert_ne!(rooted_handle_get(&mut c, &rooted), Val::Const(8));
}

/// A value, and the collection after which its address was read.
type Word = (u64, u32);

/// Runs emitted code while every operand that can collect does so.
#[derive(Default)]
struct Machine {
    regs: HashMap<u64, Word>,
    slot_of: HashMap<u64, usize>,
    slots: Vec<Word>,
    this: Word,
    now: u32,
}

impl Machine {
    fn word(&self, v: Val) -> Word {
        match v {
            Val::Reg(r) => self.regs[&r],
            Val::Const(_) => (0, self.now),
        }
    }

    fn slot(&self, v: Val) -> usize {
        match v {
            Val::Reg(r) => self.slot_of[&r],
            Val::Const(c) => c as usize,
        }
    }

    fn collect(&mut self) {
        let now = self.now;
        for w in self.slots.iter_mut().chain([&mut self.this]) {
            if w.1 == now {
                w.1 = now + 1;
            }
        }
        self.now = now + 1;
    }

    fn run(&mut self, code: &[Inst], facts: &LocalFacts, operands: &[Operand]) {
        for i in code {
            match *i {
                Inst::Lower { dst, operand } => {
                    if expr_may_trigger_gc(facts, &operands[operand]) {
                        self.collect();
                    }
                    self.regs.insert(dst, (operand as u64, self.now));
                }
                Inst::DoubleToBits { dst, value } | Inst::BitsToDouble { dst, value } => {
                    let w = self.word(value);
                    self.regs.insert(dst, w);
                }
                Inst::TempRootPush { dst, value } => {
                    let w = self.word(value);
                    self.slot_of.insert(dst, self.slots.len());
                    self.slots.push(w);
                }
                Inst::TempRootGet { dst, slot } => {
                    let w = self.slots[self.slot(slot)];
                    self.regs.insert(dst, w);
                }
                Inst::TempRootSet { slot, value } => {
                    let (at, w) = (self.slot(slot), self.word(value));
                    self.slots[at] = w;
                }
                Inst::TempRootTruncate { slot } => {
                    let at = self.slot(slot);
                    self.slots.truncate(at);
                }
                Inst::ImplicitThisSet { dst, value } => {
                    let w = self.word(value);
                    self.regs.insert(dst, self.this);
                    self.this = w;
                }
                Inst::ArrayPushTempRooted { .. } => self.collect(),
                Inst::ArrayAlloc { dst, .. } => {
                    self.collect();
                    self.regs.insert(dst, (900, self.now));
                }
            }
        }
    }
}

#[test]
fn consumers_see_current_addresses() {
    let es = vec![local(2), text(), call(), local(4), call(), text()];
    let mut c = ctx();
    let (values, guard) = lower_exprs_rooted(&mut c, &es);
    let mut m = Machine::default();
    m.run(&c.code, &c.facts, &es);
    assert_eq!(m.now, 2, "both calls collect");
    for (i, v) in values.iter().enumerate() {
        assert_eq!(m.word(*v), (i as u64, 2));
    }
    assert_eq!(m.slots.len(), 3);
    let mut released = ctx();
    released.next_reg = c.next_reg;
    temp_root_release(&mut released, guard);
    m.run(&released.code, &c.facts, &es);
    assert!(m.slots.is_empty());
}

#[test]
fn store_operands_and_handles_see_current_addresses() {
    let es = vec![local(2), text(), call()];
    let mut c = ctx();
    let receiver = c.lower(0);
    let outer = guard_store_operand(&mut c, &es[0], receiver, &es[2]);
    let key = c.lower(1);
    let inner = guard_store_operand(&mut c, &es[1], key, &es[2]);
    c.lower(2);
    let receiver = reread_store_operand(&mut c, &outer, 0, receiver);
    let key = reread_store_operand(&mut c, &inner, 1, key);
    let mut m = Machine::default();
    m.run(&c.code, &c.facts, &es);
    assert_eq!(m.word(receiver), (0, 1));
    assert_eq!(m.word(key), (1, 1));

    let mut c = ctx();
    let array = c.lower(0);
    let handle = rooted_handle_begin(&mut c, array, true);
    c.lower(2);
    let again = rooted_handle_get(&mut c, &handle);
    let mut m = Machine::default();
    m.run(&c.code, &c.facts, &es);
    assert_eq!(m.word(array), (0, 0), "the register is stale");
    assert_eq!(m.word(again), (0, 1));
}

#[test]
fn recorded_operands_can_be_read_at_any_later_point() {
    let es = vec![local(2), call(), call()];
    let mut c = ctx();
    let mut group = root_operands_begin(2);
    let callee = c.lower(0);
    group.push(&mut c, &es[0], callee, true);
    let first = c.lower(1);
    group.push(&mut c, &es[1], first, true);
    let callee = group.reread_one(&mut c, 0);
    c.lower(2);
    let first = group.reread_one(&mut c, 1);
    let mut m = Machine::default();
    m.run(&c.code, &c.facts, &es);
    assert_eq!(m.word(callee), (0, 1), "read before the last collection");
    assert_eq!(m.word(first), (1, 2));
}

#[test]
fn a_dispatch_restores_the_implicit_this() {
    let es = vec![local(2), call()];
    let mut c = ctx();
    let receiver = c.lower(0);
    let save = implicit_this_save(&mut c, receiver);
    c.lower(1);
    implicit_this_restore(&mut c, save);
    let mut m = Machine { this: (77, 0), ..Machine::default() };
    m.run(&c.code, &c.facts, &es);
    assert_eq!(m.this, (77, 1));
    assert!(m.slots.is_empty());
}
