//! What the collector's policy promises: when a collection is due, of which
//! kind it is, and how one trigger leads to the next.

use vstd::prelude::*;
use crate::gc_budget::{
    completed_result, cycle_finished, drain_next, minor_plan, skipped_result, started,
    status_result, step_planned, CycleStart, Drain, EvacuationReason, StepPlan,
};
use crate::gc_collect::{
    flushed, manual_requested, on_route, route_of, FlushAction, ManualAction, MinorRoute,
};
use crate::gc_env::{flag_set, number_in, off_by_default, on_by_default};
use crate::gc_init::{
    is_compiled_in, registration_of, Features, MutableRootScannerSource, Scanner, ScannerMode,
};
use crate::gc_policy::{
    after_parse, arena_freed, arena_trigger, assist_units, at_safepoint, bump_target, bumped,
    checked, direct_finished, due, growth_due, handoff_due, lowered_trigger, next_arena_step,
    next_arena_trigger, next_malloc_step, old_bytes, old_debt, old_pressure, parse_was_tiny,
    pending_parse, percent, promotable_upto, side_check_due, side_counted, AfterParse,
    CheckAction, GcOutcome, SafepointAction, Survivor,
};
use crate::gc_types::{
    capped_product, greatest, least, BudgetedGcCycle, BudgetedGcRebaseline, BudgetedGcTrigger,
    DeferredGcRequest, GcCollectionKind, GcConfig, GcProgressKind, GcState, GcTriggerKind,
    HeapReadings, GC_MALLOC_COUNT_STEP_MAX, GC_MALLOC_COUNT_STEP_MIN, GC_STEP_FLOOR_BYTES,
    GC_THRESHOLD_MAX_BYTES,
};
use crate::schedule::GcSchedule;
use crate::text::{folded, parsed, same_ignoring_ascii_case, trimmed};

verus! {

// ---------------------------------------------------------------------------
// What is due
// ---------------------------------------------------------------------------

/// Growth of the arena forces a full collection: from the floor on, where more
/// than so many times as much is in use as after the last full collection, and
/// never at or below that. Without a floor it is switched off; before the
/// first full collection the floor alone counts.
pub proof fn law_growth_forces_a_full_collection(s: GcState, cfg: GcConfig, heap: HeapReadings)
    ensures
        cfg.pacing_floor == 0 || heap.arena_in_use < cfg.pacing_floor ==> !growth_due(s, cfg, heap),
        0 < cfg.pacing_floor <= heap.arena_in_use && s.last_full_in_use == 0 ==> growth_due(
            s,
            cfg,
            heap,
        ),
        0 < cfg.pacing_floor <= heap.arena_in_use && heap.arena_in_use > s.last_full_in_use
            * cfg.pacing_growth ==> growth_due(s, cfg, heap),
        s.last_full_in_use > 0 && heap.arena_in_use <= s.last_full_in_use * cfg.pacing_growth
            ==> !growth_due(s, cfg, heap),
{
    reveal(capped_product);
}

/// Growth that forces a full collection still does when there is more of it,
/// or when less was in use after the last one.
pub proof fn law_growth_is_monotone(
    s: GcState,
    before: GcState,
    cfg: GcConfig,
    heap: HeapReadings,
    more: HeapReadings,
)
    requires
        growth_due(s, cfg, heap),
        heap.arena_in_use <= more.arena_in_use,
        before.last_full_in_use <= s.last_full_in_use,
    ensures
        growth_due(s, cfg, more),
        growth_due(before, cfg, heap),
{
    law_growth_forces_a_full_collection(s, cfg, heap);
    law_growth_forces_a_full_collection(s, cfg, more);
    law_growth_forces_a_full_collection(before, cfg, heap);
    assert(before.last_full_in_use * cfg.pacing_growth <= s.last_full_in_use * cfg.pacing_growth)
        by (nonlinear_arith)
        requires
            before.last_full_in_use <= s.last_full_in_use,
            0 <= cfg.pacing_growth,
    ;
}

/// Old bytes are reclaimed where they have crossed the threshold since the
/// last time, or have grown by so much since then, and not otherwise. So
/// nothing is reclaimed right after a reclaim.
pub proof fn law_old_bytes_are_reclaimed_on_growth(cfg: GcConfig, in_use: usize, baseline: usize)
    ensures
        baseline < cfg.old_reclaim_threshold && in_use >= cfg.old_reclaim_threshold
            ==> old_pressure(cfg, in_use, baseline),
        in_use >= baseline + cfg.old_reclaim_growth ==> old_pressure(cfg, in_use, baseline),
        in_use < cfg.old_reclaim_threshold && in_use < baseline + cfg.old_reclaim_growth
            && cfg.old_reclaim_growth > 0 ==> !old_pressure(cfg, in_use, baseline),
        baseline >= cfg.old_reclaim_threshold && in_use < baseline + cfg.old_reclaim_growth
            && cfg.old_reclaim_growth > 0 ==> !old_pressure(cfg, in_use, baseline),
        cfg.old_reclaim_growth > 0 ==> !old_pressure(cfg, baseline, baseline),
{
}

/// More old bytes, or fewer after the last reclaim, never make one less due.
pub proof fn law_old_pressure_is_monotone(
    cfg: GcConfig,
    in_use: usize,
    more: usize,
    baseline: usize,
    lower: usize,
)
    requires
        old_pressure(cfg, in_use, baseline),
        in_use <= more,
        lower <= baseline,
    ensures
        old_pressure(cfg, more, baseline),
        old_pressure(cfg, in_use, lower),
{
}

/// Debt is what old bytes are beyond the point at which they are reclaimed:
/// where there is debt a reclaim is due, and it grows with the bytes.
pub proof fn law_debt_means_pressure(cfg: GcConfig, in_use: usize, more: usize, baseline: usize)
    requires
        in_use <= more,
    ensures
        old_debt(cfg, in_use, baseline) > 0 ==> old_pressure(cfg, in_use, baseline),
        old_debt(cfg, in_use, baseline) <= old_debt(cfg, more, baseline),
        old_debt(cfg, in_use, baseline) > 0 ==> old_debt(cfg, more, baseline) - old_debt(
            cfg,
            in_use,
            baseline,
        ) == more - in_use,
        baseline < cfg.old_reclaim_threshold <= in_use ==> old_debt(cfg, in_use, baseline) == in_use
            - cfg.old_reclaim_threshold,
        in_use < cfg.old_reclaim_threshold ==> baseline < cfg.old_reclaim_threshold ==> old_debt(
            cfg,
            in_use,
            baseline,
        ) == 0,
{
}

/// The trigger by arena bytes is the one that was set, and never more: under
/// the ceiling unless it was set on purpose, and under the nursery's cap where
/// minor collections are cheap.
pub proof fn law_arena_trigger_is_capped(s: GcState, cfg: GcConfig)
    ensures
        ({
            let t = arena_trigger(s, cfg);
            &&& t <= s.next_trigger
            &&& !s.trigger_armed ==> t <= cfg.trigger_ceiling
            &&& cfg.scavenge || cfg.moving_loop_polls ==> t <= cfg.nursery_cap
            &&& t == s.next_trigger || t == cfg.trigger_ceiling || t == cfg.nursery_cap
            &&& t == cfg.trigger_ceiling && t != s.next_trigger && t != cfg.nursery_cap
                ==> !s.trigger_armed
            &&& !cfg.scavenge && !cfg.moving_loop_polls && s.trigger_armed ==> t == s.next_trigger
            &&& !cfg.scavenge && !cfg.moving_loop_polls && s.next_trigger <= cfg.trigger_ceiling
                ==> t == s.next_trigger
            &&& s.next_trigger <= cfg.nursery_cap && s.trigger_armed ==> t == s.next_trigger
        }),
{
}

/// A collection is due exactly where the heap has reached one of its triggers,
/// and the one that is reported has been reached. Old bytes come first, then
/// arena bytes, then objects.
pub proof fn law_due_is_what_was_reached(s: GcState, cfg: GcConfig, heap: HeapReadings)
    ensures
        ({
            let old = s.old_reclaim_pending || old_pressure(
                cfg,
                old_bytes(s, heap),
                s.last_old_reclaim,
            );
            let arena = heap.arena_total >= arena_trigger(s, cfg);
            let objects = heap.malloc_count >= s.next_malloc_trigger;
            &&& due(s, cfg, heap) is None <==> !old && !arena && !objects
            &&& due(s, cfg, heap) == Some(BudgetedGcTrigger::OldReclaim) <==> old
            &&& due(s, cfg, heap) == Some(BudgetedGcTrigger::ArenaBytes) <==> arena && !old
            &&& due(s, cfg, heap) == Some(BudgetedGcTrigger::MallocCount) <==> objects && !arena
                && !old
        }),
        old_bytes(s, heap) >= heap.old_in_use,
        old_bytes(s, heap) >= s.side_live_bytes,
        heap.old_in_use + s.side_live_bytes <= usize::MAX ==> old_bytes(s, heap) == heap.old_in_use
            + s.side_live_bytes,
{
}

/// A heap that only grows stays due.
pub proof fn law_growing_heaps_stay_due(
    s: GcState,
    cfg: GcConfig,
    heap: HeapReadings,
    more: HeapReadings,
)
    requires
        due(s, cfg, heap) is Some,
        heap.arena_total <= more.arena_total,
        heap.malloc_count <= more.malloc_count,
        heap.old_in_use <= more.old_in_use,
    ensures
        due(s, cfg, more) is Some,
{
    if old_pressure(cfg, old_bytes(s, heap), s.last_old_reclaim) {
        law_old_pressure_is_monotone(
            cfg,
            old_bytes(s, heap),
            old_bytes(s, more),
            s.last_old_reclaim,
            s.last_old_reclaim,
        );
    }
}

/// A minor collection gives way to a full one only where it would promote so
/// much that old bytes would have to be reclaimed at once, and only where it
/// answers to pressure on the young generation.
pub proof fn law_handoffs_save_a_collection(
    s: GcState,
    cfg: GcConfig,
    heap: HeapReadings,
    kind: GcTriggerKind,
)
    ensures
        handoff_due(s, cfg, heap, kind) ==> {
            &&& kind == GcTriggerKind::ArenaBytes || kind == GcTriggerKind::MallocCount
            &&& heap.survivor_in_use >= cfg.handoff_min
            &&& heap.promotable >= cfg.handoff_min
            &&& old_pressure(
                cfg,
                old_bytes(s, heap).saturating_add(heap.promotable),
                s.last_old_reclaim,
            )
        },
        (kind == GcTriggerKind::ArenaBytes || kind == GcTriggerKind::MallocCount)
            && heap.survivor_in_use >= cfg.handoff_min && heap.promotable >= cfg.handoff_min
            && old_pressure(cfg, old_bytes(s, heap), s.last_old_reclaim) ==> handoff_due(
            s,
            cfg,
            heap,
            kind,
        ),
{
    if old_pressure(cfg, old_bytes(s, heap), s.last_old_reclaim) {
        law_old_pressure_is_monotone(
            cfg,
            old_bytes(s, heap),
            old_bytes(s, heap).saturating_add(heap.promotable),
            s.last_old_reclaim,
            s.last_old_reclaim,
        );
    }
}

/// Each survivor counts once, with its size: one that has moved already does
/// not count, one that is tenured does, and any other does when it has come of
/// age.
pub proof fn law_survivors_count_with_their_size(
    objects: Seq<Survivor>,
    o: Survivor,
    promotion_age: u8,
)
    ensures
        ({
            let n = objects.len() as int;
            let before = promotable_upto(objects, promotion_age, n);
            let after = promotable_upto(objects.push(o), promotion_age, n + 1);
            let counts = before + o.size;
            &&& o.forwarded ==> after == before
            &&& !o.forwarded && o.tenured && counts <= usize::MAX ==> after == counts
            &&& !o.forwarded && o.age + 1 >= promotion_age && counts <= usize::MAX ==> after
                == counts
            &&& !o.tenured && o.age + 1 < promotion_age ==> after == before
            &&& before <= after
        }),
        promotable_upto(Seq::empty(), promotion_age, 0) == 0,
{
    let n = objects.len() as int;
    lemma_promotable_prefix(objects, objects.push(o), promotion_age, n);
}

proof fn lemma_promotable_prefix(a: Seq<Survivor>, b: Seq<Survivor>, age: u8, n: int)
    requires
        n <= a.len(),
        n <= b.len(),
        forall|i: int| 0 <= i < n ==> a[i] == b[i],
    ensures
        promotable_upto(a, age, n) == promotable_upto(b, age, n),
    decreases n,
{
    if n > 0 {
        lemma_promotable_prefix(a, b, age, n - 1);
    }
}

// ---------------------------------------------------------------------------
// Checking the triggers
// ---------------------------------------------------------------------------

/// While a step runs, triggers are suppressed, memory is being allocated
/// outside a cycle, or native work may hold references, a check does nothing
/// at all. With the roots locked it is put off.
pub proof fn law_checks_wait_their_turn(s: GcState, cfg: GcConfig, heap: HeapReadings)
    ensures
        ({
            let held = s.step_active || s.suppressed || s.unsafe_zones > 0 || (s.in_alloc
                && !s.cycle_active);
            let c = checked(s, cfg, heap);
            &&& held ==> c.action == CheckAction::Nothing && c.state == s
            &&& !held && s.root_lock_depth != 0 ==> {
                &&& c.action == CheckAction::Nothing
                &&& c.state == (GcState { deferred: c.state.deferred, ..s })
                &&& c.state.deferred != DeferredGcRequest::Nothing
            }
        }),
{
}

/// A check that is allowed acts on what is due: a running cycle is assisted;
/// old bytes are reclaimed unless that is under way; nothing happens where
/// nothing is due. Where minor collections are direct, the one that is asked
/// for answers to the trigger that was reached and knows the heap before it.
pub proof fn law_checks_answer_the_pressure(s: GcState, cfg: GcConfig, heap: HeapReadings)
    requires
        !s.step_active,
        !s.suppressed,
        s.unsafe_zones == 0,
        s.cycle_active || !s.in_alloc,
        s.root_lock_depth == 0,
    ensures
        ({
            let c = checked(s, cfg, heap);
            let d = due(s, cfg, heap);
            let direct = cfg.scavenge || cfg.moving_loop_polls || heap.scanners_block_budgeted;
            &&& s.cycle_active ==> c.action is Assist && c.state == s
            &&& !s.cycle_active && d is None ==> c.action == CheckAction::Nothing && c.state == s
            &&& !s.cycle_active && d == Some(BudgetedGcTrigger::OldReclaim)
                && !s.old_reclaim_in_progress ==> {
                &&& c.action == CheckAction::ReclaimOld
                &&& c.state.old_reclaim_in_progress && !c.state.old_reclaim_pending
                &&& c.state == (GcState {
                    old_reclaim_in_progress: true,
                    old_reclaim_pending: false,
                    ..s
                })
            }
            &&& c.action == CheckAction::ReclaimOld ==> d == Some(BudgetedGcTrigger::OldReclaim)
                && !s.old_reclaim_in_progress && !s.cycle_active
            &&& c.action matches CheckAction::CollectMinor {
                kind,
                scan_stack,
                pre_in_use,
                pre_count,
            } ==> {
                &&& direct && !s.cycle_active
                &&& kind == GcTriggerKind::ArenaBytes <==> d == Some(BudgetedGcTrigger::ArenaBytes)
                &&& kind == GcTriggerKind::MallocCount <==> d == Some(
                    BudgetedGcTrigger::MallocCount,
                )
                &&& kind == GcTriggerKind::ArenaBytes || kind == GcTriggerKind::MallocCount
                &&& scan_stack == !cfg.scavenge
                &&& pre_in_use == heap.arena_in_use && pre_count == heap.malloc_count
                &&& !c.state.safepoint_pending || !cfg.moving_loop_polls
            }
            &&& !s.cycle_active && d is Some && !direct ==> c.action is Assist || c.action
                == CheckAction::ReclaimOld
            &&& !s.cycle_active && direct && !cfg.moving_loop_polls && (d == Some(
                BudgetedGcTrigger::ArenaBytes,
            ) || d == Some(BudgetedGcTrigger::MallocCount)) ==> c.action is CollectMinor
        }),
{
}

/// Where loops poll, a collection waits for a safepoint; but it does not wait
/// for more than the slack, counted from the arena at the first wait.
pub proof fn law_waiting_ends(s: GcState, cfg: GcConfig, heap: HeapReadings)
    requires
        !s.step_active,
        !s.suppressed,
        s.unsafe_zones == 0,
        !s.in_alloc,
        s.root_lock_depth == 0,
        !s.cycle_active,
        cfg.moving_loop_polls,
        due(s, cfg, heap) == Some(BudgetedGcTrigger::ArenaBytes) || due(s, cfg, heap) == Some(
            BudgetedGcTrigger::MallocCount,
        ),
    ensures
        ({
            let c = checked(s, cfg, heap);
            &&& !s.safepoint_pending ==> c.action == CheckAction::Nothing && c.state == (GcState {
                safepoint_pending: true,
                defer_base: heap.arena_total,
                ..s
            })
            &&& s.safepoint_pending && heap.arena_total >= s.defer_base + cfg.defer_slack
                ==> c.action is CollectMinor && !c.state.safepoint_pending
            &&& s.safepoint_pending && heap.arena_total < s.defer_base + cfg.defer_slack
                && heap.arena_total < usize::MAX ==> c.action == CheckAction::Nothing && c.state
                == s
        }),
{
}

/// An assist does the base work, one unit for each so many bytes of debt and
/// one for each object.
pub proof fn law_assists_pay_the_debt(cfg: GcConfig, heap: HeapReadings, more: HeapReadings)
    requires
        cfg.debt_bytes_per_unit > 0,
        heap.debt.arena_debt_bytes <= more.debt.arena_debt_bytes <= usize::MAX,
        heap.debt.malloc_debt_objects <= more.debt.malloc_debt_objects <= usize::MAX,
    ensures
        assist_units(cfg, heap) >= cfg.assist_work_units,
        assist_units(cfg, heap) >= heap.debt.malloc_debt_objects,
        assist_units(cfg, heap) <= assist_units(cfg, more),
        heap.debt.arena_debt_bytes < cfg.debt_bytes_per_unit && heap.debt.malloc_debt_objects == 0
            ==> assist_units(cfg, heap) == cfg.assist_work_units,
        more.debt.arena_debt_bytes == heap.debt.arena_debt_bytes + cfg.debt_bytes_per_unit
            && more.debt.malloc_debt_objects == heap.debt.malloc_debt_objects && assist_units(
            cfg,
            more,
        ) < usize::MAX ==> assist_units(cfg, more) == assist_units(cfg, heap) + 1,
{
    let per = cfg.debt_bytes_per_unit as int;
    let a = heap.debt.arena_debt_bytes as int;
    let b = more.debt.arena_debt_bytes as int;
    vstd::arithmetic::div_mod::lemma_div_is_ordered(a, b, per);
    vstd::arithmetic::div_mod::lemma_div_pos_is_pos(a, per);
    vstd::arithmetic::div_mod::lemma_div_nonincreasing(b, per);
    vstd::arithmetic::div_mod::lemma_div_nonincreasing(a, per);
    if a < per {
        vstd::arithmetic::div_mod::lemma_basic_div(a, per);
    }
    if b == a + per {
        vstd::arithmetic::div_mod::lemma_div_plus_one(a, per);
    }
}

// ---------------------------------------------------------------------------
// Setting the triggers anew
// ---------------------------------------------------------------------------

proof fn lemma_percent_below(freed: int, whole: int, p: int)
    requires
        0 <= freed,
        0 < whole,
    ensures
        percent(freed, whole) < p <==> freed * 100 < p * whole,
{
    reveal(percent);
    let n = freed * 100;
    assert(n / whole < p <==> n < p * whole) by (nonlinear_arith)
        requires
            0 < whole,
            n == freed * 100,
    ;
}

/// The step by arena bytes follows what a collection has freed: where next to
/// nothing was garbage (less than a tenth), or nearly everything (85 percent),
/// collections become rarer; where a good part was (a quarter), they come
/// more often; in between they stay.
pub proof fn law_arena_steps_follow_the_yield(step: usize, pre: usize, freed: usize)
    requires
        step <= GC_THRESHOLD_MAX_BYTES,
    ensures
        ({
            let next = next_arena_step(step, pre, freed);
            &&& pre == 0 ==> next == step
            &&& pre > 0 && (freed * 100 < 10 * pre || freed * 100 >= 85 * pre) ==> next >= step
                && next <= GC_THRESHOLD_MAX_BYTES && (next == 2 * step || next
                == GC_THRESHOLD_MAX_BYTES)
            &&& pre > 0 && 25 * pre <= freed * 100 < 85 * pre ==> next >= GC_STEP_FLOOR_BYTES && (
            next == step / 2 || next == GC_STEP_FLOOR_BYTES) && next >= step / 2
            &&& pre > 0 && 10 * pre <= freed * 100 < 25 * pre ==> next == step
        }),
{
    if pre > 0 {
        lemma_percent_below(freed as int, pre as int, 10);
        lemma_percent_below(freed as int, pre as int, 85);
        lemma_percent_below(freed as int, pre as int, 25);
    }
}

/// The step by object count follows it likewise: collections that free less
/// than 15 percent become far rarer, those that free less than half rarer, and
/// those that free more than 90 percent come more often.
pub proof fn law_object_steps_follow_the_yield(step: usize, pre: usize, survivors: usize)
    requires
        step <= GC_MALLOC_COUNT_STEP_MAX,
        survivors <= pre,
    ensures
        ({
            let next = next_malloc_step(step, pre, survivors);
            let freed = (pre - survivors) * 100;
            &&& pre == 0 ==> next == step
            &&& pre > 0 && freed < 15 * pre ==> next >= step && (next == 4 * step || next
                == GC_MALLOC_COUNT_STEP_MAX)
            &&& pre > 0 && 15 * pre <= freed < 50 * pre ==> next >= step && (next == 2 * step
                || next == GC_MALLOC_COUNT_STEP_MAX)
            &&& pre > 0 && freed >= 91 * pre ==> next >= GC_MALLOC_COUNT_STEP_MIN && next >= step
                / 2 && (next == step / 2 || next == GC_MALLOC_COUNT_STEP_MIN)
            &&& pre > 0 && 50 * pre <= freed < 91 * pre ==> next == step
            &&& next <= GC_MALLOC_COUNT_STEP_MAX
        }),
{
    if pre > 0 {
        let f = pre - survivors;
        lemma_percent_below(f, pre as int, 15);
        lemma_percent_below(f, pre as int, 50);
        lemma_percent_below(f, pre as int, 91);
    }
}

/// After a collection the next one is a step away: from what there is, as far
/// as the ceiling lets it, and with the least headroom in any case.
pub proof fn law_next_trigger_is_a_step_away(cfg: GcConfig, total: usize, step: usize)
    ensures
        ({
            let t = next_arena_trigger(cfg, total, step);
            &&& t >= total
            &&& total + step <= cfg.trigger_ceiling && cfg.headroom_floor <= step ==> t == total
                + step
            &&& t > cfg.trigger_ceiling && total + cfg.headroom_floor <= usize::MAX ==> t == total
                + cfg.headroom_floor
            &&& total + cfg.headroom_floor <= usize::MAX ==> t >= total + cfg.headroom_floor
            &&& total + step <= usize::MAX && total + cfg.headroom_floor <= usize::MAX ==> t
                <= total + step || t == total + cfg.headroom_floor
        }),
{
}

/// A collection counts as what it has freed by sweeping or by resetting
/// blocks, whichever is more. It sets the trigger for the next one a step
/// above what is left, and that by object count only where objects were swept.
pub proof fn law_collections_set_the_next_trigger(
    s: GcState,
    cfg: GcConfig,
    kind: GcTriggerKind,
    pre_in_use: usize,
    pre_count: usize,
    outcome: GcOutcome,
    heap: HeapReadings,
)
    requires
        s.well_formed(),
        heap.countable(),
        outcome.freed_bytes <= usize::MAX,
        heap.arena_in_use <= pre_in_use,
    ensures
        ({
            let freed = arena_freed(pre_in_use, outcome, heap);
            let after = direct_finished(s, cfg, kind, pre_in_use, pre_count, outcome, heap);
            &&& freed >= outcome.freed_bytes && freed >= pre_in_use - heap.arena_in_use
            &&& freed == outcome.freed_bytes || freed == pre_in_use - heap.arena_in_use
            &&& kind != GcTriggerKind::MallocCount ==> {
                &&& after.step_bytes == next_arena_step(s.step_bytes, pre_in_use, freed)
                &&& after.next_trigger == next_arena_trigger(
                    cfg,
                    heap.arena_total,
                    after.step_bytes,
                )
                &&& after.trigger_armed
                &&& after.malloc_step == s.malloc_step
            }
            &&& kind == GcTriggerKind::MallocCount ==> {
                &&& after.malloc_step == next_malloc_step(
                    s.malloc_step,
                    pre_count,
                    heap.malloc_count,
                )
                &&& after.step_bytes == s.step_bytes && after.next_trigger == s.next_trigger
                &&& after.trigger_armed == s.trigger_armed
            }
            &&& outcome.malloc_swept ==> after.next_malloc_trigger == heap.malloc_count
                + after.malloc_step
            &&& !outcome.malloc_swept ==> after.next_malloc_trigger == s.next_malloc_trigger
            &&& after == (GcState {
                step_bytes: after.step_bytes,
                next_trigger: after.next_trigger,
                trigger_armed: after.trigger_armed,
                malloc_step: after.malloc_step,
                next_malloc_trigger: after.next_malloc_trigger,
                ..s
            })
        }),
{
    reveal(percent);
}

// ---------------------------------------------------------------------------
// Parses
// ---------------------------------------------------------------------------

/// After a suppressed parse the next collection is at least a step away from
/// what there is, where the ceiling lets it, but not further than a step; a
/// tiny parse does not raise the trigger beyond the ceiling.
pub proof fn law_parses_ask_for_a_step(cfg: GcConfig, bytes: usize, step: usize, tiny: bool)
    ensures
        ({
            let t = bump_target(cfg, bytes, step, tiny);
            &&& bytes + step <= cfg.trigger_ceiling ==> t == bytes + step
            &&& tiny ==> t <= cfg.trigger_ceiling
            &&& !tiny ==> t >= bytes
            &&& bytes + step <= usize::MAX ==> t <= bytes + step
            &&& !tiny && step <= cfg.trigger_ceiling && bytes + step <= usize::MAX ==> t == bytes
                + step
        }),
{
}

/// A parse is tiny where it has grown the arena by at most a mebibyte; the
/// objects that it leaves set the count for the next collection, and its bytes
/// at most raise the trigger.
pub proof fn law_parses_set_the_triggers(
    s: GcState,
    cfg: GcConfig,
    count: usize,
    bytes: usize,
)
    requires
        count + s.malloc_step <= usize::MAX,
    ensures
        ({
            let b = bumped(s, cfg, count, bytes);
            let tiny = parse_was_tiny(s, bytes);
            &&& tiny <==> bytes <= s.pre_suppress_bytes + 1024 * 1024
            &&& b.next_malloc_trigger == count + s.malloc_step
            &&& b.next_trigger == s.next_trigger || b.next_trigger > arena_trigger(s, cfg)
            &&& b.next_trigger != s.next_trigger ==> b.trigger_armed
            &&& !tiny && s.trigger_bumped ==> b.next_trigger == s.next_trigger
            &&& b.trigger_bumped ==> s.trigger_bumped || !tiny
            &&& s.trigger_bumped ==> b.trigger_bumped
            &&& b == (GcState {
                next_malloc_trigger: b.next_malloc_trigger,
                next_trigger: b.next_trigger,
                trigger_armed: b.trigger_armed,
                trigger_bumped: b.trigger_bumped,
                ..s
            })
        }),
{
}

/// A trigger that was lowered to what there is has been reached, so that a
/// check finds it due.
pub proof fn law_lowered_triggers_are_due(s: GcState, cfg: GcConfig, heap: HeapReadings)
    ensures
        ({
            let l = lowered_trigger(s, heap.arena_total);
            &&& due(l, cfg, heap) is Some
            &&& l.next_trigger <= s.next_trigger
            &&& l.next_trigger <= heap.arena_total
            &&& l == (GcState { next_trigger: l.next_trigger, trigger_armed: l.trigger_armed, ..s })
        }),
{
}

/// Tiny parses that pile up lead to a collection: at once, or, without the
/// generational collector, before the next parse. Larger parses, and those
/// that leave little in use, lead to none.
pub proof fn law_tiny_parses_pile_up(s: GcState, cfg: GcConfig, heap: HeapReadings)
    ensures
        ({
            let p = after_parse(s, cfg, heap);
            let tiny = parse_was_tiny(s, heap.arena_total);
            let full = if cfg.gen_gc {
                heap.arena_in_use >= cfg.tiny_parse_in_use
            } else {
                heap.arena_in_use >= cfg.tiny_parse_in_use_full
            };
            &&& !tiny || !full ==> p.action == AfterParse::Nothing && p.state.tiny_parse_pending
                == s.tiny_parse_pending
            &&& tiny && full && !cfg.gen_gc ==> p.action == AfterParse::StartFreshBlock
                && p.state.tiny_parse_pending
            &&& tiny && full && cfg.gen_gc && s.unsafe_zones > 0 ==> p.action
                == AfterParse::Nothing && p.state.tiny_parse_pending
            &&& tiny && full && cfg.gen_gc && s.unsafe_zones == 0 ==> p.action is Check
            &&& tiny && full && cfg.gen_gc && s.unsafe_zones == 0 && !s.step_active
                && !s.suppressed && !s.in_alloc && s.root_lock_depth == 0 && !s.cycle_active
                && !cfg.moving_loop_polls && !s.old_reclaim_in_progress ==> p.action
                != AfterParse::Check(CheckAction::Nothing)
        }),
{
    let b = bumped(s, cfg, heap.malloc_count, heap.arena_total);
    law_lowered_triggers_are_due(GcState { tiny_parse_pending: true, ..b }, cfg, heap);
}

/// A collection that parses have asked for is run once it may be, and is then
/// no longer asked for; until then it goes on waiting.
pub proof fn law_pending_parses_are_served(s: GcState, cfg: GcConfig, heap: HeapReadings)
    ensures
        ({
            let p = pending_parse(s, cfg, heap);
            let held = s.in_alloc || s.suppressed || s.unsafe_zones > 0;
            &&& !s.tiny_parse_pending || held ==> p.action == CheckAction::Nothing && p.state == s
            &&& s.tiny_parse_pending && !held ==> !p.state.tiny_parse_pending
            &&& s.tiny_parse_pending && !held && !s.step_active && s.root_lock_depth == 0
                && !s.cycle_active && !cfg.moving_loop_polls && !s.old_reclaim_in_progress
                ==> p.action != CheckAction::Nothing
        }),
{
    law_lowered_triggers_are_due(GcState { tiny_parse_pending: false, ..s }, cfg, heap);
}

// ---------------------------------------------------------------------------
// Side buffers and safepoints
// ---------------------------------------------------------------------------

/// Every 16 mebibytes of side buffers ask for one check; what was counted
/// towards the next one is never lost.
pub proof fn law_side_buffers_ask_for_checks(s: GcState, bytes: usize)
    requires
        s.side_live_bytes + bytes <= usize::MAX,
        s.side_alloc_pending + bytes <= usize::MAX,
    ensures
        side_check_due(s, bytes) <==> s.side_alloc_pending + bytes >= 16 * 1024 * 1024,
        side_counted(s, bytes).side_live_bytes == s.side_live_bytes + bytes,
        side_check_due(s, bytes) ==> side_counted(s, bytes).side_alloc_pending == 0,
        !side_check_due(s, bytes) ==> side_counted(s, bytes).side_alloc_pending
            == s.side_alloc_pending + bytes,
        side_counted(s, bytes) == (GcState {
            side_live_bytes: side_counted(s, bytes).side_live_bytes,
            side_alloc_pending: side_counted(s, bytes).side_alloc_pending,
            ..s
        }),
{
}

/// A safepoint is passed over while memory is allocated, triggers are
/// suppressed, native work may hold references, the roots are locked or a
/// cycle runs. Any other serves what is due: old bytes by a full collection
/// unless one is under way, all else by a minor one that answers to the
/// trigger that was reached. No collection goes on waiting after it.
pub proof fn law_safepoints_serve_what_is_due(
    s: GcState,
    sched: GcSchedule,
    cfg: GcConfig,
    heap: HeapReadings,
)
    ensures
        ({
            let held = s.in_alloc || s.suppressed || s.unsafe_zones > 0 || s.root_lock_depth != 0
                || s.cycle_active;
            let p = at_safepoint(s, sched, cfg, heap);
            let d = due(s, cfg, heap);
            &&& held ==> p.action == SafepointAction::Idle && p.state == s && p.sched == sched
            &&& !held ==> !p.state.safepoint_pending
            &&& !held && d == Some(BudgetedGcTrigger::OldReclaim) && !s.old_reclaim_in_progress
                ==> p.action == SafepointAction::ReclaimOld && p.state.old_reclaim_in_progress
                && !p.state.old_reclaim_pending
            &&& p.action == SafepointAction::ReclaimOld ==> d == Some(BudgetedGcTrigger::OldReclaim)
                && !s.old_reclaim_in_progress
            &&& !held && (d == Some(BudgetedGcTrigger::ArenaBytes) || d == Some(
                BudgetedGcTrigger::MallocCount,
            )) ==> p.action is CollectMinor
            &&& !held && d is None && cfg.zeal ==> p.action is CollectMinor && p.state.zeal_forced
                == s.zeal_forced.wrapping_add(1)
            &&& p.action matches SafepointAction::CollectMinor { kind, pre_in_use, pre_count } ==> {
                &&& kind == GcTriggerKind::MallocCount <==> d == Some(
                    BudgetedGcTrigger::MallocCount,
                )
                &&& kind == GcTriggerKind::ArenaBytes || kind == GcTriggerKind::MallocCount
                &&& pre_in_use == heap.arena_in_use && pre_count == heap.malloc_count
            }
            &&& !held && d is None && !cfg.zeal && sched.setting is None ==> p.action
                == SafepointAction::Idle
        }),
{
}

// ---------------------------------------------------------------------------
// Which collection runs
// ---------------------------------------------------------------------------

/// A minor collection is a full one without generations, where it would
/// promote too much, or where the arena has grown too much; otherwise it stays
/// minor. It keeps its trigger unless it gives way to promotion.
pub proof fn law_minor_collections_escalate_for_a_reason(
    s: GcState,
    cfg: GcConfig,
    heap: HeapReadings,
    schedule_on: bool,
    kind: GcTriggerKind,
)
    ensures
        ({
            let route = route_of(s, cfg, heap, schedule_on, kind);
            let handoff = handoff_due(s, cfg, heap, kind);
            &&& route is Full <==> !cfg.gen_gc || handoff || growth_due(s, cfg, heap)
            &&& route matches MinorRoute::Full { trigger_kind, prev_in_alloc } ==> {
                &&& trigger_kind == GcTriggerKind::SurvivorPromotionBytes || trigger_kind == kind
                &&& cfg.gen_gc && handoff ==> trigger_kind
                    == GcTriggerKind::SurvivorPromotionBytes
                &&& !(cfg.gen_gc && handoff) ==> trigger_kind == kind
                &&& prev_in_alloc is None <==> !cfg.gen_gc
                &&& prev_in_alloc matches Some(prev) ==> prev == s.in_alloc
            }
            &&& route matches MinorRoute::Minor { plan, progress, prev_in_alloc } ==> {
                &&& plan.evacuation_allowed == cfg.evacuate
                &&& plan.force_evacuation == (cfg.evacuate && (cfg.zeal || schedule_on
                    || cfg.force_evacuate))
                &&& plan.select_old_pages == (cfg.evacuate && heap.tracking_complete)
                &&& progress == if kind == GcTriggerKind::Manual {
                    GcProgressKind::ExplicitSynchronous
                } else {
                    GcProgressKind::LegacySynchronous
                }
                &&& prev_in_alloc == s.in_alloc
            }
        }),
{
}

/// While a collection with generations runs, the allocation flag is set; a
/// full one lets larger parses raise the trigger again; nothing else changes.
pub proof fn law_routes_change_two_flags(s: GcState, route: MinorRoute)
    ensures
        ({
            let after = on_route(s, route);
            let legacy = route matches MinorRoute::Full { prev_in_alloc: None, .. };
            &&& after.in_alloc == (s.in_alloc || !legacy)
            &&& after.trigger_bumped == (s.trigger_bumped && route is Minor)
            &&& after == (GcState {
                in_alloc: after.in_alloc,
                trigger_bumped: after.trigger_bumped,
                ..s
            })
        }),
{
}

/// Of two requests that were put off, a manual collection is never dropped, a
/// collection outweighs a minor one, and that a check; of two alike the
/// earlier stands. Nothing gives way to anything.
pub proof fn law_the_more_pressing_request_stands(a: DeferredGcRequest, b: DeferredGcRequest)
    ensures
        a.merged(DeferredGcRequest::Nothing) == a,
        DeferredGcRequest::Nothing.merged(b) == b,
        a == DeferredGcRequest::Collect(GcTriggerKind::Manual) || b == DeferredGcRequest::Collect(
            GcTriggerKind::Manual,
        ) ==> a.merged(b) == DeferredGcRequest::Collect(GcTriggerKind::Manual),
        a is Collect || b is Collect ==> a.merged(b) is Collect,
        a is Collect && !(b is Collect) ==> a.merged(b) == a,
        b is Collect && !(a is Collect) ==> a.merged(b) == b,
        !(a is Collect) && !(b is Collect) && (a is DirectMinor || b is DirectMinor) ==> a.merged(b)
            == DeferredGcRequest::DirectMinor,
        a is Collect && b is Collect && b != DeferredGcRequest::Collect(GcTriggerKind::Manual)
            ==> a.merged(b) == a,
        a.merged(b) == a || a.merged(b) == b,
{
}

/// Requests are put off only while the roots are locked, and nothing else
/// changes then.
pub proof fn law_requests_are_put_off_under_the_lock(s: GcState, r: DeferredGcRequest)
    ensures
        s.root_lock_depth == 0 ==> s.with_deferred(r) == s,
        s.root_lock_depth != 0 ==> s.with_deferred(r) == (GcState {
            deferred: s.deferred.merged(r),
            ..s
        }),
{
}

/// A collection that the program asks for runs, unless native work may hold
/// references, when it is skipped with one warning, or the roots are locked,
/// when it is put off.
pub proof fn law_manual_collections_run_when_they_can(s: GcState)
    ensures
        ({
            let m = manual_requested(s);
            &&& s.unsafe_zones > 0 ==> m.action == (ManualAction::Skipped {
                warn: !s.unsafe_warned,
            }) && m.state == (GcState { unsafe_warned: true, ..s })
            &&& s.unsafe_zones <= 0 && s.root_lock_depth != 0 ==> m.action
                == ManualAction::Deferred && m.state == (GcState {
                deferred: DeferredGcRequest::Collect(GcTriggerKind::Manual),
                ..s
            })
            &&& s.unsafe_zones <= 0 && s.root_lock_depth == 0 ==> m.action == ManualAction::Collect
                && m.state == s
        }),
{
    law_the_more_pressing_request_stands(
        s.deferred,
        DeferredGcRequest::Collect(GcTriggerKind::Manual),
    );
}

/// A request that was put off becomes what was asked for, and is then gone.
/// While native work may hold references, or during a panic, none runs.
pub proof fn law_put_off_requests_are_what_was_asked_for(
    s: GcState,
    cfg: GcConfig,
    heap: HeapReadings,
)
    requires
        s.root_lock_depth == 0,
    ensures
        ({
            let f = flushed(s, cfg, heap, false);
            let open = s.unsafe_zones <= 0;
            &&& f.state.deferred == DeferredGcRequest::Nothing
            &&& s.deferred is Nothing ==> f.action == FlushAction::Nothing
            &&& s.deferred is CheckTrigger ==> f.action == FlushAction::Check(
                checked(GcState { deferred: DeferredGcRequest::Nothing, ..s }, cfg, heap).action,
            )
            &&& s.deferred is DirectMinor && open ==> f.action == FlushAction::DirectMinor
            &&& s.deferred == DeferredGcRequest::Collect(GcTriggerKind::Manual) && open
                ==> f.action == FlushAction::ManualCollect
            &&& s.deferred matches DeferredGcRequest::Collect(kind) ==> kind
                != GcTriggerKind::Manual && open ==> f.action == FlushAction::Collect(kind)
            &&& !open && !(s.deferred is CheckTrigger) ==> f.action == FlushAction::Nothing
                || f.action == FlushAction::Warn
            &&& f.action == FlushAction::Warn <==> !open && !s.unsafe_warned && s.deferred
                == DeferredGcRequest::Collect(GcTriggerKind::Manual)
            &&& !(s.deferred is CheckTrigger) ==> f.state == (GcState {
                deferred: DeferredGcRequest::Nothing,
                unsafe_warned: s.unsafe_warned || f.action == FlushAction::Warn,
                ..s
            })
        }),
{
}

// ---------------------------------------------------------------------------
// The budgeted cycle
// ---------------------------------------------------------------------------

/// A cycle is started for what is due and says so; it is a full one for old
/// bytes, without generations, and where the arena has grown too much. It
/// remembers the heap from before it, for setting that trigger anew.
pub proof fn law_cycles_start_for_what_is_due(
    s: GcState,
    cfg: GcConfig,
    heap: HeapReadings,
    schedule_on: bool,
    progress: GcProgressKind,
    d: BudgetedGcTrigger,
)
    ensures
        ({
            let st = started(s, cfg, heap, schedule_on, progress, d);
            let full = d == BudgetedGcTrigger::OldReclaim || !cfg.gen_gc || growth_due(
                s,
                cfg,
                heap,
            );
            &&& st.start is Full <==> full
            &&& st.cycle.collection_kind == GcCollectionKind::Full <==> full
            &&& st.cycle.phase == 0
            &&& d == BudgetedGcTrigger::OldReclaim ==> st.cycle.trigger_kind
                == GcTriggerKind::OldGenBytes && st.cycle.rebaseline
                == BudgetedGcRebaseline::OldReclaim
            &&& d == BudgetedGcTrigger::ArenaBytes ==> st.cycle.trigger_kind
                == GcTriggerKind::ArenaBytes && st.cycle.rebaseline
                == (BudgetedGcRebaseline::ArenaBytes { pre_in_use: heap.arena_in_use })
            &&& d == BudgetedGcTrigger::MallocCount ==> st.cycle.trigger_kind
                == GcTriggerKind::MallocCount && st.cycle.rebaseline
                == (BudgetedGcRebaseline::MallocCount { pre_count: heap.malloc_count })
            &&& st.start matches CycleStart::Full { trigger_kind, progress: p } ==> trigger_kind
                == st.cycle.trigger_kind && p == progress
            &&& st.start matches CycleStart::Minor {
                trigger_kind,
                progress: p,
                prev_in_alloc,
                plan,
            } ==> {
                &&& trigger_kind == st.cycle.trigger_kind && p == progress
                &&& prev_in_alloc == s.in_alloc
                &&& plan.evacuation_allowed == (cfg.evacuate && progress
                    != GcProgressKind::NormalIncremental && progress
                    != GcProgressKind::MutatorAssist)
            }
        }),
{
}

/// Starting a cycle takes the pressure it is for, lets larger parses raise the
/// trigger again, and sets the allocation flag for a minor one. Nothing else
/// changes.
pub proof fn law_started_cycles_take_their_pressure(
    s: GcState,
    cfg: GcConfig,
    heap: HeapReadings,
    schedule_on: bool,
    progress: GcProgressKind,
    d: BudgetedGcTrigger,
)
    ensures
        ({
            let st = started(s, cfg, heap, schedule_on, progress, d);
            &&& st.state.in_alloc == (s.in_alloc || st.start is Minor)
            &&& !st.state.trigger_bumped
            &&& st.state.old_reclaim_pending == (s.old_reclaim_pending && d
                != BudgetedGcTrigger::OldReclaim)
            &&& st.state == (GcState {
                in_alloc: st.state.in_alloc,
                trigger_bumped: st.state.trigger_bumped,
                old_reclaim_pending: st.state.old_reclaim_pending,
                ..s
            })
        }),
{
}

/// A step with work to do goes on with the cycle under way, or starts one
/// where something is due; it takes all its work units along. It is skipped
/// where triggers are suppressed, native work may hold references, the roots
/// are locked, a scanner cannot run in steps, or another step runs.
pub proof fn law_steps_run_when_they_can(
    s: GcState,
    cfg: GcConfig,
    heap: HeapReadings,
    schedule_on: bool,
    units: usize,
    progress: GcProgressKind,
)
    requires
        units > 0,
        s.cycle_active <==> s.cycle is Some,
    ensures
        ({
            let p = step_planned(s, cfg, heap, schedule_on, units, progress);
            let held = s.suppressed || s.unsafe_zones > 0 || s.root_lock_depth != 0
                || heap.scanners_block_budgeted || s.step_active;
            let d = due(s, cfg, heap);
            &&& p.plan is Run <==> !held && (s.cycle_active || d is Some && !s.in_alloc)
            &&& p.plan matches StepPlan::Run { start, work_units } ==> {
                &&& work_units == units
                &&& start is Some <==> !s.cycle_active
                &&& start matches Some(c) ==> c == started(
                    s,
                    cfg,
                    heap,
                    schedule_on,
                    progress,
                    d->0,
                ).start
                &&& p.state.step_active && p.state.cycle_active
                &&& s.cycle_active ==> p.state.cycle == s.cycle
            }
            &&& p.plan matches StepPlan::Done(r) ==> {
                &&& p.state == s
                &&& r.status == 0 || r.status == 3
                &&& r.status == 0 <==> !s.step_active && !s.cycle_active && d is None
                &&& r.active == 1 <==> s.cycle_active
                &&& r.completed == 0
            }
        }),
{
}

/// What a host learns of a step: the debt as it was read, and whether a cycle
/// is under way or complete.
pub proof fn law_results_tell_the_debt(s: GcState, heap: HeapReadings)
    ensures
        ({
            let r = status_result(s, heap);
            let k = skipped_result(s, heap);
            &&& r.arena_debt_bytes == heap.debt.arena_debt_bytes && r.malloc_debt_objects
                == heap.debt.malloc_debt_objects && r.old_reclaim_debt_bytes
                == heap.debt.old_reclaim_debt_bytes
            &&& k.arena_debt_bytes == heap.debt.arena_debt_bytes && k.malloc_debt_objects
                == heap.debt.malloc_debt_objects && k.old_reclaim_debt_bytes
                == heap.debt.old_reclaim_debt_bytes
            &&& r.active == 1 <==> s.cycle_active && s.cycle is Some
            &&& r.active == 0 || r.active == 1
            &&& r.completed == 0
            &&& r.status == r.active
            &&& s.cycle_active && s.cycle is Some ==> r.phase == s.cycle->0.phase
            &&& !(s.cycle_active && s.cycle is Some) ==> r.phase == 0 && r.collection_kind == 0
                && r.trigger_kind == 0
            &&& k.status == 3
            &&& k.active == r.active && k.phase == r.phase && k.trigger_kind == r.trigger_kind
                && k.collection_kind == r.collection_kind
        }),
{
}

/// A completed cycle sets anew the trigger that it answered to, from the heap
/// before and after it, and leaves no cycle.
pub proof fn law_completed_cycles_set_their_trigger(
    s: GcState,
    cfg: GcConfig,
    cycle: BudgetedGcCycle,
    outcome: GcOutcome,
    heap: HeapReadings,
)
    ensures
        ({
            let after = cycle_finished(s, cfg, cycle, outcome, heap);
            let done = completed_result(heap, cycle, 9);
            &&& after.cycle is None && !after.cycle_active && !after.step_active
            &&& cycle.rebaseline matches BudgetedGcRebaseline::ArenaBytes { pre_in_use } ==> after
                == (GcState {
                cycle: None,
                cycle_active: false,
                step_active: false,
                ..direct_finished(s, cfg, GcTriggerKind::ArenaBytes, pre_in_use, 0, outcome, heap)
            })
            &&& cycle.rebaseline matches BudgetedGcRebaseline::MallocCount { pre_count } ==> after
                == (GcState {
                cycle: None,
                cycle_active: false,
                step_active: false,
                ..direct_finished(s, cfg, GcTriggerKind::MallocCount, 0, pre_count, outcome, heap)
            })
            &&& cycle.rebaseline == BudgetedGcRebaseline::OldReclaim ==> after == (GcState {
                cycle: None,
                cycle_active: false,
                step_active: false,
                ..s
            })
            &&& done.completed == 1 && done.active == 0 && done.status == 2 && done.phase == 9
        }),
{
}

/// A parked cycle is stepped until it is complete; a step that was skipped, or
/// 64 of them, end the attempt.
pub proof fn law_parked_cycles_are_drained(s: GcState, taken: u32, last_status: u32)
    ensures
        ({
            let d = drain_next(s, taken, last_status);
            &&& d == Drain::Drained <==> !s.cycle_active
            &&& s.cycle_active && taken == 0 ==> d == Drain::Step
            &&& s.cycle_active && 0 < taken < 64 ==> (d == Drain::GivenUp <==> last_status == 3)
            &&& s.cycle_active && taken >= 64 ==> d == Drain::GivenUp
        }),
{
}

/// A minor collection moves objects where that is switched on and it does not
/// run in short steps, and says which of the two it was where it does not.
pub proof fn law_plans_move_when_they_may(
    cfg: GcConfig,
    heap: HeapReadings,
    schedule_on: bool,
    low_pause: bool,
)
    ensures
        ({
            let p = minor_plan(cfg, heap, schedule_on, low_pause);
            &&& p.evacuation_allowed <==> cfg.evacuate && !low_pause
            &&& p.force_evacuation <==> cfg.evacuate && !low_pause && (cfg.zeal || schedule_on
                || cfg.force_evacuate)
            &&& p.select_old_pages <==> cfg.evacuate && !low_pause && heap.tracking_complete
            &&& low_pause <==> p.disabled_reason == EvacuationReason::LowPauseNonMoving
        }),
{
}

// ---------------------------------------------------------------------------
// Kinds and figures
// ---------------------------------------------------------------------------

/// A collection for want of memory and one that the program asks for are told
/// apart from all others, which run at once for an automatic trigger; only the
/// two kinds that run in steps have a budget.
pub proof fn law_progress_tells_why_it_runs(t: GcTriggerKind, kind: GcCollectionKind)
    ensures
        ({
            let p = t.progress(kind);
            let full = kind == GcCollectionKind::Full;
            &&& p == GcProgressKind::EmergencyFull <==> t == GcTriggerKind::Emergency && full
            &&& p == GcProgressKind::ExplicitFull <==> t == GcTriggerKind::Manual && full
            &&& p == GcProgressKind::ExplicitSynchronous <==> t == GcTriggerKind::Manual && !full
            &&& p == GcProgressKind::LegacySynchronous <==> t != GcTriggerKind::Manual && !(t
                == GcTriggerKind::Emergency && full)
            &&& !p.budgeted()
            &&& GcProgressKind::NormalIncremental.budgeted()
            &&& GcProgressKind::MutatorAssist.budgeted()
        }),
{
}

/// Hosts know the collections and triggers by these numbers.
pub proof fn law_hosts_know_the_codes(kind: GcCollectionKind, t: GcTriggerKind)
    ensures
        1 <= kind.code() <= 2,
        kind.code() == 1 <==> kind == GcCollectionKind::Minor,
        1 <= t.code() <= 7,
        t.code() == 1 <==> t == GcTriggerKind::ArenaBytes,
        t.code() == 2 <==> t == GcTriggerKind::MallocCount,
        t.code() == 3 <==> t == GcTriggerKind::OldGenBytes,
        t.code() == 4 <==> t == GcTriggerKind::SurvivorPromotionBytes,
        t.code() == 5 <==> t == GcTriggerKind::Manual,
        t.code() == 6 <==> t == GcTriggerKind::Direct,
        t.code() == 7 <==> t == GcTriggerKind::Emergency,
{
}

/// The lesser and the greater of two numbers, and their product as far as it
/// fits.
pub proof fn law_figures_are_bounded(a: usize, b: usize)
    ensures
        least(a, b) <= a && least(a, b) <= b && (least(a, b) == a || least(a, b) == b),
        greatest(a, b) >= a && greatest(a, b) >= b && (greatest(a, b) == a || greatest(a, b) == b),
        a * b <= usize::MAX ==> capped_product(a, b) == a * b,
        a * b > usize::MAX ==> capped_product(a, b) == usize::MAX,
{
    reveal(capped_product);
}

/// A new collector is idle: nothing waits, nothing is held, and the triggers
/// stand at 128 MiB and 100000 objects.
pub proof fn law_new_collectors_are_idle(cfg: GcConfig, heap: HeapReadings)
    ensures
        ({
            let s = GcState::fresh();
            &&& s.next_trigger == 128 * 1024 * 1024 && s.step_bytes == 128 * 1024 * 1024
            &&& s.next_malloc_trigger == 100_000 && s.malloc_step == 100_000
            &&& s.cycle is None && !s.cycle_active && !s.step_active
            &&& !s.in_alloc && !s.suppressed && s.root_lock_depth == 0 && s.unsafe_zones == 0
            &&& s.deferred == DeferredGcRequest::Nothing
            &&& !s.old_reclaim_pending && !s.safepoint_pending && !s.tiny_parse_pending
            &&& !s.trigger_armed && !s.trigger_bumped && !s.unsafe_warned && !s.in_emergency
            &&& !s.old_reclaim_in_progress && !s.init_done && !s.auto_init_suppressed
            &&& s.pre_suppress_bytes == 0 && s.side_alloc_pending == 0 && s.side_live_bytes == 0
            &&& s.last_old_reclaim == 0 && s.last_full_in_use == 0 && s.defer_base == 0
            &&& s.zeal_forced == 0 && s.nursery_drains == 0 && s.old_reclaim_drains == 0
            &&& heap.arena_total < 128 * 1024 * 1024 && heap.malloc_count < 100_000
                && heap.old_in_use < cfg.old_reclaim_growth && heap.old_in_use
                < cfg.old_reclaim_threshold && cfg.trigger_ceiling >= 128 * 1024 * 1024
                && !cfg.scavenge && !cfg.moving_loop_polls ==> due(s, cfg, heap) is None
        }),
{
}

// ---------------------------------------------------------------------------
// Settings
// ---------------------------------------------------------------------------

/// What is on unless switched off stays on for every other word, and what is
/// off unless switched on stays off; a setting that is not there changes
/// nothing. No word switches both.
pub proof fn law_settings_have_a_default(word: &str)
    ensures
        on_by_default(None),
        !off_by_default(None),
        !flag_set(None),
        !on_by_default(Some(word)) <==> word@ == "0"@ || word@ == "off"@ || word@ == "false"@,
        off_by_default(Some(word)) <==> word@ == "1"@ || word@ == "on"@ || word@ == "true"@,
        !(off_by_default(Some(word)) && !on_by_default(Some(word))),
{
    reveal_strlit("0");
    reveal_strlit("1");
    reveal_strlit("on");
    reveal_strlit("off");
    reveal_strlit("true");
    reveal_strlit("false");
    assert("0"@[0] != "1"@[0]);
    assert("0"@.len() == 1 && "1"@.len() == 1 && "on"@.len() == 2);
    assert("off"@.len() == 3 && "true"@.len() == 4 && "false"@.len() == 5);
}

/// A flag is set by one of four words, with white space around it or not, in
/// small letters or in capitals.
pub proof fn law_flags_are_set_by_a_word(word: &str, plain: &str)
    requires
        plain@ == "1"@ || plain@ == "true"@ || plain@ == "on"@ || plain@ == "yes"@,
        trimmed(word@).len() == plain@.len(),
        forall|i: int|
            0 <= i < plain@.len() ==> (#[trigger] trimmed(word@)[i] == plain@[i]) || (trimmed(
                word@,
            )[i] as u32 + 32 == plain@[i] as u32 && 'A' <= trimmed(word@)[i] <= 'Z'),
    ensures
        flag_set(Some(word)),
{
    let w = trimmed(word@);
    reveal_strlit("1");
    reveal_strlit("true");
    reveal_strlit("on");
    reveal_strlit("yes");
    assert forall|i: int| 0 <= i < w.len() implies folded(#[trigger] w[i]) == plain@[i] as u32 by {
        assert(w[i] == plain@[i] || (w[i] as u32 + 32 == plain@[i] as u32 && 'A' <= w[i] <= 'Z'));
        assert(!('A' <= plain@[i] <= 'Z'));
    }
    assert(same_ignoring_ascii_case(w, plain@));
}

/// A setting that is a number is that number, with white space around it or
/// not.
pub proof fn law_numbers_are_read_from_settings(word: &str)
    ensures
        number_in(None) is None,
        number_in(Some(word)) == parsed(trimmed(word@), usize::MAX as int),
{
}

// ---------------------------------------------------------------------------
// Scanners
// ---------------------------------------------------------------------------

/// Five scanners come with a part of the runtime that may be left out; all
/// others are always there.
pub proof fn law_features_bring_their_scanners(s: Scanner, f: Features)
    ensures
        f.unix && f.mod_dgram && f.dyn_eval && f.full && f.ohos_napi ==> is_compiled_in(s, f),
        !is_compiled_in(s, f) ==> {
            ||| s == Scanner::PtyReactor && !f.unix
            ||| s == Scanner::DgramReactor && !f.mod_dgram
            ||| s == Scanner::DynEval && !f.dyn_eval
            ||| s == Scanner::Plugin && !f.full
            ||| s == Scanner::ArktsCallbacks && !f.ohos_napi
        },
        !f.unix ==> !is_compiled_in(Scanner::PtyReactor, f),
        !f.mod_dgram ==> !is_compiled_in(Scanner::DgramReactor, f),
        !f.dyn_eval ==> !is_compiled_in(Scanner::DynEval, f),
        !f.full ==> !is_compiled_in(Scanner::Plugin, f),
        !f.ohos_napi ==> !is_compiled_in(Scanner::ArktsCallbacks, f),
{
}

/// The scanners of handles, temporary roots, promises, timers, side tables and
/// slots can run in steps; the handles are accounted for on their own. A
/// registration says so of its own scanner.
pub proof fn law_some_scanners_run_in_steps(s: Scanner)
    ensures
        registration_of(s).scanner == s,
        registration_of(s).mode == ScannerMode::Budgeted(MutableRootScannerSource::RuntimeHandles)
            <==> s == Scanner::RuntimeHandles,
        registration_of(s).mode == ScannerMode::Budgeted(
            MutableRootScannerSource::RuntimeMutableScanner,
        ) <==> {
            ||| s == Scanner::TempRoots
            ||| s == Scanner::Promise
            ||| s == Scanner::Timer
            ||| s == Scanner::ClassSideTable
            ||| s == Scanner::SymbolSideTable
            ||| s == Scanner::HookSlot
            ||| s == Scanner::StateSlot
        },
{
}

} // verus!
