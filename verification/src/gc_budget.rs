//! The budgeted cycle: a collection in bounded steps.
//!
//! A step first decides whether it may run and whether a cycle has to be
//! started for it; the caller then does the step's work and reports how far
//! it got.

use vstd::prelude::*;
use crate::gc_policy::{
    arena_finished, arena_growth_full_escalation_due, due, gc_blocked_by_unsafe_zone,
    gc_budgeted_due_trigger, gc_finish_arena_trigger_collection,
    gc_finish_malloc_trigger_collection, growth_due, malloc_finished, GcOutcome,
};
use crate::gc_types::{
    BudgetedGcCycle, BudgetedGcRebaseline, BudgetedGcTrigger, GcCollectionKind, GcConfig,
    GcProgressKind, GcState, GcTriggerKind, HeapReadings,
};

verus! {

/// No cycle is under way.
pub const JS_GC_STEP_STATUS_IDLE: u32 = 0;

/// A cycle is under way.
pub const JS_GC_STEP_STATUS_ACTIVE: u32 = 1;

/// The step has completed the cycle.
pub const JS_GC_STEP_STATUS_COMPLETED: u32 = 2;

/// The step could not run.
pub const JS_GC_STEP_STATUS_SKIPPED: u32 = 3;

/// What a host learns of a step.
#[derive(Clone, Copy, PartialEq, Eq, Structural, Debug)]
pub struct JsGcStepResult {
    pub status: u32,
    pub phase: u32,
    pub collection_kind: u32,
    pub trigger_kind: u32,
    pub active: u32,
    pub completed: u32,
    pub arena_debt_bytes: u64,
    pub malloc_debt_objects: u64,
    pub old_reclaim_debt_bytes: u64,
}

impl Default for JsGcStepResult {
    fn default() -> (r: JsGcStepResult)
        ensures
            r == (JsGcStepResult {
                status: 0,
                phase: 0,
                collection_kind: 0,
                trigger_kind: 0,
                active: 0,
                completed: 0,
                arena_debt_bytes: 0,
                malloc_debt_objects: 0,
                old_reclaim_debt_bytes: 0,
            }),
    {
        JsGcStepResult {
            status: 0,
            phase: 0,
            collection_kind: 0,
            trigger_kind: 0,
            active: 0,
            completed: 0,
            arena_debt_bytes: 0,
            malloc_debt_objects: 0,
            old_reclaim_debt_bytes: 0,
        }
    }
}

/// 1 for true, 0 for false.
pub open spec fn flag(b: bool) -> u32 {
    if b {
        1
    } else {
        0
    }
}

/// A result with the debt as it is read.
pub open spec fn result_of(
    heap: HeapReadings,
    status: u32,
    phase: u32,
    collection_kind: u32,
    trigger_kind: u32,
    active: bool,
    completed: bool,
) -> JsGcStepResult {
    JsGcStepResult {
        status,
        phase,
        collection_kind,
        trigger_kind,
        active: flag(active),
        completed: flag(completed),
        arena_debt_bytes: heap.debt.arena_debt_bytes,
        malloc_debt_objects: heap.debt.malloc_debt_objects,
        old_reclaim_debt_bytes: heap.debt.old_reclaim_debt_bytes,
    }
}

fn gc_step_result(
    heap: &HeapReadings,
    status: u32,
    phase: u32,
    collection_kind: u32,
    trigger_kind: u32,
    active: bool,
    completed: bool,
) -> (r: JsGcStepResult)
    ensures
        r == result_of(
            *heap,
            status,
            phase,
            collection_kind,
            trigger_kind,
            active,
            completed,
        ),
{
    JsGcStepResult {
        status,
        phase,
        collection_kind,
        trigger_kind,
        active: if active {
            1
        } else {
            0
        },
        completed: if completed {
            1
        } else {
            0
        },
        arena_debt_bytes: heap.debt.arena_debt_bytes,
        malloc_debt_objects: heap.debt.malloc_debt_objects,
        old_reclaim_debt_bytes: heap.debt.old_reclaim_debt_bytes,
    }
}

/// The result while no cycle is under way.
pub open spec fn idle_result(heap: HeapReadings) -> JsGcStepResult {
    result_of(heap, JS_GC_STEP_STATUS_IDLE, 0, 0, 0, false, false)
}

/// The result for a cycle under way.
pub open spec fn cycle_result(
    heap: HeapReadings,
    status: u32,
    cycle: BudgetedGcCycle,
) -> JsGcStepResult {
    result_of(
        heap,
        status,
        cycle.phase,
        cycle.collection_kind.code(),
        cycle.trigger_kind.code(),
        true,
        false,
    )
}

/// The status: of the cycle under way, or idle.
pub open spec fn status_result(s: GcState, heap: HeapReadings) -> JsGcStepResult {
    match s.cycle {
        Some(cycle) => if s.cycle_active {
            cycle_result(heap, JS_GC_STEP_STATUS_ACTIVE, cycle)
        } else {
            idle_result(heap)
        },
        None => idle_result(heap),
    }
}

/// The result of a step that could not run.
pub open spec fn skipped_result(s: GcState, heap: HeapReadings) -> JsGcStepResult {
    match s.cycle {
        Some(cycle) => if s.cycle_active {
            cycle_result(heap, JS_GC_STEP_STATUS_SKIPPED, cycle)
        } else {
            result_of(heap, JS_GC_STEP_STATUS_SKIPPED, 0, 0, 0, false, false)
        },
        None => result_of(heap, JS_GC_STEP_STATUS_SKIPPED, 0, 0, 0, false, false),
    }
}

fn gc_cycle_step_result(heap: &HeapReadings, status: u32, cycle: &BudgetedGcCycle) -> (r:
    JsGcStepResult)
    ensures
        r == cycle_result(*heap, status, *cycle),
{
    gc_step_result(
        heap,
        status,
        cycle.phase,
        cycle.collection_kind.ffi_code(),
        cycle.trigger_kind.ffi_code(),
        true,
        false,
    )
}

/// The status of the budgeted cycle. A cycle that is marked as under way but
/// is not there is no longer marked so.
pub fn gc_budgeted_status_result(s: &mut GcState, heap: &HeapReadings) -> (r: JsGcStepResult)
    ensures
        r == status_result(*old(s), *heap),
        *final(s) == (GcState {
            cycle_active: old(s).cycle_active && old(s).cycle is Some,
            ..*old(s)
        }),
{
    if s.cycle_active {
        if let Some(cycle) = s.cycle {
            return gc_cycle_step_result(heap, JS_GC_STEP_STATUS_ACTIVE, &cycle);
        }
        s.cycle_active = false;
    }
    gc_step_result(heap, JS_GC_STEP_STATUS_IDLE, 0, 0, 0, false, false)
}

fn gc_budgeted_skipped_result(s: &GcState, heap: &HeapReadings) -> (r: JsGcStepResult)
    ensures
        r == skipped_result(*s, *heap),
{
    if s.cycle_active {
        if let Some(cycle) = s.cycle {
            return gc_cycle_step_result(heap, JS_GC_STEP_STATUS_SKIPPED, &cycle);
        }
    }
    gc_step_result(heap, JS_GC_STEP_STATUS_SKIPPED, 0, 0, 0, false, false)
}

// ---------------------------------------------------------------------------
// Starting a cycle
// ---------------------------------------------------------------------------

/// Why a cycle moves nothing, where it does not.
#[derive(Clone, Copy, PartialEq, Eq, Structural, Debug)]
pub enum EvacuationReason {
    /// Moving is switched off.
    Disabled,
    /// The cycle runs in short steps, and those do not move.
    LowPauseNonMoving,
}

/// How a minor collection treats the objects that survive.
#[derive(Clone, Copy, PartialEq, Eq, Structural, Debug)]
pub struct MinorPlan {
    /// Objects may be moved.
    pub evacuation_allowed: bool,
    /// Objects are moved whether or not it pays.
    pub force_evacuation: bool,
    /// The reason to give where objects are not moved.
    pub disabled_reason: EvacuationReason,
    /// Old pages are selected to be defragmented.
    pub select_old_pages: bool,
}

/// Moving is forced: by setting, by zeal, or by a schedule; but never where
/// it is switched off.
pub open spec fn forces_evacuation(cfg: GcConfig, schedule_on: bool) -> bool {
    cfg.evacuate && (cfg.zeal || schedule_on || cfg.force_evacuate)
}

/// Is moving forced?
pub fn gc_force_evacuate_enabled(cfg: &GcConfig, schedule_on: bool) -> (r: bool)
    ensures
        r == forces_evacuation(*cfg, schedule_on),
{
    cfg.evacuate && (cfg.zeal || schedule_on || cfg.force_evacuate)
}

/// The plan of a minor collection.
pub open spec fn minor_plan(
    cfg: GcConfig,
    heap: HeapReadings,
    schedule_on: bool,
    low_pause: bool,
) -> MinorPlan {
    let allowed = !low_pause && cfg.evacuate;
    MinorPlan {
        evacuation_allowed: allowed,
        force_evacuation: !low_pause && forces_evacuation(cfg, schedule_on),
        disabled_reason: if low_pause {
            EvacuationReason::LowPauseNonMoving
        } else {
            EvacuationReason::Disabled
        },
        select_old_pages: allowed && heap.tracking_complete,
    }
}

/// Plan a minor collection.
pub fn plan_minor(
    cfg: &GcConfig,
    heap: &HeapReadings,
    schedule_on: bool,
    low_pause: bool,
) -> (p: MinorPlan)
    ensures
        p == minor_plan(*cfg, *heap, schedule_on, low_pause),
{
    let evacuation_allowed: bool = !low_pause && cfg.evacuate;
    MinorPlan {
        evacuation_allowed,
        force_evacuation: !low_pause && gc_force_evacuate_enabled(cfg, schedule_on),
        disabled_reason: if low_pause {
            EvacuationReason::LowPauseNonMoving
        } else {
            EvacuationReason::Disabled
        },
        select_old_pages: evacuation_allowed && heap.tracking_complete,
    }
}

/// A cycle to be set up.
#[derive(Clone, Copy, PartialEq, Eq, Structural, Debug)]
pub enum CycleStart {
    /// A full one.
    Full { trigger_kind: GcTriggerKind, progress: GcProgressKind },
    /// A minor one, with the state of the allocation flag to restore when it
    /// is over.
    Minor {
        trigger_kind: GcTriggerKind,
        progress: GcProgressKind,
        prev_in_alloc: bool,
        plan: MinorPlan,
    },
}

/// Starting a cycle: the state after it, what is to be set up, and the cycle.
pub ghost struct StartStep {
    pub state: GcState,
    pub start: CycleStart,
    pub cycle: BudgetedGcCycle,
}

/// The trigger of a budgeted cycle.
pub open spec fn cycle_trigger(d: BudgetedGcTrigger) -> GcTriggerKind {
    match d {
        BudgetedGcTrigger::OldReclaim => GcTriggerKind::OldGenBytes,
        BudgetedGcTrigger::ArenaBytes => GcTriggerKind::ArenaBytes,
        BudgetedGcTrigger::MallocCount => GcTriggerKind::MallocCount,
    }
}

/// How the triggers are set anew after it.
pub open spec fn cycle_rebaseline(d: BudgetedGcTrigger, heap: HeapReadings) -> BudgetedGcRebaseline {
    match d {
        BudgetedGcTrigger::OldReclaim => BudgetedGcRebaseline::OldReclaim,
        BudgetedGcTrigger::ArenaBytes => BudgetedGcRebaseline::ArenaBytes {
            pre_in_use: heap.arena_in_use,
        },
        BudgetedGcTrigger::MallocCount => BudgetedGcRebaseline::MallocCount {
            pre_count: heap.malloc_count,
        },
    }
}

/// A cycle for this pressure is a minor one.
pub open spec fn starts_minor(
    s: GcState,
    cfg: GcConfig,
    heap: HeapReadings,
    d: BudgetedGcTrigger,
) -> bool {
    d != BudgetedGcTrigger::OldReclaim && cfg.gen_gc && !growth_due(s, cfg, heap)
}

/// Starting a cycle for the pressure that is due.
pub open spec fn started(
    s: GcState,
    cfg: GcConfig,
    heap: HeapReadings,
    schedule_on: bool,
    progress: GcProgressKind,
    d: BudgetedGcTrigger,
) -> StartStep {
    let minor = starts_minor(s, cfg, heap, d);
    StartStep {
        state: if minor {
            GcState { in_alloc: true, ..pressure_taken(s, d) }
        } else {
            pressure_taken(s, d)
        },
        start: if minor {
            CycleStart::Minor {
                trigger_kind: cycle_trigger(d),
                progress,
                prev_in_alloc: s.in_alloc,
                plan: minor_plan(cfg, heap, schedule_on, progress.budgeted()),
            }
        } else {
            CycleStart::Full { trigger_kind: cycle_trigger(d), progress }
        },
        cycle: BudgetedGcCycle {
            phase: 0,
            trigger_kind: cycle_trigger(d),
            collection_kind: if minor {
                GcCollectionKind::Minor
            } else {
                GcCollectionKind::Full
            },
            rebaseline: cycle_rebaseline(d, heap),
        },
    }
}

/// Set a full cycle up.
pub fn gc_start_budgeted_full_cycle(
    trigger_kind: GcTriggerKind,
    rebaseline: BudgetedGcRebaseline,
    progress_kind: GcProgressKind,
) -> (r: (CycleStart, BudgetedGcCycle))
    ensures
        r.0 == (CycleStart::Full { trigger_kind, progress: progress_kind }),
        r.1 == (BudgetedGcCycle {
            phase: 0,
            trigger_kind,
            collection_kind: GcCollectionKind::Full,
            rebaseline,
        }),
{
    (
        CycleStart::Full { trigger_kind, progress: progress_kind },
        BudgetedGcCycle {
            phase: 0,
            trigger_kind,
            collection_kind: GcCollectionKind::Full,
            rebaseline,
        },
    )
}

/// Set a minor cycle up. The allocation flag is set for as long as it lasts,
/// and objects are moved only where it does not run in short steps.
pub fn gc_start_budgeted_minor_fallback_cycle_with_snapshot(
    s: &mut GcState,
    cfg: &GcConfig,
    heap: &HeapReadings,
    schedule_on: bool,
    trigger_kind: GcTriggerKind,
    rebaseline: BudgetedGcRebaseline,
    progress_kind: GcProgressKind,
) -> (r: (CycleStart, BudgetedGcCycle))
    ensures
        *final(s) == (GcState { in_alloc: true, ..*old(s) }),
        r.0 == (CycleStart::Minor {
            trigger_kind,
            progress: progress_kind,
            prev_in_alloc: old(s).in_alloc,
            plan: minor_plan(*cfg, *heap, schedule_on, progress_kind.budgeted()),
        }),
        r.1 == (BudgetedGcCycle {
            phase: 0,
            trigger_kind,
            collection_kind: GcCollectionKind::Minor,
            rebaseline,
        }),
{
    let prev_in_alloc: bool = s.in_alloc;
    s.in_alloc = true;
    let low_pause_non_moving: bool = progress_kind.is_budgeted();
    let plan: MinorPlan = plan_minor(cfg, heap, schedule_on, low_pause_non_moving);
    (
        CycleStart::Minor { trigger_kind, progress: progress_kind, prev_in_alloc, plan },
        BudgetedGcCycle {
            phase: 0,
            trigger_kind,
            collection_kind: GcCollectionKind::Minor,
            rebaseline,
        },
    )
}

/// Larger parses may raise the trigger again, and old bytes are no longer
/// pending where they are what is due.
pub open spec fn pressure_taken(s: GcState, d: BudgetedGcTrigger) -> GcState {
    GcState {
        trigger_bumped: false,
        old_reclaim_pending: s.old_reclaim_pending && d != BudgetedGcTrigger::OldReclaim,
        ..s
    }
}

fn take_pressure(s: &mut GcState, d: BudgetedGcTrigger)
    ensures
        *final(s) == pressure_taken(*old(s), d),
{
    *s = GcState {
        trigger_bumped: false,
        old_reclaim_pending: s.old_reclaim_pending && d != BudgetedGcTrigger::OldReclaim,
        ..*s
    };
}

/// Start a cycle for the pressure that is due.
pub fn gc_start_budgeted_cycle_for_pressure(
    s: &mut GcState,
    cfg: &GcConfig,
    heap: &HeapReadings,
    schedule_on: bool,
    progress_kind: GcProgressKind,
) -> (r: Option<(CycleStart, BudgetedGcCycle)>)
    ensures
        match due(*old(s), *cfg, *heap) {
            None => r is None && *final(s) == *old(s),
            Some(d) => {
                let step = started(*old(s), *cfg, *heap, schedule_on, progress_kind, d);
                r == Some((step.start, step.cycle)) && *final(s) == step.state
            },
        },
{
    let d: BudgetedGcTrigger = match gc_budgeted_due_trigger(s, cfg, heap) {
        None => return None,
        Some(d) => d,
    };
    let escalate: bool = !cfg.gen_gc || arena_growth_full_escalation_due(s, cfg, heap);
    take_pressure(s, d);
    let (trigger_kind, rebaseline): (GcTriggerKind, BudgetedGcRebaseline) = match d {
        BudgetedGcTrigger::OldReclaim => (
            GcTriggerKind::OldGenBytes,
            BudgetedGcRebaseline::OldReclaim,
        ),
        BudgetedGcTrigger::ArenaBytes => (
            GcTriggerKind::ArenaBytes,
            BudgetedGcRebaseline::ArenaBytes { pre_in_use: heap.arena_in_use },
        ),
        BudgetedGcTrigger::MallocCount => (
            GcTriggerKind::MallocCount,
            BudgetedGcRebaseline::MallocCount { pre_count: heap.malloc_count },
        ),
    };
    if d == BudgetedGcTrigger::OldReclaim || escalate {
        Some(gc_start_budgeted_full_cycle(trigger_kind, rebaseline, progress_kind))
    } else {
        Some(
            gc_start_budgeted_minor_fallback_cycle_with_snapshot(
                s,
                cfg,
                heap,
                schedule_on,
                trigger_kind,
                rebaseline,
                progress_kind,
            ),
        )
    }
}

// ---------------------------------------------------------------------------
// Stepping
// ---------------------------------------------------------------------------

impl GcState {
    /// A step of a new cycle is under way.
    pub open spec fn cycle_entered(self, cycle: BudgetedGcCycle) -> GcState {
        GcState { cycle: Some(cycle), cycle_active: true, step_active: true, ..self }
    }

    /// No cycle is under way, and no step.
    pub open spec fn cycle_closed(self) -> GcState {
        GcState { cycle: None, cycle_active: false, step_active: false, ..self }
    }
}

fn enter_cycle(s: &mut GcState, cycle: BudgetedGcCycle)
    ensures
        *final(s) == old(s).cycle_entered(cycle),
{
    *s = GcState { cycle: Some(cycle), cycle_active: true, step_active: true, ..*s };
}

fn close_cycle(s: &mut GcState)
    ensures
        *final(s) == old(s).cycle_closed(),
        final(s).well_formed() == old(s).well_formed(),
{
    *s = GcState { cycle: None, cycle_active: false, step_active: false, ..*s };
}

/// No cycle may start here.
pub open spec fn start_blocked(s: GcState, heap: HeapReadings) -> bool {
    s.in_alloc || resume_blocked(s, heap)
}

/// No cycle may go on here.
pub open spec fn resume_blocked(s: GcState, heap: HeapReadings) -> bool {
    s.suppressed || s.in_unsafe_zone() || s.root_lock_depth != 0 || heap.scanners_block_budgeted
}

fn gc_budgeted_resume_blocked(s: &GcState, heap: &HeapReadings) -> (r: bool)
    ensures
        r == resume_blocked(*s, *heap),
{
    s.suppressed || gc_blocked_by_unsafe_zone(s) || s.root_lock_depth != 0
        || heap.scanners_block_budgeted
}

fn gc_budgeted_start_blocked(s: &GcState, heap: &HeapReadings) -> (r: bool)
    ensures
        r == start_blocked(*s, *heap),
{
    s.in_alloc || gc_budgeted_resume_blocked(s, heap)
}

/// What a step does.
#[derive(Clone, Copy, PartialEq, Eq, Structural, Debug)]
pub enum StepPlan {
    /// Nothing: this is its result.
    Done(JsGcStepResult),
    /// The work of the cycle under way, which is to be set up first where
    /// `start` says so. `end_step` follows it.
    Run { start: Option<CycleStart>, work_units: usize },
}

/// Planning a step: the state after it, and the plan.
pub ghost struct PlanStep {
    pub state: GcState,
    pub plan: StepPlan,
}

/// The plan of a step. Without work units it only asks for the status; inside
/// another step it is skipped; without a cycle one is started where pressure
/// is due and nothing blocks it.
pub open spec fn step_planned(
    s: GcState,
    cfg: GcConfig,
    heap: HeapReadings,
    schedule_on: bool,
    work_units: usize,
    progress: GcProgressKind,
) -> PlanStep {
    if work_units == 0 {
        PlanStep {
            state: GcState { cycle_active: s.cycle_active && s.cycle is Some, ..s },
            plan: StepPlan::Done(status_result(s, heap)),
        }
    } else if s.step_active {
        PlanStep { state: s, plan: StepPlan::Done(skipped_result(s, heap)) }
    } else if !s.cycle_active {
        match due(s, cfg, heap) {
            None => PlanStep { state: s, plan: StepPlan::Done(idle_result(heap)) },
            Some(d) => if start_blocked(s, heap) {
                PlanStep { state: s, plan: StepPlan::Done(skipped_result(s, heap)) }
            } else {
                let step = started(s, cfg, heap, schedule_on, progress, d);
                PlanStep {
                    state: step.state.cycle_entered(step.cycle),
                    plan: StepPlan::Run { start: Some(step.start), work_units },
                }
            },
        }
    } else if resume_blocked(s, heap) {
        PlanStep { state: s, plan: StepPlan::Done(skipped_result(s, heap)) }
    } else if s.cycle is None {
        PlanStep {
            state: GcState { cycle_active: false, ..s },
            plan: StepPlan::Done(idle_result(heap)),
        }
    } else {
        PlanStep {
            state: GcState { step_active: true, ..s },
            plan: StepPlan::Run { start: None, work_units },
        }
    }
}

/// Plan a step of the budgeted cycle.
pub fn gc_budgeted_step_work_units_inner_with_progress(
    s: &mut GcState,
    cfg: &GcConfig,
    heap: &HeapReadings,
    schedule_on: bool,
    work_units: usize,
    start_progress_kind: GcProgressKind,
) -> (plan: StepPlan)
    ensures
        (PlanStep { state: *final(s), plan }) == step_planned(
            *old(s),
            *cfg,
            *heap,
            schedule_on,
            work_units,
            start_progress_kind,
        ),
{
    if work_units == 0 {
        return StepPlan::Done(gc_budgeted_status_result(s, heap));
    }
    if s.step_active {
        return StepPlan::Done(gc_budgeted_skipped_result(s, heap));
    }
    if !s.cycle_active {
        if gc_budgeted_due_trigger(s, cfg, heap).is_none() {
            return StepPlan::Done(
                gc_step_result(heap, JS_GC_STEP_STATUS_IDLE, 0, 0, 0, false, false),
            );
        }
        if gc_budgeted_start_blocked(s, heap) {
            return StepPlan::Done(gc_budgeted_skipped_result(s, heap));
        }
        return match gc_start_budgeted_cycle_for_pressure(
            s,
            cfg,
            heap,
            schedule_on,
            start_progress_kind,
        ) {
            Some((start, cycle)) => {
                enter_cycle(s, cycle);
                StepPlan::Run { start: Some(start), work_units }
            },
            None => StepPlan::Done(
                gc_step_result(heap, JS_GC_STEP_STATUS_IDLE, 0, 0, 0, false, false),
            ),
        };
    }
    if gc_budgeted_resume_blocked(s, heap) {
        return StepPlan::Done(gc_budgeted_skipped_result(s, heap));
    }
    if s.cycle.is_none() {
        s.cycle_active = false;
        return StepPlan::Done(
            gc_step_result(heap, JS_GC_STEP_STATUS_IDLE, 0, 0, 0, false, false),
        );
    }
    s.step_active = true;
    StepPlan::Run { start: None, work_units }
}

/// How far a step got.
#[derive(Clone, Copy, PartialEq, Eq, Structural, Debug)]
pub enum StepOutcome {
    /// The cycle goes on, in this phase.
    Ongoing { phase: u32 },
    /// The cycle is complete.
    Completed(GcOutcome),
}

/// The triggers set anew after a cycle.
pub open spec fn rebased(
    s: GcState,
    cfg: GcConfig,
    rebaseline: BudgetedGcRebaseline,
    outcome: GcOutcome,
    heap: HeapReadings,
) -> GcState {
    match rebaseline {
        BudgetedGcRebaseline::ArenaBytes { pre_in_use } => arena_finished(
            s,
            cfg,
            pre_in_use,
            outcome,
            heap,
        ),
        BudgetedGcRebaseline::MallocCount { pre_count } => malloc_finished(
            s,
            pre_count,
            outcome,
            heap,
        ),
        BudgetedGcRebaseline::OldReclaim => s,
    }
}

/// The state after a cycle is complete.
pub open spec fn cycle_finished(
    s: GcState,
    cfg: GcConfig,
    cycle: BudgetedGcCycle,
    outcome: GcOutcome,
    heap: HeapReadings,
) -> GcState {
    rebased(s, cfg, cycle.rebaseline, outcome, heap).cycle_closed()
}

/// The result of the step that completes a cycle. `complete_phase` is the
/// number of the last phase.
pub open spec fn completed_result(
    heap: HeapReadings,
    cycle: BudgetedGcCycle,
    complete_phase: u32,
) -> JsGcStepResult {
    result_of(
        heap,
        JS_GC_STEP_STATUS_COMPLETED,
        complete_phase,
        cycle.collection_kind.code(),
        cycle.trigger_kind.code(),
        false,
        true,
    )
}

fn rebase(
    s: &mut GcState,
    cfg: &GcConfig,
    rebaseline: BudgetedGcRebaseline,
    outcome: GcOutcome,
    heap: &HeapReadings,
)
    requires
        old(s).well_formed(),
        heap.countable(),
    ensures
        *final(s) == rebased(*old(s), *cfg, rebaseline, outcome, *heap),
        final(s).well_formed(),
{
    match rebaseline {
        BudgetedGcRebaseline::ArenaBytes { pre_in_use } => {
            gc_finish_arena_trigger_collection(s, cfg, pre_in_use, outcome, heap);
        },
        BudgetedGcRebaseline::MallocCount { pre_count } => {
            gc_finish_malloc_trigger_collection(s, pre_count, outcome, heap);
        },
        BudgetedGcRebaseline::OldReclaim => {},
    }
}

fn gc_finish_budgeted_cycle(
    s: &mut GcState,
    cfg: &GcConfig,
    cycle: BudgetedGcCycle,
    outcome: GcOutcome,
    heap: &HeapReadings,
    complete_phase: u32,
) -> (r: JsGcStepResult)
    requires
        old(s).well_formed(),
        heap.countable(),
    ensures
        *final(s) == cycle_finished(*old(s), *cfg, cycle, outcome, *heap),
        r == completed_result(*heap, cycle, complete_phase),
        final(s).well_formed(),
{
    rebase(s, cfg, cycle.rebaseline, outcome, heap);
    close_cycle(s);
    gc_step_result(
        heap,
        JS_GC_STEP_STATUS_COMPLETED,
        complete_phase,
        cycle.collection_kind.ffi_code(),
        cycle.trigger_kind.ffi_code(),
        false,
        true,
    )
}

/// The work of a step is done; `heap` is read after it.
pub fn end_step(
    s: &mut GcState,
    cfg: &GcConfig,
    heap: &HeapReadings,
    outcome: StepOutcome,
    complete_phase: u32,
) -> (r: JsGcStepResult)
    requires
        old(s).well_formed(),
        heap.countable(),
        old(s).cycle is Some,
        old(s).cycle_active,
    ensures
        final(s).well_formed(),
        match outcome {
            StepOutcome::Ongoing { phase } => {
                let cycle = BudgetedGcCycle { phase, ..old(s).cycle->0 };
                &&& *final(s) == (GcState { cycle: Some(cycle), step_active: false, ..*old(s) })
                &&& r == cycle_result(*heap, JS_GC_STEP_STATUS_ACTIVE, cycle)
            },
            StepOutcome::Completed(o) => {
                &&& *final(s) == cycle_finished(*old(s), *cfg, old(s).cycle->0, o, *heap)
                &&& r == completed_result(*heap, old(s).cycle->0, complete_phase)
            },
        },
{
    let cycle: BudgetedGcCycle = match s.cycle {
        Some(cycle) => cycle,
        None => return gc_step_result(heap, JS_GC_STEP_STATUS_IDLE, 0, 0, 0, false, false),
    };
    match outcome {
        StepOutcome::Ongoing { phase } => {
            let cycle: BudgetedGcCycle = BudgetedGcCycle { phase, ..cycle };
            *s = GcState { cycle: Some(cycle), step_active: false, ..*s };
            gc_cycle_step_result(heap, JS_GC_STEP_STATUS_ACTIVE, &cycle)
        },
        StepOutcome::Completed(o) => gc_finish_budgeted_cycle(
            s,
            cfg,
            cycle,
            o,
            heap,
            complete_phase,
        ),
    }
}

// ---------------------------------------------------------------------------
// Entry points
// ---------------------------------------------------------------------------

/// A step of so many work units, asked for by the host.
pub fn js_gc_step_work_units(
    s: &mut GcState,
    cfg: &GcConfig,
    heap: &HeapReadings,
    schedule_on: bool,
    work_units: u64,
) -> (plan: StepPlan)
    ensures
        (PlanStep { state: *final(s), plan }) == step_planned(
            *old(s),
            *cfg,
            *heap,
            schedule_on,
            if work_units > usize::MAX {
                usize::MAX
            } else {
                work_units as usize
            },
            GcProgressKind::NormalIncremental,
        ),
{
    let units: usize = if work_units > usize::MAX as u64 {
        usize::MAX
    } else {
        work_units as usize
    };
    gc_budgeted_step_work_units_inner_with_progress(
        s,
        cfg,
        heap,
        schedule_on,
        units,
        GcProgressKind::NormalIncremental,
    )
}

/// How many work units the first step takes under a time budget: none where
/// the budget is none, which only asks for the status.
pub fn js_gc_step_us_units(budget_us: u64) -> (n: usize)
    ensures
        n == if budget_us == 0 {
            0usize
        } else {
            1
        },
{
    if budget_us == 0 {
        0
    } else {
        1
    }
}

/// Does a host that steps under a time budget take another step? As long as
/// the cycle goes on and there is time left.
pub fn js_gc_step_us_continues(result: &JsGcStepResult, elapsed_us: u128, budget_us: u64) -> (r:
    bool)
    ensures
        r == (result.status == JS_GC_STEP_STATUS_ACTIVE && budget_us > 0 && elapsed_us < budget_us),
{
    result.status == JS_GC_STEP_STATUS_ACTIVE && budget_us > 0 && elapsed_us < budget_us as u128
}

/// The status of the budgeted cycle, for the host.
pub fn js_gc_step_status(s: &mut GcState, heap: &HeapReadings) -> (r: JsGcStepResult)
    ensures
        r == status_result(*old(s), *heap),
        *final(s) == (GcState {
            cycle_active: old(s).cycle_active && old(s).cycle is Some,
            ..*old(s)
        }),
{
    gc_budgeted_status_result(s, heap)
}

/// A runtime safepoint: a step of the size that the settings give, or only
/// the status where they give none.
pub fn gc_runtime_safepoint(
    s: &mut GcState,
    cfg: &GcConfig,
    heap: &HeapReadings,
    schedule_on: bool,
) -> (plan: StepPlan)
    ensures
        (PlanStep { state: *final(s), plan }) == step_planned(
            *old(s),
            *cfg,
            *heap,
            schedule_on,
            match cfg.safepoint_work_units {
                Some(n) => n,
                None => 0,
            },
            GcProgressKind::NormalIncremental,
        ),
{
    let units: usize = match cfg.safepoint_work_units {
        Some(n) => n,
        None => 0,
    };
    gc_budgeted_step_work_units_inner_with_progress(
        s,
        cfg,
        heap,
        schedule_on,
        units,
        GcProgressKind::NormalIncremental,
    )
}

/// A runtime safepoint, for the host.
pub fn js_gc_safepoint(
    s: &mut GcState,
    cfg: &GcConfig,
    heap: &HeapReadings,
    schedule_on: bool,
) -> (plan: StepPlan)
    ensures
        (PlanStep { state: *final(s), plan }) == step_planned(
            *old(s),
            *cfg,
            *heap,
            schedule_on,
            match cfg.safepoint_work_units {
                Some(n) => n,
                None => 0,
            },
            GcProgressKind::NormalIncremental,
        ),
{
    gc_runtime_safepoint(s, cfg, heap, schedule_on)
}

/// How often a parked cycle is stepped before a synchronous collection gives
/// up on it.
pub const MAX_DRAIN_STEPS: u32 = 64;

/// What happens to a parked cycle before a synchronous collection.
#[derive(Clone, Copy, PartialEq, Eq, Structural, Debug)]
pub enum Drain {
    /// There is none, or it is complete.
    Drained,
    /// Take one more step, as large as can be.
    Step,
    /// It cannot be completed.
    GivenUp,
}

/// What happens to a parked cycle next, after `taken` steps of which the last
/// had status `last_status`.
pub open spec fn drain_next(s: GcState, taken: u32, last_status: u32) -> Drain {
    if !s.cycle_active {
        Drain::Drained
    } else if taken >= MAX_DRAIN_STEPS || (taken > 0 && last_status == JS_GC_STEP_STATUS_SKIPPED) {
        Drain::GivenUp
    } else {
        Drain::Step
    }
}

/// What happens to a parked cycle next?
pub fn gc_drain_active_budgeted_cycle(s: &GcState, taken: u32, last_status: u32) -> (d: Drain)
    ensures
        d == drain_next(*s, taken, last_status),
{
    if !s.cycle_active {
        return Drain::Drained;
    }
    if taken >= MAX_DRAIN_STEPS || (taken > 0 && last_status == JS_GC_STEP_STATUS_SKIPPED) {
        return Drain::GivenUp;
    }
    Drain::Step
}

// ---------------------------------------------------------------------------
// Laws
// ---------------------------------------------------------------------------

/// A step inside another one is skipped and changes nothing.
pub proof fn law_steps_do_not_nest(
    s: GcState,
    cfg: GcConfig,
    heap: HeapReadings,
    schedule_on: bool,
    work_units: usize,
    progress: GcProgressKind,
)
    requires
        s.step_active,
        work_units > 0,
    ensures
        ({
            let p = step_planned(s, cfg, heap, schedule_on, work_units, progress);
            p.state == s && p.plan is Done && p.plan->Done_0.status == JS_GC_STEP_STATUS_SKIPPED
        }),
{
}

/// Asking for the status never starts a cycle, never steps one, and a second
/// time gives the same answer.
pub proof fn law_status_is_harmless(
    s: GcState,
    cfg: GcConfig,
    heap: HeapReadings,
    schedule_on: bool,
    progress: GcProgressKind,
)
    ensures
        ({
            let p = step_planned(s, cfg, heap, schedule_on, 0, progress);
            &&& p.plan == StepPlan::Done(status_result(s, heap))
            &&& step_planned(p.state, cfg, heap, schedule_on, 0, progress) == p
        }),
{
}

/// A step that runs has a cycle to run, marked as under way, and blocks other
/// steps until it ends.
pub proof fn law_running_steps_have_a_cycle(
    s: GcState,
    cfg: GcConfig,
    heap: HeapReadings,
    schedule_on: bool,
    work_units: usize,
    progress: GcProgressKind,
)
    requires
        step_planned(s, cfg, heap, schedule_on, work_units, progress).plan is Run,
    ensures
        ({
            let after = step_planned(s, cfg, heap, schedule_on, work_units, progress).state;
            after.cycle is Some && after.cycle_active && after.step_active
        }),
{
}

/// Blocked pressure starts no cycle: the step is skipped.
pub proof fn law_blocked_steps_are_skipped(
    s: GcState,
    cfg: GcConfig,
    heap: HeapReadings,
    schedule_on: bool,
    work_units: usize,
    progress: GcProgressKind,
)
    requires
        work_units > 0,
        resume_blocked(s, heap),
        s.cycle_active || due(s, cfg, heap) is Some,
    ensures
        ({
            let p = step_planned(s, cfg, heap, schedule_on, work_units, progress);
            p.state == s && p.plan == StepPlan::Done(skipped_result(s, heap))
        }),
{
}

/// A completed cycle leaves none behind, and the next step may run.
pub proof fn law_completed_cycles_are_gone(
    s: GcState,
    cfg: GcConfig,
    cycle: BudgetedGcCycle,
    outcome: GcOutcome,
    heap: HeapReadings,
)
    ensures
        ({
            let after = cycle_finished(s, cfg, cycle, outcome, heap);
            after.cycle is None && !after.cycle_active && !after.step_active
        }),
{
}

/// Bounded steps never move objects.
pub proof fn law_budgeted_cycles_do_not_move(
    s: GcState,
    cfg: GcConfig,
    heap: HeapReadings,
    schedule_on: bool,
    progress: GcProgressKind,
    d: BudgetedGcTrigger,
)
    requires
        progress.budgeted(),
    ensures
        started(s, cfg, heap, schedule_on, progress, d).start matches CycleStart::Minor {
            plan,
            ..
        } ==> !plan.evacuation_allowed && !plan.force_evacuation && !plan.select_old_pages,
{
}

/// A schedule forces moving, unless moving is switched off; without one
/// nothing about moving changes.
pub proof fn law_schedule_implies_forced_evacuation(cfg: GcConfig)
    ensures
        cfg.evacuate ==> forces_evacuation(cfg, true),
        !cfg.evacuate ==> !forces_evacuation(cfg, true),
        forces_evacuation(cfg, false) == (cfg.evacuate && (cfg.zeal || cfg.force_evacuate)),
{
}

/// The drain takes no more than its share of steps.
pub proof fn law_drain_is_bounded(s: GcState, taken: u32, last_status: u32)
    ensures
        drain_next(s, taken, last_status) == Drain::Step ==> taken < MAX_DRAIN_STEPS,
{
}

} // verus!
