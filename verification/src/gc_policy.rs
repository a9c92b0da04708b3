//! When to collect.
//!
//! Collections are triggered by arena bytes, by the number of objects outside
//! the arena, and by old bytes. The functions here look at the readings of
//! the heap, keep the collector's state, and say what has to be done next;
//! the collections themselves are run by their caller, who reports back.

use vstd::prelude::*;
use crate::gc_types::{
    capped_product, greatest, greatest_of, least, least_of, saturating_product, BudgetedGcTrigger,
    DeferredGcRequest, GcConfig, GcState, GcTriggerKind, HeapReadings, GC_EXTERNAL_SIDE_ALLOC_STEP,
    GC_MALLOC_COUNT_STEP_MAX, GC_MALLOC_COUNT_STEP_MIN, GC_STEP_FLOOR_BYTES,
    GC_SUPPRESSED_TINY_PARSE_BYTES, GC_THRESHOLD_MAX_BYTES,
};
use crate::schedule::{
    gc_schedule_enabled, note_schedule_forced_collection, schedule_tick, shown, GcSchedule,
};

verus! {

// ---------------------------------------------------------------------------
// What is due
// ---------------------------------------------------------------------------

/// The arena bytes at which a collection is due. A figure that was set on
/// purpose stands; the initial one is capped by the device's ceiling. Where
/// minor collections are cheap the nursery is capped too.
pub open spec fn arena_trigger(s: GcState, cfg: GcConfig) -> usize {
    let base = if s.trigger_armed {
        s.next_trigger
    } else {
        least(s.next_trigger, cfg.trigger_ceiling)
    };
    if cfg.scavenge || cfg.moving_loop_polls {
        least(base, cfg.nursery_cap)
    } else {
        base
    }
}

/// The arena bytes at which a collection is due.
pub fn effective_next_arena_trigger(s: &GcState, cfg: &GcConfig) -> (t: usize)
    ensures
        t == arena_trigger(*s, *cfg),
{
    let base: usize = if s.trigger_armed {
        s.next_trigger
    } else {
        least_of(s.next_trigger, cfg.trigger_ceiling)
    };
    if cfg.scavenge || cfg.moving_loop_polls {
        least_of(base, cfg.nursery_cap)
    } else {
        base
    }
}

/// Old bytes have crossed the threshold since the last reclaim, or have grown
/// enough since then.
pub open spec fn old_pressure(cfg: GcConfig, old_in_use: usize, baseline: usize) -> bool {
    ||| baseline < cfg.old_reclaim_threshold <= old_in_use
    ||| old_in_use.saturating_sub(baseline) >= cfg.old_reclaim_growth
}

/// Are old bytes to be reclaimed?
pub fn old_reclaim_pressure_due(cfg: &GcConfig, old_in_use: usize, baseline: usize) -> (r: bool)
    ensures
        r == old_pressure(*cfg, old_in_use, baseline),
{
    (old_in_use >= cfg.old_reclaim_threshold && baseline < cfg.old_reclaim_threshold)
        || old_in_use.saturating_sub(baseline) >= cfg.old_reclaim_growth
}

/// Old bytes in use, side buffers included: a dead buffer's owner may be old.
pub open spec fn old_bytes(s: GcState, heap: HeapReadings) -> usize {
    heap.old_in_use.saturating_add(s.side_live_bytes)
}

/// What is due, if anything: old bytes before arena bytes before objects.
pub open spec fn due(s: GcState, cfg: GcConfig, heap: HeapReadings) -> Option<BudgetedGcTrigger> {
    if s.old_reclaim_pending || old_pressure(cfg, old_bytes(s, heap), s.last_old_reclaim) {
        Some(BudgetedGcTrigger::OldReclaim)
    } else if heap.arena_total >= arena_trigger(s, cfg) {
        Some(BudgetedGcTrigger::ArenaBytes)
    } else if heap.malloc_count >= s.next_malloc_trigger {
        Some(BudgetedGcTrigger::MallocCount)
    } else {
        None
    }
}

/// What is due, if anything?
pub fn gc_budgeted_due_trigger(s: &GcState, cfg: &GcConfig, heap: &HeapReadings) -> (d: Option<
    BudgetedGcTrigger,
>)
    ensures
        d == due(*s, *cfg, *heap),
{
    let old_in_use: usize = heap.old_in_use.saturating_add(s.side_live_bytes);
    if s.old_reclaim_pending || old_reclaim_pressure_due(cfg, old_in_use, s.last_old_reclaim) {
        return Some(BudgetedGcTrigger::OldReclaim);
    }
    if heap.arena_total >= effective_next_arena_trigger(s, cfg) {
        return Some(BudgetedGcTrigger::ArenaBytes);
    }
    if heap.malloc_count >= s.next_malloc_trigger {
        return Some(BudgetedGcTrigger::MallocCount);
    }
    None
}

/// How far old bytes are beyond the point at which they are reclaimed.
pub open spec fn old_debt(cfg: GcConfig, old_in_use: usize, baseline: usize) -> usize {
    old_in_use.saturating_sub(
        if baseline < cfg.old_reclaim_threshold {
            cfg.old_reclaim_threshold
        } else {
            baseline.saturating_add(cfg.old_reclaim_growth)
        },
    )
}

/// How far old bytes are beyond the point at which they are reclaimed.
pub fn gc_old_reclaim_debt_bytes(cfg: &GcConfig, old_in_use: usize, baseline: usize) -> (d: u64)
    ensures
        d == old_debt(*cfg, old_in_use, baseline),
{
    let trigger: usize = if baseline < cfg.old_reclaim_threshold {
        cfg.old_reclaim_threshold
    } else {
        baseline.saturating_add(cfg.old_reclaim_growth)
    };
    old_in_use.saturating_sub(trigger) as u64
}

/// A minor collection would promote so much that old bytes would have to be
/// reclaimed at once.
pub open spec fn handoff_pressure(
    cfg: GcConfig,
    promotable: usize,
    old_in_use: usize,
    baseline: usize,
) -> bool {
    promotable >= cfg.handoff_min && old_pressure(
        cfg,
        old_in_use.saturating_add(promotable),
        baseline,
    )
}

/// Would a minor collection promote so much that old bytes would have to be
/// reclaimed at once?
pub fn copied_minor_promotion_handoff_pressure_due(
    cfg: &GcConfig,
    promotable_bytes: usize,
    old_in_use: usize,
    baseline: usize,
) -> (r: bool)
    ensures
        r == handoff_pressure(*cfg, promotable_bytes, old_in_use, baseline),
{
    promotable_bytes >= cfg.handoff_min && old_reclaim_pressure_due(
        cfg,
        old_in_use.saturating_add(promotable_bytes),
        baseline,
    )
}

/// A minor collection for this trigger gives way to a full one.
pub open spec fn handoff_due(
    s: GcState,
    cfg: GcConfig,
    heap: HeapReadings,
    kind: GcTriggerKind,
) -> bool {
    &&& kind == GcTriggerKind::ArenaBytes || kind == GcTriggerKind::MallocCount
    &&& heap.survivor_in_use >= cfg.handoff_min
    &&& handoff_pressure(cfg, heap.promotable, old_bytes(s, heap), s.last_old_reclaim)
}

/// Does a minor collection for this trigger give way to a full one?
pub fn copied_minor_promotion_handoff_due(
    s: &GcState,
    cfg: &GcConfig,
    heap: &HeapReadings,
    trigger_kind: GcTriggerKind,
) -> (r: bool)
    ensures
        r == handoff_due(*s, *cfg, *heap, trigger_kind),
{
    if !matches!(trigger_kind, GcTriggerKind::ArenaBytes | GcTriggerKind::MallocCount) {
        return false;
    }
    if heap.survivor_in_use < cfg.handoff_min {
        return false;
    }
    let old_in_use: usize = heap.old_in_use.saturating_add(s.side_live_bytes);
    copied_minor_promotion_handoff_pressure_due(
        cfg,
        heap.promotable,
        old_in_use,
        s.last_old_reclaim,
    )
}

/// The flags that decide whether a survivor is promoted.
#[derive(Clone, Copy, PartialEq, Eq, Structural, Debug)]
pub struct Survivor {
    pub forwarded: bool,
    pub tenured: bool,
    /// How many minor collections it has survived.
    pub age: u8,
    pub size: usize,
}

/// The next minor collection promotes the object.
pub open spec fn is_promotable(o: Survivor, promotion_age: u8) -> bool {
    !o.forwarded && (o.tenured || o.age.saturating_add(1) >= promotion_age)
}

/// The bytes that the next minor collection promotes of the first `n`
/// survivors.
pub open spec fn promotable_upto(objects: Seq<Survivor>, promotion_age: u8, n: int) -> usize
    decreases n,
{
    if n <= 0 {
        0
    } else if is_promotable(objects[n - 1], promotion_age) {
        promotable_upto(objects, promotion_age, n - 1).saturating_add(objects[n - 1].size)
    } else {
        promotable_upto(objects, promotion_age, n - 1)
    }
}

/// The bytes that the next minor collection promotes, over the objects of the
/// active survivor space.
pub fn copied_minor_promotable_active_survivor_bytes(
    objects: &Vec<Survivor>,
    promotion_age: u8,
) -> (n: usize)
    ensures
        n == promotable_upto(objects@, promotion_age, objects@.len() as int),
{
    let mut promotable: usize = 0;
    let mut i: usize = 0;
    while i < objects.len()
        invariant
            i <= objects@.len(),
            promotable == promotable_upto(objects@, promotion_age, i as int),
        decreases objects@.len() - i,
    {
        let o: Survivor = objects[i];
        if !o.forwarded && (o.tenured || o.age.saturating_add(1) >= promotion_age) {
            promotable = promotable.saturating_add(o.size);
        }
        i = i + 1;
    }
    promotable
}

/// The arena has grown so much since the last full collection that the next
/// collection is a full one.
pub open spec fn growth_due(s: GcState, cfg: GcConfig, heap: HeapReadings) -> bool {
    &&& cfg.pacing_floor != 0
    &&& heap.arena_in_use >= cfg.pacing_floor
    &&& s.last_full_in_use == 0 || heap.arena_in_use > capped_product(
        s.last_full_in_use,
        cfg.pacing_growth,
    )
}

/// Has the arena grown so much that the next collection is a full one?
pub fn arena_growth_full_escalation_due(s: &GcState, cfg: &GcConfig, heap: &HeapReadings) -> (r:
    bool)
    ensures
        r == growth_due(*s, *cfg, *heap),
{
    if cfg.pacing_floor == 0 {
        return false;
    }
    if heap.arena_in_use < cfg.pacing_floor {
        return false;
    }
    s.last_full_in_use == 0 || heap.arena_in_use > saturating_product(
        s.last_full_in_use,
        cfg.pacing_growth,
    )
}

/// A minor collection has promoted: old bytes may have to be reclaimed.
pub fn maybe_schedule_old_reclaim_after_copied_minor(
    s: &mut GcState,
    cfg: &GcConfig,
    heap: &HeapReadings,
)
    ensures
        *final(s) == (GcState {
            old_reclaim_pending: old(s).old_reclaim_pending || old_pressure(
                *cfg,
                old_bytes(*old(s), *heap),
                old(s).last_old_reclaim,
            ),
            ..*old(s)
        }),
{
    let old_in_use: usize = heap.old_in_use.saturating_add(s.side_live_bytes);
    if old_reclaim_pressure_due(cfg, old_in_use, s.last_old_reclaim) {
        s.old_reclaim_pending = true;
    }
}

/// A full collection has reclaimed old bytes: note what is left.
pub fn finish_full_old_reclaim_baseline(s: &mut GcState, heap: &HeapReadings)
    ensures
        *final(s) == (GcState {
            last_old_reclaim: old_bytes(*old(s), *heap),
            last_full_in_use: heap.arena_in_use,
            old_reclaim_pending: false,
            ..*old(s)
        }),
{
    *s = GcState {
        last_old_reclaim: heap.old_in_use.saturating_add(s.side_live_bytes),
        last_full_in_use: heap.arena_in_use,
        old_reclaim_pending: false,
        ..*s
    };
}

// ---------------------------------------------------------------------------
// Deferring
// ---------------------------------------------------------------------------

/// A collection may wait for a safepoint, or go on waiting: the first wait is
/// always allowed, and then the arena may grow by the slack.
pub open spec fn may_wait(arena_total: usize, deferred_at: Option<usize>, slack: usize) -> bool {
    match deferred_at {
        None => true,
        Some(base) => arena_total < base.saturating_add(slack),
    }
}

/// May a collection wait for a safepoint, or go on waiting?
pub fn moving_defer_within_slack(
    arena_total: usize,
    deferred_at: Option<usize>,
    slack: usize,
) -> (r: bool)
    ensures
        r == may_wait(arena_total, deferred_at, slack),
{
    match deferred_at {
        None => true,
        Some(base) => arena_total < base.saturating_add(slack),
    }
}

impl GcState {
    /// A request put off while the roots are locked.
    pub open spec fn with_deferred(self, request: DeferredGcRequest) -> GcState {
        if self.root_lock_depth != 0 {
            GcState { deferred: self.deferred.merged(request), ..self }
        } else {
            self
        }
    }

    /// Collections are blocked by native work that may hold references.
    pub open spec fn in_unsafe_zone(self) -> bool {
        self.unsafe_zones > 0
    }
}

/// Put a request off if the roots are locked.
pub fn defer_gc_request(s: &mut GcState, request: DeferredGcRequest) -> (deferred: bool)
    ensures
        deferred == (old(s).root_lock_depth != 0),
        *final(s) == old(s).with_deferred(request),
{
    let locked: bool = s.root_lock_depth != 0;
    if locked {
        s.deferred = s.deferred.merge(request);
    }
    locked
}

/// Take the request that was put off.
pub fn take_deferred_gc_request(s: &mut GcState) -> (r: DeferredGcRequest)
    ensures
        r == old(s).deferred,
        *final(s) == (GcState { deferred: DeferredGcRequest::Nothing, ..*old(s) }),
{
    let r: DeferredGcRequest = s.deferred;
    s.deferred = DeferredGcRequest::Nothing;
    r
}

/// Are collections blocked by native work that may hold references?
pub fn gc_blocked_by_unsafe_zone(s: &GcState) -> (r: bool)
    ensures
        r == s.in_unsafe_zone(),
{
    s.unsafe_zones > 0
}

// ---------------------------------------------------------------------------
// Checking the triggers
// ---------------------------------------------------------------------------

/// What a check of the triggers asks for.
#[derive(Clone, Copy, PartialEq, Eq, Structural, Debug)]
pub enum CheckAction {
    /// Nothing.
    Nothing,
    /// A full collection for old bytes, at once, with the native stack
    /// scanned. `old_reclaim_done` follows it.
    ReclaimOld,
    /// A minor collection at once; the native stack is scanned unless the
    /// scavenger is on. `finish_direct_collection` follows it, with what was
    /// in use and counted before.
    CollectMinor { kind: GcTriggerKind, scan_stack: bool, pre_in_use: usize, pre_count: usize },
    /// A step of the budgeted cycle.
    Assist { work_units: usize },
}

/// The outcome of a check: the state after it, and what it asks for.
pub ghost struct CheckStep {
    pub state: GcState,
    pub action: CheckAction,
}

/// A check of the triggers is not allowed here at all.
pub open spec fn check_blocked(s: GcState) -> bool {
    ||| s.step_active
    ||| s.suppressed
    ||| !s.cycle_active && s.in_alloc
    ||| s.in_unsafe_zone()
}

/// The trigger that a direct minor collection answers to.
pub open spec fn direct_kind(d: Option<BudgetedGcTrigger>) -> Option<GcTriggerKind> {
    match d {
        Some(BudgetedGcTrigger::ArenaBytes) => Some(GcTriggerKind::ArenaBytes),
        Some(BudgetedGcTrigger::MallocCount) => Some(GcTriggerKind::MallocCount),
        _ => None,
    }
}

/// A direct minor collection for `kind`, or the wait for a safepoint where
/// loops poll for one.
pub open spec fn direct_minor(
    s: GcState,
    cfg: GcConfig,
    heap: HeapReadings,
    kind: GcTriggerKind,
) -> CheckStep {
    let collect = CheckAction::CollectMinor {
        kind,
        scan_stack: !cfg.scavenge,
        pre_in_use: heap.arena_in_use,
        pre_count: heap.malloc_count,
    };
    let deferred_at = if s.safepoint_pending {
        Some(s.defer_base)
    } else {
        None
    };
    if !cfg.moving_loop_polls {
        CheckStep { state: s, action: collect }
    } else if !may_wait(heap.arena_total, deferred_at, cfg.defer_slack) {
        CheckStep { state: GcState { safepoint_pending: false, ..s }, action: collect }
    } else if s.safepoint_pending {
        CheckStep { state: s, action: CheckAction::Nothing }
    } else {
        CheckStep {
            state: GcState { safepoint_pending: true, defer_base: heap.arena_total, ..s },
            action: CheckAction::Nothing,
        }
    }
}

/// The work units of an assist: more with the debt.
pub open spec fn assist_units(cfg: GcConfig, heap: HeapReadings) -> usize {
    cfg.assist_work_units.saturating_add(
        (heap.debt.arena_debt_bytes / cfg.debt_bytes_per_unit) as usize,
    ).saturating_add(heap.debt.malloc_debt_objects as usize)
}

/// A check of the triggers: the state after it, and what it asks for.
pub open spec fn checked(s: GcState, cfg: GcConfig, heap: HeapReadings) -> CheckStep {
    let d = due(s, cfg, heap);
    let assist = CheckAction::Assist { work_units: assist_units(cfg, heap) };
    if check_blocked(s) {
        CheckStep { state: s, action: CheckAction::Nothing }
    } else if s.root_lock_depth != 0 {
        CheckStep {
            state: s.with_deferred(DeferredGcRequest::CheckTrigger),
            action: CheckAction::Nothing,
        }
    } else if s.cycle_active {
        CheckStep { state: s, action: assist }
    } else if d == Some(BudgetedGcTrigger::OldReclaim) && !s.old_reclaim_in_progress {
        CheckStep {
            state: GcState { old_reclaim_in_progress: true, old_reclaim_pending: false, ..s },
            action: CheckAction::ReclaimOld,
        }
    } else if (cfg.scavenge || cfg.moving_loop_polls || heap.scanners_block_budgeted)
        && direct_kind(d) is Some {
        direct_minor(s, cfg, heap, direct_kind(d)->0)
    } else if d is None {
        CheckStep { state: s, action: CheckAction::Nothing }
    } else {
        CheckStep { state: s, action: assist }
    }
}

/// The work units of an assist.
pub fn gc_mutator_assist_scaled_work_units(cfg: &GcConfig, heap: &HeapReadings) -> (n: usize)
    requires
        cfg.debt_bytes_per_unit > 0,
    ensures
        n == assist_units(*cfg, *heap),
{
    let arena_units: u64 = heap.debt.arena_debt_bytes / cfg.debt_bytes_per_unit;
    cfg.assist_work_units.saturating_add(#[verifier::truncate] (arena_units as usize)).saturating_add(
        #[verifier::truncate] (heap.debt.malloc_debt_objects as usize),
    )
}

/// Check the triggers, and say what has to be done.
pub fn gc_check_trigger(s: &mut GcState, cfg: &GcConfig, heap: &HeapReadings) -> (a: CheckAction)
    requires
        cfg.debt_bytes_per_unit > 0,
    ensures
        (CheckStep { state: *final(s), action: a }) == checked(*old(s), *cfg, *heap),
{
    if s.step_active || s.suppressed {
        return CheckAction::Nothing;
    }
    if !s.cycle_active && s.in_alloc {
        return CheckAction::Nothing;
    }
    if gc_blocked_by_unsafe_zone(s) {
        return CheckAction::Nothing;
    }
    if defer_gc_request(s, DeferredGcRequest::CheckTrigger) {
        return CheckAction::Nothing;
    }
    if !s.cycle_active {
        let d: Option<BudgetedGcTrigger> = gc_budgeted_due_trigger(s, cfg, heap);
        if matches!(d, Some(BudgetedGcTrigger::OldReclaim)) && !s.old_reclaim_in_progress {
            *s = GcState { old_reclaim_in_progress: true, old_reclaim_pending: false, ..*s };
            return CheckAction::ReclaimOld;
        }
        if cfg.scavenge || cfg.moving_loop_polls || heap.scanners_block_budgeted {
            let direct: Option<GcTriggerKind> = match d {
                Some(BudgetedGcTrigger::ArenaBytes) => Some(GcTriggerKind::ArenaBytes),
                Some(BudgetedGcTrigger::MallocCount) => Some(GcTriggerKind::MallocCount),
                _ => None,
            };
            if let Some(kind) = direct {
                if cfg.moving_loop_polls {
                    let deferred_at: Option<usize> = if s.safepoint_pending {
                        Some(s.defer_base)
                    } else {
                        None
                    };
                    if moving_defer_within_slack(heap.arena_total, deferred_at, cfg.defer_slack) {
                        if !s.safepoint_pending {
                            *s = GcState {
                                safepoint_pending: true,
                                defer_base: heap.arena_total,
                                ..*s
                            };
                        }
                        return CheckAction::Nothing;
                    }
                    s.safepoint_pending = false;
                }
                return CheckAction::CollectMinor {
                    kind,
                    scan_stack: !cfg.scavenge,
                    pre_in_use: heap.arena_in_use,
                    pre_count: heap.malloc_count,
                };
            }
        }
        if d.is_none() {
            return CheckAction::Nothing;
        }
    }
    CheckAction::Assist { work_units: gc_mutator_assist_scaled_work_units(cfg, heap) }
}

/// Check the triggers, from the event loop.
pub fn gc_check_trigger_export(s: &mut GcState, cfg: &GcConfig, heap: &HeapReadings) -> (a:
    CheckAction)
    requires
        cfg.debt_bytes_per_unit > 0,
    ensures
        (CheckStep { state: *final(s), action: a }) == checked(*old(s), *cfg, *heap),
{
    gc_check_trigger(s, cfg, heap)
}

/// The full collection for old bytes is over.
pub fn old_reclaim_done(s: &mut GcState)
    ensures
        *final(s) == (GcState { old_reclaim_in_progress: false, ..*old(s) }),
{
    s.old_reclaim_in_progress = false;
}

// ---------------------------------------------------------------------------
// Setting the triggers anew
// ---------------------------------------------------------------------------

/// What a collection has achieved.
#[derive(Clone, Copy, PartialEq, Eq, Structural, Debug)]
pub struct GcOutcome {
    pub freed_bytes: u64,
    /// Objects outside the arena were swept too.
    pub malloc_swept: bool,
}

/// The part, in percent, that `freed` is of `whole`.
#[verifier::opaque]
pub open spec fn percent(freed: int, whole: int) -> int {
    freed * 100 / whole
}

/// The part, in percent, that `freed` is of `whole`.
fn percent_of(freed: usize, whole: usize) -> (pct: u128)
    requires
        whole > 0,
    ensures
        pct == percent(freed as int, whole as int),
{
    proof {
        reveal(percent);
    }
    (freed as u128 * 100) / whole as u128
}

/// The arena bytes that a collection has freed: by sweeping, or by resetting
/// blocks, whichever is more.
pub open spec fn arena_freed(pre_in_use: usize, outcome: GcOutcome, heap: HeapReadings) -> usize {
    greatest(pre_in_use.saturating_sub(heap.arena_in_use), outcome.freed_bytes as usize)
}

/// The step after a collection: doubled where nearly everything or next to
/// nothing was garbage, halved where a good part was, else kept.
pub open spec fn next_arena_step(step: usize, pre_in_use: usize, freed: usize) -> usize {
    let pct = percent(freed as int, pre_in_use as int);
    if pre_in_use == 0 {
        step
    } else if pct < 10 || pct > 84 {
        least((step * 2) as usize, GC_THRESHOLD_MAX_BYTES)
    } else if pct >= 25 {
        greatest((step / 2) as usize, GC_STEP_FLOOR_BYTES)
    } else {
        step
    }
}

fn arena_step_after(step: usize, pre_in_use: usize, freed: usize) -> (r: usize)
    requires
        step <= GC_THRESHOLD_MAX_BYTES,
    ensures
        r == next_arena_step(step, pre_in_use, freed),
        r <= GC_THRESHOLD_MAX_BYTES,
{
    if pre_in_use == 0 {
        return step;
    }
    let pct: u128 = percent_of(freed, pre_in_use);
    if pct < 10 || pct > 84 {
        least_of(step * 2, GC_THRESHOLD_MAX_BYTES)
    } else if pct >= 25 {
        greatest_of(step / 2, GC_STEP_FLOOR_BYTES)
    } else {
        step
    }
}

/// The trigger after a collection: a step above what there is, under the
/// ceiling, but with the least headroom in any case.
pub open spec fn next_arena_trigger(cfg: GcConfig, total: usize, step: usize) -> usize {
    greatest(
        least(total.saturating_add(step), cfg.trigger_ceiling),
        total.saturating_add(cfg.headroom_floor),
    )
}

/// The state after a collection for arena bytes.
pub open spec fn arena_finished(
    s: GcState,
    cfg: GcConfig,
    pre_in_use: usize,
    outcome: GcOutcome,
    heap: HeapReadings,
) -> GcState {
    let step = next_arena_step(s.step_bytes, pre_in_use, arena_freed(pre_in_use, outcome, heap));
    GcState {
        step_bytes: step,
        next_trigger: next_arena_trigger(cfg, heap.arena_total, step),
        trigger_armed: true,
        next_malloc_trigger: if outcome.malloc_swept {
            (heap.malloc_count + s.malloc_step) as usize
        } else {
            s.next_malloc_trigger
        },
        ..s
    }
}

/// A collection for arena bytes is over; `heap` is read after it.
pub fn gc_finish_arena_trigger_collection(
    s: &mut GcState,
    cfg: &GcConfig,
    pre_in_use: usize,
    outcome: GcOutcome,
    heap: &HeapReadings,
)
    requires
        old(s).well_formed(),
        heap.countable(),
    ensures
        *final(s) == arena_finished(*old(s), *cfg, pre_in_use, outcome, *heap),
        final(s).well_formed(),
{
    let block_reclaim: usize = pre_in_use.saturating_sub(heap.arena_in_use);
    let freed: usize = greatest_of(
        block_reclaim,
        #[verifier::truncate] (outcome.freed_bytes as usize),
    );
    let step: usize = arena_step_after(s.step_bytes, pre_in_use, freed);
    let capped: usize = least_of(heap.arena_total.saturating_add(step), cfg.trigger_ceiling);
    let floor: usize = heap.arena_total.saturating_add(cfg.headroom_floor);
    let next_malloc_trigger: usize = if outcome.malloc_swept {
        heap.malloc_count + s.malloc_step
    } else {
        s.next_malloc_trigger
    };
    *s = GcState {
        step_bytes: step,
        next_trigger: greatest_of(capped, floor),
        trigger_armed: true,
        next_malloc_trigger,
        ..*s
    };
}

/// The step by object count after a collection: far up where it was nearly
/// useless, up where it was partly so, down where it was highly effective.
pub open spec fn next_malloc_step(step: usize, pre_count: usize, survivors: usize) -> usize {
    let pct = percent(pre_count.saturating_sub(survivors) as int, pre_count as int);
    if pre_count == 0 {
        step
    } else if pct < 15 {
        least((step * 4) as usize, GC_MALLOC_COUNT_STEP_MAX)
    } else if pct < 50 {
        least((step * 2) as usize, GC_MALLOC_COUNT_STEP_MAX)
    } else if pct > 90 {
        greatest((step / 2) as usize, GC_MALLOC_COUNT_STEP_MIN)
    } else {
        step
    }
}

fn malloc_step_after(step: usize, pre_count: usize, survivors: usize) -> (r: usize)
    requires
        step <= GC_MALLOC_COUNT_STEP_MAX,
    ensures
        r == next_malloc_step(step, pre_count, survivors),
        r <= GC_MALLOC_COUNT_STEP_MAX,
{
    if pre_count == 0 {
        return step;
    }
    let pct: u128 = percent_of(pre_count.saturating_sub(survivors), pre_count);
    if pct < 15 {
        least_of(step * 4, GC_MALLOC_COUNT_STEP_MAX)
    } else if pct < 50 {
        least_of(step * 2, GC_MALLOC_COUNT_STEP_MAX)
    } else if pct > 90 {
        greatest_of(step / 2, GC_MALLOC_COUNT_STEP_MIN)
    } else {
        step
    }
}

/// The state after a collection for object count.
pub open spec fn malloc_finished(
    s: GcState,
    pre_count: usize,
    outcome: GcOutcome,
    heap: HeapReadings,
) -> GcState {
    let step = next_malloc_step(s.malloc_step, pre_count, heap.malloc_count);
    GcState {
        malloc_step: step,
        next_malloc_trigger: if outcome.malloc_swept {
            (heap.malloc_count + step) as usize
        } else {
            s.next_malloc_trigger
        },
        ..s
    }
}

/// A collection for object count is over; `heap` is read after it.
pub fn gc_finish_malloc_trigger_collection(
    s: &mut GcState,
    pre_count: usize,
    outcome: GcOutcome,
    heap: &HeapReadings,
)
    requires
        old(s).well_formed(),
        heap.countable(),
    ensures
        *final(s) == malloc_finished(*old(s), pre_count, outcome, *heap),
        final(s).well_formed(),
{
    let step: usize = malloc_step_after(s.malloc_step, pre_count, heap.malloc_count);
    let next_malloc_trigger: usize = if outcome.malloc_swept {
        heap.malloc_count + step
    } else {
        s.next_malloc_trigger
    };
    *s = GcState { malloc_step: step, next_malloc_trigger, ..*s };
}

/// The state after a direct collection.
pub open spec fn direct_finished(
    s: GcState,
    cfg: GcConfig,
    kind: GcTriggerKind,
    pre_in_use: usize,
    pre_count: usize,
    outcome: GcOutcome,
    heap: HeapReadings,
) -> GcState {
    if kind == GcTriggerKind::MallocCount {
        malloc_finished(s, pre_count, outcome, heap)
    } else {
        arena_finished(s, cfg, pre_in_use, outcome, heap)
    }
}

/// A direct collection is over; `heap` is read after it.
pub fn finish_direct_collection(
    s: &mut GcState,
    cfg: &GcConfig,
    kind: GcTriggerKind,
    pre_in_use: usize,
    pre_count: usize,
    outcome: GcOutcome,
    heap: &HeapReadings,
)
    requires
        old(s).well_formed(),
        heap.countable(),
    ensures
        *final(s) == direct_finished(*old(s), *cfg, kind, pre_in_use, pre_count, outcome, *heap),
        final(s).well_formed(),
{
    match kind {
        GcTriggerKind::MallocCount => {
            gc_finish_malloc_trigger_collection(s, pre_count, outcome, heap);
        },
        _ => {
            gc_finish_arena_trigger_collection(s, cfg, pre_in_use, outcome, heap);
        },
    }
}

// ---------------------------------------------------------------------------
// Suppression, and parses under it
// ---------------------------------------------------------------------------

/// Should the arena start a fresh block before triggers are suppressed? Only
/// a full collection needs that: it cannot compact a block that holds the
/// result of the parse to come.
pub fn gc_suppress_wants_fresh_block(cfg: &GcConfig, heap: &HeapReadings) -> (r: bool)
    ensures
        r == (!cfg.gen_gc && heap.arena_in_use >= cfg.tiny_parse_in_use_full),
{
    !cfg.gen_gc && heap.arena_in_use >= cfg.tiny_parse_in_use_full
}

/// Suppress the triggers, noting the arena bytes at this point.
pub fn gc_suppress(s: &mut GcState, heap: &HeapReadings)
    ensures
        *final(s) == (GcState {
            suppressed: true,
            pre_suppress_bytes: heap.arena_total,
            ..*old(s)
        }),
{
    *s = GcState { suppressed: true, pre_suppress_bytes: heap.arena_total, ..*s };
}

/// Let the triggers act again.
pub fn gc_unsuppress(s: &mut GcState)
    ensures
        *final(s) == (GcState { suppressed: false, ..*old(s) }),
{
    s.suppressed = false;
}

/// Are the triggers suppressed?
pub fn gc_is_suppressed(s: &GcState) -> (r: bool)
    ensures
        r == s.suppressed,
{
    s.suppressed
}

impl GcState {
    /// After a window without moves was opened.
    pub open spec fn scope_opened(self) -> GcState {
        GcState { suppressed: true, ..self }
    }

    /// After a window was closed that was opened with triggers suppressed
    /// already, or not.
    pub open spec fn scope_closed(self, was_suppressed: bool) -> GcState {
        GcState { suppressed: was_suppressed && self.suppressed, ..self }
    }
}

/// A short window in which nothing moves. It nests: closing it restores what
/// was before.
#[derive(PartialEq, Eq, Structural, Debug)]
pub struct GcSuppressScope {
    pub was_suppressed: bool,
}

impl GcSuppressScope {
    /// Open the window.
    pub fn new(s: &mut GcState) -> (scope: GcSuppressScope)
        ensures
            scope.was_suppressed == old(s).suppressed,
            *final(s) == old(s).scope_opened(),
    {
        let was_suppressed: bool = gc_is_suppressed(s);
        if !was_suppressed {
            s.suppressed = true;
        }
        GcSuppressScope { was_suppressed }
    }

    /// Close the window.
    pub fn close(self, s: &mut GcState)
        ensures
            *final(s) == old(s).scope_closed(self.was_suppressed),
    {
        if !self.was_suppressed {
            s.suppressed = false;
        }
    }
}

/// Has a suppressed parse grown the arena only a little?
pub fn gc_suppressed_parse_is_tiny(parse_growth: usize) -> (r: bool)
    ensures
        r == (parse_growth <= GC_SUPPRESSED_TINY_PARSE_BYTES),
{
    parse_growth <= GC_SUPPRESSED_TINY_PARSE_BYTES
}

/// The trigger that a parse asks for: a step above what there is, the step
/// under the ceiling, and for a tiny parse the trigger too.
pub open spec fn bump_target(cfg: GcConfig, bytes_now: usize, step: usize, tiny: bool) -> usize {
    let target = bytes_now.saturating_add(least(step, cfg.trigger_ceiling));
    if tiny {
        least(target, cfg.trigger_ceiling)
    } else {
        target
    }
}

/// The trigger that a parse asks for.
pub fn gc_bump_arena_trigger_target(
    cfg: &GcConfig,
    bytes_now: usize,
    step: usize,
    is_tiny_parse: bool,
) -> (t: usize)
    ensures
        t == bump_target(*cfg, bytes_now, step, is_tiny_parse),
{
    let target: usize = bytes_now.saturating_add(least_of(step, cfg.trigger_ceiling));
    if is_tiny_parse {
        least_of(target, cfg.trigger_ceiling)
    } else {
        target
    }
}

/// The last suppressed parse was a tiny one.
pub open spec fn parse_was_tiny(s: GcState, bytes_now: usize) -> bool {
    bytes_now.saturating_sub(s.pre_suppress_bytes) <= GC_SUPPRESSED_TINY_PARSE_BYTES
}

/// The triggers after a suppressed parse. They are only ever raised, and by
/// larger parses only once in a cycle.
pub open spec fn bumped(
    s: GcState,
    cfg: GcConfig,
    current: usize,
    bytes_now: usize,
) -> GcState {
    let tiny = parse_was_tiny(s, bytes_now);
    let counted = GcState { next_malloc_trigger: (current + s.malloc_step) as usize, ..s };
    let target = bump_target(cfg, bytes_now, s.step_bytes, tiny);
    if (!tiny && s.trigger_bumped) || target <= arena_trigger(s, cfg) {
        counted
    } else {
        GcState {
            next_trigger: target,
            trigger_armed: true,
            trigger_bumped: s.trigger_bumped || !tiny,
            ..counted
        }
    }
}

/// Set the triggers after a suppressed parse; the result says whether it was
/// a tiny one.
pub fn gc_bump_malloc_trigger_with_snapshot(
    s: &mut GcState,
    cfg: &GcConfig,
    current: usize,
    bytes_now: usize,
) -> (tiny: bool)
    requires
        current + old(s).malloc_step <= usize::MAX,
    ensures
        *final(s) == bumped(*old(s), *cfg, current, bytes_now),
        tiny == parse_was_tiny(*old(s), bytes_now),
{
    let parse_growth: usize = bytes_now.saturating_sub(s.pre_suppress_bytes);
    let is_tiny_parse: bool = gc_suppressed_parse_is_tiny(parse_growth);
    let trigger_now: usize = effective_next_arena_trigger(s, cfg);
    let target: usize = gc_bump_arena_trigger_target(cfg, bytes_now, s.step_bytes, is_tiny_parse);
    let next_malloc_trigger: usize = current + s.malloc_step;
    if (!is_tiny_parse && s.trigger_bumped) || target <= trigger_now {
        *s = GcState { next_malloc_trigger, ..*s };
    } else {
        *s = GcState {
            next_trigger: target,
            trigger_armed: true,
            trigger_bumped: s.trigger_bumped || !is_tiny_parse,
            next_malloc_trigger,
            ..*s
        };
    }
    is_tiny_parse
}

/// The trigger lowered to what there is, so that the next check finds it due.
pub open spec fn lowered_trigger(s: GcState, total: usize) -> GcState {
    if s.next_trigger > total {
        GcState { next_trigger: total, trigger_armed: true, ..s }
    } else {
        s
    }
}

fn lower_trigger(s: &mut GcState, total: usize)
    ensures
        *final(s) == lowered_trigger(*old(s), total),
{
    if s.next_trigger > total {
        *s = GcState { next_trigger: total, trigger_armed: true, ..*s };
    }
}

/// What follows a suppressed parse.
#[derive(Clone, Copy, PartialEq, Eq, Structural, Debug)]
pub enum AfterParse {
    /// Nothing.
    Nothing,
    /// What a check of the triggers asks for.
    Check(CheckAction),
    /// The arena starts a fresh block; the collection waits for the next
    /// parse.
    StartFreshBlock,
}

/// The outcome of a parse: the state after it, and what follows.
pub ghost struct ParseStep {
    pub state: GcState,
    pub action: AfterParse,
}

/// A suppressed parse is over: the state, and what follows. Tiny parses that
/// pile up ask for a collection, at once or, where the generational collector
/// is off, before the next parse.
pub open spec fn after_parse(s: GcState, cfg: GcConfig, heap: HeapReadings) -> ParseStep {
    let b = bumped(s, cfg, heap.malloc_count, heap.arena_total);
    let threshold = if cfg.gen_gc {
        cfg.tiny_parse_in_use
    } else {
        cfg.tiny_parse_in_use_full
    };
    let pending = GcState { tiny_parse_pending: true, ..b };
    if !parse_was_tiny(s, heap.arena_total) || heap.arena_in_use < threshold {
        ParseStep { state: b, action: AfterParse::Nothing }
    } else if !cfg.gen_gc {
        ParseStep { state: pending, action: AfterParse::StartFreshBlock }
    } else if b.in_unsafe_zone() {
        ParseStep { state: pending, action: AfterParse::Nothing }
    } else {
        let c = checked(lowered_trigger(pending, heap.arena_total), cfg, heap);
        ParseStep { state: c.state, action: AfterParse::Check(c.action) }
    }
}

/// A suppressed parse is over: set the triggers to what is alive now, and say
/// what follows.
pub fn gc_bump_malloc_trigger(s: &mut GcState, cfg: &GcConfig, heap: &HeapReadings) -> (a:
    AfterParse)
    requires
        old(s).well_formed(),
        heap.countable(),
        cfg.debt_bytes_per_unit > 0,
    ensures
        (ParseStep { state: *final(s), action: a }) == after_parse(*old(s), *cfg, *heap),
{
    let tiny: bool = gc_bump_malloc_trigger_with_snapshot(
        s,
        cfg,
        heap.malloc_count,
        heap.arena_total,
    );
    if !tiny {
        return AfterParse::Nothing;
    }
    let threshold: usize = if cfg.gen_gc {
        cfg.tiny_parse_in_use
    } else {
        cfg.tiny_parse_in_use_full
    };
    if heap.arena_in_use < threshold {
        return AfterParse::Nothing;
    }
    *s = GcState { tiny_parse_pending: true, ..*s };
    if !cfg.gen_gc {
        return AfterParse::StartFreshBlock;
    }
    if gc_blocked_by_unsafe_zone(s) {
        return AfterParse::Nothing;
    }
    lower_trigger(s, heap.arena_total);
    AfterParse::Check(gc_check_trigger(s, cfg, heap))
}

/// The collection that tiny parses have asked for, before the next parse. It
/// goes on waiting where collections are blocked.
pub open spec fn pending_parse(s: GcState, cfg: GcConfig, heap: HeapReadings) -> CheckStep {
    if !s.tiny_parse_pending || s.in_alloc || s.suppressed || s.in_unsafe_zone() {
        CheckStep { state: s, action: CheckAction::Nothing }
    } else {
        checked(
            lowered_trigger(GcState { tiny_parse_pending: false, ..s }, heap.arena_total),
            cfg,
            heap,
        )
    }
}

/// Run the collection that tiny parses have asked for.
pub fn gc_collect_pending_suppressed_parse(
    s: &mut GcState,
    cfg: &GcConfig,
    heap: &HeapReadings,
) -> (a: CheckAction)
    requires
        cfg.debt_bytes_per_unit > 0,
    ensures
        (CheckStep { state: *final(s), action: a }) == pending_parse(*old(s), *cfg, *heap),
{
    if !s.tiny_parse_pending {
        return CheckAction::Nothing;
    }
    if s.in_alloc || s.suppressed || gc_blocked_by_unsafe_zone(s) {
        return CheckAction::Nothing;
    }
    s.tiny_parse_pending = false;
    lower_trigger(s, heap.arena_total);
    gc_check_trigger(s, cfg, heap)
}

/// Ask for a collection before the next parse, where there is pressure.
pub fn gc_schedule_parse_boundary_collection_if_pressure(
    s: &mut GcState,
    cfg: &GcConfig,
    heap: &HeapReadings,
)
    ensures
        *final(s) == (GcState {
            tiny_parse_pending: old(s).tiny_parse_pending || (cfg.gen_gc && heap.arena_in_use
                >= cfg.tiny_parse_in_use),
            ..*old(s)
        }),
{
    if !cfg.gen_gc {
        return;
    }
    if heap.arena_in_use < cfg.tiny_parse_in_use {
        return;
    }
    s.tiny_parse_pending = true;
}

// ---------------------------------------------------------------------------
// Side buffers
// ---------------------------------------------------------------------------

/// So many side-buffer bytes were allocated since the last check that the next
/// one is due.
pub open spec fn side_check_due(s: GcState, bytes: usize) -> bool {
    s.side_alloc_pending.saturating_add(bytes) >= GC_EXTERNAL_SIDE_ALLOC_STEP
}

/// The counters after side-buffer bytes were allocated.
pub open spec fn side_counted(s: GcState, bytes: usize) -> GcState {
    GcState {
        side_live_bytes: s.side_live_bytes.saturating_add(bytes),
        side_alloc_pending: if side_check_due(s, bytes) {
            0
        } else {
            s.side_alloc_pending.saturating_add(bytes)
        },
        ..s
    }
}

fn count_side_bytes(s: &mut GcState, bytes: usize) -> (due: bool)
    ensures
        *final(s) == side_counted(*old(s), bytes),
        due == side_check_due(*old(s), bytes),
{
    let pending: usize = s.side_alloc_pending.saturating_add(bytes);
    let due: bool = pending >= GC_EXTERNAL_SIDE_ALLOC_STEP;
    *s = GcState {
        side_live_bytes: s.side_live_bytes.saturating_add(bytes),
        side_alloc_pending: if due {
            0
        } else {
            pending
        },
        ..*s
    };
    due
}

/// Record that side-buffer bytes were allocated: every so many of them ask
/// for a check of the triggers.
pub fn gc_note_external_side_alloc(
    s: &mut GcState,
    cfg: &GcConfig,
    heap: &HeapReadings,
    bytes: usize,
) -> (a: CheckAction)
    requires
        cfg.debt_bytes_per_unit > 0,
    ensures
        (CheckStep { state: *final(s), action: a }) == if side_check_due(*old(s), bytes) {
            checked(side_counted(*old(s), bytes), *cfg, *heap)
        } else {
            CheckStep { state: side_counted(*old(s), bytes), action: CheckAction::Nothing }
        },
{
    if count_side_bytes(s, bytes) {
        gc_check_trigger(s, cfg, heap)
    } else {
        CheckAction::Nothing
    }
}

/// Record that side-buffer bytes were freed.
pub fn gc_note_external_side_free(s: &mut GcState, bytes: usize)
    ensures
        *final(s) == (GcState {
            side_live_bytes: old(s).side_live_bytes.saturating_sub(bytes),
            ..*old(s)
        }),
{
    s.side_live_bytes = s.side_live_bytes.saturating_sub(bytes);
}

// ---------------------------------------------------------------------------
// Safepoints
// ---------------------------------------------------------------------------

/// What a safepoint asks for.
#[derive(Clone, Copy, PartialEq, Eq, Structural, Debug)]
pub enum SafepointAction {
    /// Nothing.
    Idle,
    /// A full collection for old bytes; `safepoint_reclaim_done` follows it.
    ReclaimOld,
    /// A minor collection that moves; `safepoint_minor_done` follows it, with
    /// what was in use and counted before.
    CollectMinor { kind: GcTriggerKind, pre_in_use: usize, pre_count: usize },
}

/// A safepoint that could not collect.
pub open spec fn safepoint_blocked(s: GcState) -> bool {
    s.in_alloc || s.suppressed || s.in_unsafe_zone() || s.root_lock_depth != 0 || s.cycle_active
}

/// The outcome of a safepoint: the states of collector and schedule after it,
/// and what it asks for.
pub ghost struct SafepointStep {
    pub state: GcState,
    pub sched: GcSchedule,
    pub action: SafepointAction,
}

/// A safepoint. A blocked one does nothing and is not counted. Where nothing
/// is due, zeal or the schedule may ask for a collection.
pub open spec fn at_safepoint(
    s: GcState,
    sched: GcSchedule,
    cfg: GcConfig,
    heap: HeapReadings,
) -> SafepointStep {
    let ticked = sched.ticked();
    let open = GcState { safepoint_pending: false, ..s };
    let d = due(open, cfg, heap);
    let kind = match direct_kind(d) {
        Some(kind) => kind,
        None => GcTriggerKind::ArenaBytes,
    };
    let collect = SafepointAction::CollectMinor {
        kind,
        pre_in_use: heap.arena_in_use,
        pre_count: heap.malloc_count,
    };
    if safepoint_blocked(s) {
        SafepointStep { state: s, sched, action: SafepointAction::Idle }
    } else if d == Some(BudgetedGcTrigger::OldReclaim) {
        if s.old_reclaim_in_progress {
            SafepointStep { state: open, sched: ticked, action: SafepointAction::Idle }
        } else {
            SafepointStep {
                state: GcState {
                    old_reclaim_in_progress: true,
                    old_reclaim_pending: false,
                    ..open
                },
                sched: ticked,
                action: SafepointAction::ReclaimOld,
            }
        }
    } else if d is Some {
        SafepointStep { state: open, sched: ticked, action: collect }
    } else if cfg.zeal {
        SafepointStep {
            state: GcState { zeal_forced: s.zeal_forced.wrapping_add(1), ..open },
            sched: ticked,
            action: collect,
        }
    } else if ticked.selected() {
        SafepointStep {
            state: open,
            sched: GcSchedule { forced: ticked.forced.wrapping_add(1), ..ticked },
            action: collect,
        }
    } else {
        SafepointStep { state: open, sched: ticked, action: SafepointAction::Idle }
    }
}

/// A safepoint with precise roots: say what has to be done.
pub fn gc_safepoint_moving_minor(
    s: &mut GcState,
    sched: &mut GcSchedule,
    cfg: &GcConfig,
    heap: &HeapReadings,
) -> (a: SafepointAction)
    ensures
        (SafepointStep { state: *final(s), sched: *final(sched), action: a }) == at_safepoint(*old(s), *old(sched), *cfg, *heap),
{
    if s.in_alloc || s.suppressed || gc_blocked_by_unsafe_zone(s) || s.root_lock_depth != 0
        || s.cycle_active {
        return SafepointAction::Idle;
    }
    let scheduled: bool = schedule_tick(sched);
    s.safepoint_pending = false;
    let kind: GcTriggerKind = match gc_budgeted_due_trigger(s, cfg, heap) {
        Some(BudgetedGcTrigger::ArenaBytes) => GcTriggerKind::ArenaBytes,
        Some(BudgetedGcTrigger::MallocCount) => GcTriggerKind::MallocCount,
        Some(BudgetedGcTrigger::OldReclaim) => {
            if s.old_reclaim_in_progress {
                return SafepointAction::Idle;
            }
            *s = GcState { old_reclaim_in_progress: true, old_reclaim_pending: false, ..*s };
            return SafepointAction::ReclaimOld;
        },
        None => {
            if cfg.zeal {
                s.zeal_forced = s.zeal_forced.wrapping_add(1);
            } else if scheduled {
                note_schedule_forced_collection(sched);
            } else {
                return SafepointAction::Idle;
            }
            GcTriggerKind::ArenaBytes
        },
    };
    SafepointAction::CollectMinor {
        kind,
        pre_in_use: heap.arena_in_use,
        pre_count: heap.malloc_count,
    }
}

/// The full collection at a safepoint is over.
pub fn safepoint_reclaim_done(s: &mut GcState)
    ensures
        *final(s) == (GcState {
            old_reclaim_in_progress: false,
            old_reclaim_drains: old(s).old_reclaim_drains.wrapping_add(1),
            ..*old(s)
        }),
{
    *s = GcState {
        old_reclaim_in_progress: false,
        old_reclaim_drains: s.old_reclaim_drains.wrapping_add(1),
        ..*s
    };
}

/// The minor collection at a safepoint is over; `heap` is read after it.
pub fn safepoint_minor_done(
    s: &mut GcState,
    cfg: &GcConfig,
    kind: GcTriggerKind,
    pre_in_use: usize,
    pre_count: usize,
    outcome: GcOutcome,
    heap: &HeapReadings,
)
    requires
        old(s).well_formed(),
        heap.countable(),
    ensures
        *final(s) == (GcState {
            nursery_drains: old(s).nursery_drains.wrapping_add(1),
            ..direct_finished(*old(s), *cfg, kind, pre_in_use, pre_count, outcome, *heap)
        }),
        final(s).well_formed(),
{
    finish_direct_collection(s, cfg, kind, pre_in_use, pre_count, outcome, heap);
    s.nursery_drains = s.nursery_drains.wrapping_add(1);
}

/// A loop's poll for a collection: a safepoint, if loops poll at all and a
/// collection waits, or zeal or the schedule may ask for one.
pub fn js_gc_loop_safepoint(
    s: &mut GcState,
    sched: &mut GcSchedule,
    cfg: &GcConfig,
    heap: &HeapReadings,
) -> (a: SafepointAction)
    ensures
        (SafepointStep { state: *final(s), sched: *final(sched), action: a }) == if cfg.moving_loop_polls && (old(s).safepoint_pending
            || cfg.zeal || old(sched).setting is Some) {
            at_safepoint(*old(s), *old(sched), *cfg, *heap)
        } else {
            SafepointStep { state: *old(s), sched: *old(sched), action: SafepointAction::Idle }
        },
{
    if !cfg.moving_loop_polls {
        return SafepointAction::Idle;
    }
    if !s.safepoint_pending && !cfg.zeal && !gc_schedule_enabled(sched) {
        return SafepointAction::Idle;
    }
    gc_safepoint_moving_minor(s, sched, cfg, heap)
}

// ---------------------------------------------------------------------------
// Laws
// ---------------------------------------------------------------------------

/// After a collection the trigger leaves the least headroom above what there
/// is, and goes beyond the ceiling for nothing else.
pub proof fn law_trigger_leaves_headroom_under_the_ceiling(
    cfg: GcConfig,
    total: usize,
    step: usize,
)
    ensures
        next_arena_trigger(cfg, total, step) >= total.saturating_add(cfg.headroom_floor),
        next_arena_trigger(cfg, total, step) <= cfg.trigger_ceiling || next_arena_trigger(
            cfg,
            total,
            step,
        ) == total.saturating_add(cfg.headroom_floor),
{
}

/// The adaptive steps stay within their bounds, whatever collections achieve.
pub proof fn law_steps_stay_bounded(
    s: GcState,
    cfg: GcConfig,
    pre: usize,
    outcome: GcOutcome,
    heap: HeapReadings,
)
    requires
        s.well_formed(),
    ensures
        arena_finished(s, cfg, pre, outcome, heap).well_formed(),
        malloc_finished(s, pre, outcome, heap).well_formed(),
{
}

/// The first wait for a safepoint is always granted, and no wait lets the
/// arena grow beyond the slack.
pub proof fn law_waiting_is_granted_and_bounded(arena_total: usize, base: usize, slack: usize)
    ensures
        may_wait(arena_total, None, slack),
        may_wait(arena_total, Some(base), slack) ==> arena_total < base.saturating_add(slack),
{
}

/// A check that is not allowed does nothing and changes nothing.
pub proof fn law_blocked_checks_do_nothing(s: GcState, cfg: GcConfig, heap: HeapReadings)
    requires
        s.step_active || s.suppressed || s.in_unsafe_zone() || (s.in_alloc && !s.cycle_active),
    ensures
        checked(s, cfg, heap) == (CheckStep { state: s, action: CheckAction::Nothing }),
{
}

/// While the roots are locked no collection starts, and the check is not
/// forgotten.
pub proof fn law_locked_checks_are_deferred(s: GcState, cfg: GcConfig, heap: HeapReadings)
    requires
        s.root_lock_depth != 0,
        !check_blocked(s),
    ensures
        checked(s, cfg, heap).action == CheckAction::Nothing,
        checked(s, cfg, heap).state.deferred != DeferredGcRequest::Nothing,
{
}

/// A reclaim of old bytes never starts inside another one.
pub proof fn law_old_reclaim_does_not_nest(
    s: GcState,
    sched: GcSchedule,
    cfg: GcConfig,
    heap: HeapReadings,
)
    requires
        s.old_reclaim_in_progress,
    ensures
        checked(s, cfg, heap).action != CheckAction::ReclaimOld,
        at_safepoint(s, sched, cfg, heap).action != SafepointAction::ReclaimOld,
{
}

/// A check that finds nothing due asks for nothing, unless a cycle is under
/// way already.
pub proof fn law_no_pressure_no_work(s: GcState, cfg: GcConfig, heap: HeapReadings)
    requires
        due(s, cfg, heap) is None,
        !s.cycle_active,
    ensures
        checked(s, cfg, heap).action == CheckAction::Nothing,
{
}

/// A suppressed parse never lowers the point at which a collection is due.
pub proof fn law_parse_bumps_only_raise(
    s: GcState,
    cfg: GcConfig,
    current: usize,
    bytes_now: usize,
)
    ensures
        arena_trigger(bumped(s, cfg, current, bytes_now), cfg) >= arena_trigger(s, cfg),
{
}

/// Larger parses raise the trigger once in a cycle; tiny ones never beyond
/// the ceiling.
pub proof fn law_parse_bumps_are_bounded(
    s: GcState,
    cfg: GcConfig,
    current: usize,
    bytes_now: usize,
)
    ensures
        !parse_was_tiny(s, bytes_now) && s.trigger_bumped ==> bumped(
            s,
            cfg,
            current,
            bytes_now,
        ).next_trigger == s.next_trigger,
        parse_was_tiny(s, bytes_now) ==> bumped(s, cfg, current, bytes_now).next_trigger
            == s.next_trigger || bumped(s, cfg, current, bytes_now).next_trigger
            <= cfg.trigger_ceiling,
{
}

/// A window without moves leaves the suppression as it found it, inside
/// another window too.
pub proof fn law_suppress_scopes_nest(s: GcState)
    ensures
        s.scope_opened().scope_closed(s.suppressed) == s,
{
}

/// A blocked safepoint consumes no slot of the schedule and changes nothing.
pub proof fn law_blocked_safepoints_do_not_tick(
    s: GcState,
    sched: GcSchedule,
    cfg: GcConfig,
    heap: HeapReadings,
)
    requires
        safepoint_blocked(s),
    ensures
        at_safepoint(s, sched, cfg, heap) == (SafepointStep {
            state: s,
            sched,
            action: SafepointAction::Idle,
        }),
{
}

/// A safepoint that the schedule declines, with nothing due and no zeal, does
/// not collect, but consumes its slot.
pub proof fn law_declined_safepoints_tick(
    s: GcState,
    sched: GcSchedule,
    cfg: GcConfig,
    heap: HeapReadings,
)
    requires
        !safepoint_blocked(s),
        due(GcState { safepoint_pending: false, ..s }, cfg, heap) is None,
        !cfg.zeal,
        !sched.ticked().selected(),
    ensures
        at_safepoint(s, sched, cfg, heap).action == SafepointAction::Idle,
        at_safepoint(s, sched, cfg, heap).sched == sched.ticked(),
{
}

/// A selected safepoint collects though nothing is due, and the collection is
/// counted.
pub proof fn law_selected_safepoints_collect(
    s: GcState,
    sched: GcSchedule,
    cfg: GcConfig,
    heap: HeapReadings,
)
    requires
        !safepoint_blocked(s),
        due(GcState { safepoint_pending: false, ..s }, cfg, heap) is None,
        !cfg.zeal,
        sched.ticked().selected(),
    ensures
        at_safepoint(s, sched, cfg, heap).action is CollectMinor,
        at_safepoint(s, sched, cfg, heap).sched.forced == sched.forced.wrapping_add(1),
{
}

/// The schedule only adds collections: whatever pressure asks for at a
/// safepoint is asked for under any schedule.
pub proof fn law_schedule_never_drops_a_collection(
    s: GcState,
    a: GcSchedule,
    b: GcSchedule,
    cfg: GcConfig,
    heap: HeapReadings,
)
    requires
        due(GcState { safepoint_pending: false, ..s }, cfg, heap) is Some,
    ensures
        at_safepoint(s, a, cfg, heap).action == at_safepoint(s, b, cfg, heap).action,
        at_safepoint(s, a, cfg, heap).state == at_safepoint(s, b, cfg, heap).state,
{
}

/// Without a seed a safepoint leaves the schedule alone and acts on pressure
/// and zeal only.
pub proof fn law_unset_schedule_is_inert(
    s: GcState,
    sched: GcSchedule,
    cfg: GcConfig,
    heap: HeapReadings,
)
    requires
        sched.setting is None,
    ensures
        at_safepoint(s, sched, cfg, heap).sched == sched,
        !cfg.zeal && due(GcState { safepoint_pending: false, ..s }, cfg, heap) is None
            ==> at_safepoint(s, sched, cfg, heap).action == SafepointAction::Idle,
{
}

/// Side buffers that are freed were counted once: allocating and freeing the
/// same bytes leaves the count as it was, unless it had hit its limit.
pub proof fn law_side_buffers_balance(s: GcState, bytes: usize)
    requires
        s.side_live_bytes + bytes <= usize::MAX,
    ensures
        side_counted(s, bytes).side_live_bytes.saturating_sub(bytes) == s.side_live_bytes,
{
}

/// What a safepoint finds: the collector's state, the settings and the heap.
pub ghost struct SafepointInput {
    pub state: GcState,
    pub cfg: GcConfig,
    pub heap: HeapReadings,
}

/// The schedule after some safepoints.
pub open spec fn after_safepoints(sched: GcSchedule, inputs: Seq<SafepointInput>) -> GcSchedule
    decreases inputs.len(),
{
    if inputs.len() == 0 {
        sched
    } else {
        let i = inputs.last();
        at_safepoint(i.state, after_safepoints(sched, inputs.drop_last()), i.cfg, i.heap).sched
    }
}

/// The mode is off, or its rate is zero.
pub open spec fn never_selects(sched: GcSchedule) -> bool {
    match sched.setting {
        None => true,
        Some((_, threshold)) => threshold == 0,
    }
}

/// How many safepoints of a run the schedule sees: all that are not blocked,
/// where the mode is on.
pub open spec fn seen_in(sched: GcSchedule, inputs: Seq<SafepointInput>) -> int
    decreases inputs.len(),
{
    if inputs.len() == 0 {
        0
    } else {
        seen_in(sched, inputs.drop_last()) + if sched.setting is Some && !safepoint_blocked(
            inputs.last().state,
        ) {
            1int
        } else {
            0
        }
    }
}

/// How many collections the schedule forces in a run of safepoints: one at
/// each safepoint that moves the count on.
pub open spec fn forced_in(sched: GcSchedule, inputs: Seq<SafepointInput>) -> int
    decreases inputs.len(),
{
    if inputs.len() == 0 {
        0
    } else {
        let before = after_safepoints(sched, inputs.drop_last());
        forced_in(sched, inputs.drop_last()) + if after_safepoints(sched, inputs).forced
            != before.forced {
            1int
        } else {
            0
        }
    }
}

/// What one safepoint does to the counts.
proof fn lemma_safepoint_counts(i: SafepointInput, sched: GcSchedule)
    ensures
        ({
            let after = at_safepoint(i.state, sched, i.cfg, i.heap).sched;
            &&& after.setting == sched.setting
            &&& if sched.setting is Some && !safepoint_blocked(i.state) {
                after.safepoints == shown(sched.safepoints + 1)
            } else {
                after == sched
            }
            &&& after.forced == sched.forced || after.forced == shown(sched.forced + 1)
            &&& never_selects(sched) ==> after.forced == sched.forced
        }),
{
}

proof fn lemma_shown_step(n: int, k: int)
    ensures
        shown(shown(n) + k) == shown(n + k),
{
    vstd::arithmetic::div_mod::lemma_add_mod_noop(n, k, 0x1_0000_0000_0000_0000);
    vstd::arithmetic::div_mod::lemma_add_mod_noop(shown(n), k, 0x1_0000_0000_0000_0000);
    vstd::arithmetic::div_mod::lemma_mod_twice(n, 0x1_0000_0000_0000_0000);
}

/// Over a run of safepoints the schedule forces no more collections than it
/// sees safepoints, and none at all at a rate of zero. Where the mode is on
/// and no safepoint is blocked, each of them is seen. The two counts show as
/// much, starting over past 64 bits.
pub proof fn law_forced_collections_are_bounded(sched: GcSchedule, inputs: Seq<SafepointInput>)
    ensures
        ({
            let after = after_safepoints(sched, inputs);
            let seen = seen_in(sched, inputs);
            let forced = forced_in(sched, inputs);
            &&& after.setting == sched.setting
            &&& after.safepoints == shown(sched.safepoints + seen)
            &&& after.forced == shown(sched.forced + forced)
            &&& 0 <= forced <= seen <= inputs.len()
            &&& never_selects(sched) ==> forced == 0 && after.forced == sched.forced
            &&& sched.setting is Some && (forall|i: int|
                0 <= i < inputs.len() ==> !safepoint_blocked(#[trigger] inputs[i].state))
                ==> seen == inputs.len()
            &&& sched.forced <= sched.safepoints && sched.safepoints + inputs.len() <= u64::MAX
                ==> after.forced <= after.safepoints
        }),
    decreases inputs.len(),
{
    if inputs.len() > 0 {
        let rest = inputs.drop_last();
        law_forced_collections_are_bounded(sched, rest);
        let before = after_safepoints(sched, rest);
        lemma_safepoint_counts(inputs.last(), before);
        lemma_shown_step(sched.safepoints + seen_in(sched, rest), 1);
        lemma_shown_step(sched.forced + forced_in(sched, rest), 1);
        if forall|i: int| 0 <= i < inputs.len() ==> !safepoint_blocked(#[trigger] inputs[i].state) {
            assert forall|i: int| 0 <= i < rest.len() implies !safepoint_blocked(
                #[trigger] rest[i].state,
            ) by {
                assert(!safepoint_blocked(inputs[i].state));
            }
            assert(!safepoint_blocked(inputs[inputs.len() - 1].state));
        }
    }
}

} // verus!
