//! Which collection runs, and what may stop it.

use vstd::prelude::*;
use crate::gc_budget::{minor_plan, plan_minor, MinorPlan};
use crate::gc_policy::{
    arena_growth_full_escalation_due, checked, copied_minor_promotion_handoff_due,
    defer_gc_request, gc_blocked_by_unsafe_zone, gc_check_trigger, growth_due, handoff_due,
    take_deferred_gc_request, CheckAction,
};
use crate::gc_types::{
    DeferredGcRequest, GcCollectionKind, GcConfig, GcProgressKind, GcState, GcTriggerKind,
    HeapReadings,
};
use crate::sums::{lemma_sum_monotone, lemma_sum_step, max_in, sum_of};

verus! {

// ---------------------------------------------------------------------------
// Minor collections
// ---------------------------------------------------------------------------

/// A minor collection that was asked for.
#[derive(Clone, Copy, PartialEq, Eq, Structural, Debug)]
pub enum MinorRequest {
    /// Put off until the roots are unlocked; nothing is freed now.
    Deferred,
    /// To be run now, as `gc_collect_minor_with_trigger` says.
    Run,
}

/// Ask for a minor collection. While the roots are locked it is put off.
pub fn gc_collect_minor(s: &mut GcState) -> (r: MinorRequest)
    ensures
        r == if old(s).root_lock_depth != 0 {
            MinorRequest::Deferred
        } else {
            MinorRequest::Run
        },
        *final(s) == old(s).with_deferred(DeferredGcRequest::DirectMinor),
{
    if defer_gc_request(s, DeferredGcRequest::DirectMinor) {
        MinorRequest::Deferred
    } else {
        MinorRequest::Run
    }
}

/// What a minor collection turns into.
#[allow(inconsistent_fields)]
#[derive(Clone, Copy, PartialEq, Eq, Structural, Debug)]
pub enum MinorRoute {
    /// A full collection. Where `prev_in_alloc` is there, the allocation flag
    /// is restored to it afterwards.
    Full { trigger_kind: GcTriggerKind, prev_in_alloc: Option<bool> },
    /// A minor collection: by copying, or else in place with this plan and
    /// progress. The allocation flag is restored afterwards.
    Minor { plan: MinorPlan, progress: GcProgressKind, prev_in_alloc: bool },
}

impl GcState {
    /// An allocation or a collection is under way.
    pub open spec fn allocating(self) -> GcState {
        GcState { in_alloc: true, ..self }
    }

    /// Larger parses may raise the trigger again.
    pub open spec fn unbumped(self) -> GcState {
        GcState { trigger_bumped: false, ..self }
    }
}

fn enter_alloc(s: &mut GcState)
    ensures
        *final(s) == old(s).allocating(),
{
    s.in_alloc = true;
}

/// The route of a minor collection. Without generations it is a full one; so
/// it is where it would promote too much, or where the arena has grown too
/// much since the last full one.
pub open spec fn route_of(
    s: GcState,
    cfg: GcConfig,
    heap: HeapReadings,
    schedule_on: bool,
    kind: GcTriggerKind,
) -> MinorRoute {
    if !cfg.gen_gc {
        MinorRoute::Full { trigger_kind: kind, prev_in_alloc: None }
    } else if handoff_due(s, cfg, heap, kind) {
        MinorRoute::Full {
            trigger_kind: GcTriggerKind::SurvivorPromotionBytes,
            prev_in_alloc: Some(s.in_alloc),
        }
    } else if growth_due(s, cfg, heap) {
        MinorRoute::Full { trigger_kind: kind, prev_in_alloc: Some(s.in_alloc) }
    } else {
        MinorRoute::Minor {
            plan: minor_plan(cfg, heap, schedule_on, false),
            progress: kind.progress(GcCollectionKind::Minor),
            prev_in_alloc: s.in_alloc,
        }
    }
}

/// The state in which a route is taken.
pub open spec fn on_route(s: GcState, route: MinorRoute) -> GcState {
    match route {
        MinorRoute::Full { prev_in_alloc: None, .. } => s.unbumped(),
        MinorRoute::Full { prev_in_alloc: Some(_), .. } => s.allocating().unbumped(),
        MinorRoute::Minor { .. } => s.allocating(),
    }
}

fn choose_route(
    s: &GcState,
    cfg: &GcConfig,
    heap: &HeapReadings,
    schedule_on: bool,
    trigger_kind: GcTriggerKind,
) -> (route: MinorRoute)
    ensures
        route == route_of(*s, *cfg, *heap, schedule_on, trigger_kind),
{
    if !cfg.gen_gc {
        return MinorRoute::Full { trigger_kind, prev_in_alloc: None };
    }
    if copied_minor_promotion_handoff_due(s, cfg, heap, trigger_kind) {
        return MinorRoute::Full {
            trigger_kind: GcTriggerKind::SurvivorPromotionBytes,
            prev_in_alloc: Some(s.in_alloc),
        };
    }
    if arena_growth_full_escalation_due(s, cfg, heap) {
        return MinorRoute::Full { trigger_kind, prev_in_alloc: Some(s.in_alloc) };
    }
    MinorRoute::Minor {
        plan: plan_minor(cfg, heap, schedule_on, false),
        progress: trigger_kind.progress_kind(GcCollectionKind::Minor),
        prev_in_alloc: s.in_alloc,
    }
}

fn take_route(s: &mut GcState, route: &MinorRoute)
    ensures
        *final(s) == on_route(*old(s), *route),
{
    match route {
        MinorRoute::Full { prev_in_alloc: None, .. } => {
            gc_collect_full_mark_sweep_with_trigger(s);
        },
        MinorRoute::Full { prev_in_alloc: Some(_), .. } => {
            enter_alloc(s);
            gc_collect_full_mark_sweep_with_trigger(s);
        },
        MinorRoute::Minor { .. } => {
            enter_alloc(s);
        },
    }
}

/// Route a minor collection, once a parked cycle has been drained.
pub fn gc_collect_minor_with_trigger(
    s: &mut GcState,
    cfg: &GcConfig,
    heap: &HeapReadings,
    schedule_on: bool,
    trigger_kind: GcTriggerKind,
) -> (route: MinorRoute)
    ensures
        route == route_of(*old(s), *cfg, *heap, schedule_on, trigger_kind),
        *final(s) == on_route(*old(s), route),
{
    let route: MinorRoute = choose_route(s, cfg, heap, schedule_on, trigger_kind);
    take_route(s, &route);
    route
}

/// A minor collection is over: restore the allocation flag.
pub fn restore_minor_in_alloc(s: &mut GcState, prev_in_alloc: bool)
    ensures
        *final(s) == (GcState { in_alloc: prev_in_alloc, ..*old(s) }),
{
    s.in_alloc = prev_in_alloc;
}

/// A full collection starts: larger parses may raise the trigger again.
pub fn gc_collect_full_mark_sweep_with_trigger(s: &mut GcState)
    ensures
        *final(s) == old(s).unbumped(),
{
    s.trigger_bumped = false;
}

/// A collection of whatever kind suits: a minor one with generations, a full
/// one without. Larger parses may raise the trigger again.
pub fn gc_collect_inner_with_trigger(s: &mut GcState, cfg: &GcConfig) -> (kind: GcCollectionKind)
    ensures
        kind == if cfg.gen_gc {
            GcCollectionKind::Minor
        } else {
            GcCollectionKind::Full
        },
        *final(s) == old(s).unbumped(),
{
    s.trigger_bumped = false;
    if cfg.gen_gc {
        GcCollectionKind::Minor
    } else {
        GcCollectionKind::Full
    }
}

// ---------------------------------------------------------------------------
// Emergencies
// ---------------------------------------------------------------------------

/// May memory be reclaimed right now, in an emergency? Not inside another
/// emergency, an allocation or a cycle, nor while collections are suppressed
/// or an unsafe zone is open. Where it may, a full collection follows, and
/// then `emergency_done`.
pub fn gc_try_emergency_reclaim(s: &mut GcState) -> (r: bool)
    ensures
        r == !(old(s).in_emergency || old(s).in_alloc || old(s).cycle_active
            || old(s).suppressed || old(s).in_unsafe_zone()),
        *final(s) == (GcState { in_emergency: old(s).in_emergency || r, ..*old(s) }),
{
    if s.in_emergency || s.in_alloc || s.cycle_active || s.suppressed
        || gc_blocked_by_unsafe_zone(s) {
        return false;
    }
    s.in_emergency = true;
    true
}

/// The emergency collection is over.
pub fn emergency_done(s: &mut GcState)
    ensures
        *final(s) == (GcState { in_emergency: false, ..*old(s) }),
{
    s.in_emergency = false;
}

// ---------------------------------------------------------------------------
// Manual collections and unsafe zones
// ---------------------------------------------------------------------------

/// Native work starts that may hold references.
pub fn js_gc_enter_unsafe_zone(s: &mut GcState)
    ensures
        *final(s) == (GcState { unsafe_zones: old(s).unsafe_zones.wrapping_add(1), ..*old(s) }),
{
    s.unsafe_zones = s.unsafe_zones.wrapping_add(1);
}

/// Native work ends that may have held references.
pub fn js_gc_exit_unsafe_zone(s: &mut GcState)
    ensures
        *final(s) == (GcState { unsafe_zones: old(s).unsafe_zones.wrapping_sub(1), ..*old(s) }),
{
    s.unsafe_zones = s.unsafe_zones.wrapping_sub(1);
}

/// What becomes of a collection that the program asks for.
#[derive(Clone, Copy, PartialEq, Eq, Structural, Debug)]
pub enum ManualAction {
    /// Nothing, for an unsafe zone is open; the first time with a warning.
    Skipped { warn: bool },
    /// It is put off until the roots are unlocked.
    Deferred,
    /// A full collection with the native stack scanned, then the callbacks of
    /// finalized objects.
    Collect,
}

/// A collection that the program asks for: the state after it, and what
/// becomes of it.
pub ghost struct ManualStep {
    pub state: GcState,
    pub action: ManualAction,
}

/// A collection that the program asks for.
pub open spec fn manual_requested(s: GcState) -> ManualStep {
    if s.in_unsafe_zone() {
        ManualStep {
            state: GcState { unsafe_warned: true, ..s },
            action: ManualAction::Skipped { warn: !s.unsafe_warned },
        }
    } else if s.root_lock_depth != 0 {
        ManualStep {
            state: s.with_deferred(DeferredGcRequest::Collect(GcTriggerKind::Manual)),
            action: ManualAction::Deferred,
        }
    } else {
        ManualStep { state: s, action: ManualAction::Collect }
    }
}

/// A manual collection is skipped for an unsafe zone: say so, once. The result
/// is whether to warn now.
pub fn unsafe_zone_manual_gc_warning(s: &mut GcState) -> (warn: bool)
    ensures
        warn == !old(s).unsafe_warned,
        *final(s) == (GcState { unsafe_warned: true, ..*old(s) }),
{
    let warn: bool = !s.unsafe_warned;
    s.unsafe_warned = true;
    warn
}

/// Ask for a collection.
pub fn js_gc_collect(s: &mut GcState) -> (a: ManualAction)
    ensures
        (ManualStep { state: *final(s), action: a }) == manual_requested(*old(s)),
{
    if gc_blocked_by_unsafe_zone(s) {
        return ManualAction::Skipped { warn: unsafe_zone_manual_gc_warning(s) };
    }
    if defer_gc_request(s, DeferredGcRequest::Collect(GcTriggerKind::Manual)) {
        return ManualAction::Deferred;
    }
    ManualAction::Collect
}

/// Ask for a collection, through the collector's module.
pub fn js_gc_module_collect(s: &mut GcState) -> (a: ManualAction)
    ensures
        (ManualStep { state: *final(s), action: a }) == manual_requested(*old(s)),
{
    js_gc_collect(s)
}

/// What becomes of a minor collection that the program asks for.
#[derive(Clone, Copy, PartialEq, Eq, Structural, Debug)]
pub enum ManualMinorAction {
    /// Nothing, for an unsafe zone is open; the first time with a warning.
    Skipped { warn: bool },
    /// A minor collection, or its deferral, with the native stack scanned.
    Request(MinorRequest),
}

/// Ask for a minor collection, from the program.
pub fn js_gc_module_minor(s: &mut GcState) -> (a: ManualMinorAction)
    ensures
        old(s).in_unsafe_zone() ==> a == (ManualMinorAction::Skipped {
            warn: !old(s).unsafe_warned,
        }) && *final(s) == (GcState { unsafe_warned: true, ..*old(s) }),
        !old(s).in_unsafe_zone() ==> a == ManualMinorAction::Request(
            if old(s).root_lock_depth != 0 {
                MinorRequest::Deferred
            } else {
                MinorRequest::Run
            },
        ) && *final(s) == old(s).with_deferred(DeferredGcRequest::DirectMinor),
{
    if gc_blocked_by_unsafe_zone(s) {
        return ManualMinorAction::Skipped { warn: unsafe_zone_manual_gc_warning(s) };
    }
    ManualMinorAction::Request(gc_collect_minor(s))
}

/// Did a hint that the program is idle lead to a collection? The two numbers
/// are the collections before and after the check of the triggers.
pub fn js_gc_module_idle_hint(before: u64, after: u64) -> (ran: bool)
    ensures
        ran == (before != after),
{
    after != before
}

/// What a request asks for that was put off while the roots were locked.
#[derive(Clone, Copy, PartialEq, Eq, Structural, Debug)]
pub enum FlushAction {
    /// Nothing.
    Nothing,
    /// A warning that a manual collection is skipped.
    Warn,
    /// What a check of the triggers asks for.
    Check(CheckAction),
    /// A minor collection.
    DirectMinor,
    /// A full collection with the native stack scanned, then the callbacks of
    /// finalized objects.
    ManualCollect,
    /// A collection of whatever kind suits, for this trigger.
    Collect(GcTriggerKind),
}

/// Flushing a request: the state after it, and what it asks for.
pub ghost struct FlushStep {
    pub state: GcState,
    pub action: FlushAction,
}

/// The request that was put off, taken up. During a panic it is dropped, and
/// in an unsafe zone too.
pub open spec fn flushed(s: GcState, cfg: GcConfig, heap: HeapReadings, panicking: bool) -> FlushStep {
    let taken = GcState { deferred: DeferredGcRequest::Nothing, ..s };
    if panicking || s.deferred == DeferredGcRequest::Nothing {
        FlushStep { state: taken, action: FlushAction::Nothing }
    } else if s.deferred == DeferredGcRequest::CheckTrigger {
        let c = checked(taken, cfg, heap);
        FlushStep { state: c.state, action: FlushAction::Check(c.action) }
    } else if s.deferred == DeferredGcRequest::Collect(GcTriggerKind::Manual) {
        if s.in_unsafe_zone() {
            FlushStep {
                state: GcState { unsafe_warned: true, ..taken },
                action: if s.unsafe_warned {
                    FlushAction::Nothing
                } else {
                    FlushAction::Warn
                },
            }
        } else {
            FlushStep { state: taken, action: FlushAction::ManualCollect }
        }
    } else if s.in_unsafe_zone() {
        FlushStep { state: taken, action: FlushAction::Nothing }
    } else {
        FlushStep {
            state: taken,
            action: match s.deferred {
                DeferredGcRequest::Collect(kind) => FlushAction::Collect(kind),
                _ => FlushAction::DirectMinor,
            },
        }
    }
}

/// Take up the request that was put off, once the roots are unlocked.
pub fn flush_deferred_gc_request(
    s: &mut GcState,
    cfg: &GcConfig,
    heap: &HeapReadings,
    panicking: bool,
) -> (a: FlushAction)
    requires
        cfg.debt_bytes_per_unit > 0,
    ensures
        (FlushStep { state: *final(s), action: a }) == flushed(*old(s), *cfg, *heap, panicking),
{
    let request: DeferredGcRequest = take_deferred_gc_request(s);
    if panicking {
        return FlushAction::Nothing;
    }
    match request {
        DeferredGcRequest::Nothing => FlushAction::Nothing,
        DeferredGcRequest::CheckTrigger => FlushAction::Check(gc_check_trigger(s, cfg, heap)),
        DeferredGcRequest::DirectMinor => {
            if gc_blocked_by_unsafe_zone(s) {
                return FlushAction::Nothing;
            }
            FlushAction::DirectMinor
        },
        DeferredGcRequest::Collect(GcTriggerKind::Manual) => {
            if gc_blocked_by_unsafe_zone(s) {
                return if unsafe_zone_manual_gc_warning(s) {
                    FlushAction::Warn
                } else {
                    FlushAction::Nothing
                };
            }
            FlushAction::ManualCollect
        },
        DeferredGcRequest::Collect(kind) => {
            if gc_blocked_by_unsafe_zone(s) {
                return FlushAction::Nothing;
            }
            FlushAction::Collect(kind)
        },
    }
}

// ---------------------------------------------------------------------------
// Snapshots and statistics
// ---------------------------------------------------------------------------

/// The adaptive figures at one moment, for traces.
#[derive(Clone, Copy, PartialEq, Eq, Structural, Debug)]
pub struct GcStepSnapshot {
    pub arena_step_bytes: usize,
    pub next_arena_trigger_bytes: usize,
    pub malloc_step: usize,
    pub next_malloc_trigger: usize,
    pub trigger_bumped: bool,
}

impl GcStepSnapshot {
    /// The adaptive figures of a state.
    pub open spec fn of(s: GcState) -> GcStepSnapshot {
        GcStepSnapshot {
            arena_step_bytes: s.step_bytes,
            next_arena_trigger_bytes: s.next_trigger,
            malloc_step: s.malloc_step,
            next_malloc_trigger: s.next_malloc_trigger,
            trigger_bumped: s.trigger_bumped,
        }
    }

    /// The adaptive figures now.
    pub fn current(s: &GcState) -> (r: GcStepSnapshot)
        ensures
            r == GcStepSnapshot::of(*s),
    {
        GcStepSnapshot {
            arena_step_bytes: s.step_bytes,
            next_arena_trigger_bytes: s.next_trigger,
            malloc_step: s.malloc_step,
            next_malloc_trigger: s.next_malloc_trigger,
            trigger_bumped: s.trigger_bumped,
        }
    }
}

/// A trigger, with the adaptive figures before the collection where traces
/// are recorded.
#[derive(Clone, Copy, PartialEq, Eq, Structural, Debug)]
pub struct GcTriggerSnapshot {
    pub kind: GcTriggerKind,
    pub steps_before: Option<GcStepSnapshot>,
}

impl GcTriggerSnapshot {
    /// Capture a trigger.
    pub fn capture(s: &GcState, cfg: &GcConfig, kind: GcTriggerKind) -> (r: GcTriggerSnapshot)
        ensures
            r.kind == kind,
            r.steps_before == if cfg.trace {
                Some(GcStepSnapshot::of(*s))
            } else {
                None
            },
    {
        GcTriggerSnapshot {
            kind,
            steps_before: if cfg.trace {
                Some(GcStepSnapshot::current(s))
            } else {
                None
            },
        }
    }
}

/// What the collector has done so far.
pub struct GcStats {
    pub collection_count: u64,
    pub total_freed_bytes: u64,
    pub last_pause_us: u64,
    pub max_pause_us: u64,
    /// The most recent pauses; the first `recent_len` are filled.
    pub recent_pauses_us: Vec<u64>,
    pub recent_len: u32,
}

/// The figures that hosts ask for.
#[derive(Clone, Copy, PartialEq, Eq, Structural, Debug)]
pub struct StatsReport {
    pub collections: u64,
    pub freed: u64,
    pub pause_us: u64,
}

/// The figures that hosts ask for.
pub fn js_gc_stats(stats: &GcStats) -> (r: StatsReport)
    ensures
        r == (StatsReport {
            collections: stats.collection_count,
            freed: stats.total_freed_bytes,
            pause_us: stats.last_pause_us,
        }),
{
    StatsReport {
        collections: stats.collection_count,
        freed: stats.total_freed_bytes,
        pause_us: stats.last_pause_us,
    }
}

impl GcStats {
    /// The recent pauses.
    pub open spec fn window(&self) -> Seq<u64> {
        if self.recent_len <= self.recent_pauses_us@.len() {
            self.recent_pauses_us@.take(self.recent_len as int)
        } else {
            self.recent_pauses_us@
        }
    }
}

/// Figures on pauses.
#[derive(Clone, Copy, PartialEq, Eq, Structural, Debug)]
pub struct PauseReport {
    pub max_us: u64,
    pub recent_max_us: u64,
    pub recent_avg_us: u64,
    pub recent_count: u64,
}

/// Figures on pauses: the longest of all, and the longest and the mean of the
/// recent ones.
pub fn js_gc_pause_stats(stats: &GcStats) -> (r: PauseReport)
    requires
        sum_of(stats.window()) <= u64::MAX,
    ensures
        r.max_us == stats.max_pause_us,
        r.recent_max_us == max_in(stats.window()),
        r.recent_avg_us == if stats.window().len() == 0 {
            0
        } else {
            sum_of(stats.window()) / stats.window().len() as int
        },
        r.recent_count == stats.recent_len,
{
    let filled: usize = stats.recent_pauses_us.len();
    let n: usize = if stats.recent_len as usize <= filled {
        stats.recent_len as usize
    } else {
        filled
    };
    let ghost window = stats.window();
    assert(n == window.len());
    let mut recent_max: u64 = 0;
    let mut sum: u64 = 0;
    let mut i: usize = 0;
    assert(window.take(0) =~= Seq::empty());
    while i < n
        invariant
            i <= n,
            n == window.len(),
            n <= stats.recent_pauses_us@.len(),
            forall|k: int| 0 <= k < n ==> window[k] == stats.recent_pauses_us@[k],
            sum_of(window) <= u64::MAX,
            recent_max == max_in(window.take(i as int)),
            sum == sum_of(window.take(i as int)),
        decreases n - i,
    {
        let p: u64 = stats.recent_pauses_us[i];
        assert(window.take(i + 1).drop_last() =~= window.take(i as int));
        proof {
            lemma_sum_step(window, i as int);
            lemma_sum_monotone(window, i as int, i + 1);
        }
        if p > recent_max {
            recent_max = p;
        }
        sum = sum + p;
        i = i + 1;
    }
    assert(window.take(n as int) =~= window);
    let recent_avg: u64 = if n == 0 {
        0
    } else {
        sum / n as u64
    };
    PauseReport {
        max_us: stats.max_pause_us,
        recent_max_us: recent_max,
        recent_avg_us: recent_avg,
        recent_count: stats.recent_len as u64,
    }
}

// ---------------------------------------------------------------------------
// Laws
// ---------------------------------------------------------------------------

/// A minor collection for which nothing speaks but its own trigger stays a
/// minor one.
pub proof fn law_minor_stays_minor(
    s: GcState,
    cfg: GcConfig,
    heap: HeapReadings,
    schedule_on: bool,
    kind: GcTriggerKind,
)
    requires
        cfg.gen_gc,
        !growth_due(s, cfg, heap),
        kind != GcTriggerKind::ArenaBytes && kind != GcTriggerKind::MallocCount,
    ensures
        route_of(s, cfg, heap, schedule_on, kind) is Minor,
{
}

/// Whatever the route, restoring the allocation flag gives back the flag that
/// was there before.
pub proof fn law_routes_restore_the_flag(
    s: GcState,
    cfg: GcConfig,
    heap: HeapReadings,
    schedule_on: bool,
    kind: GcTriggerKind,
)
    ensures
        ({
            let route = route_of(s, cfg, heap, schedule_on, kind);
            match route {
                MinorRoute::Full { prev_in_alloc, .. } => match prev_in_alloc {
                    Some(prev) => prev == s.in_alloc,
                    None => on_route(s, route).in_alloc == s.in_alloc,
                },
                MinorRoute::Minor { prev_in_alloc, .. } => prev_in_alloc == s.in_alloc,
            }
        }),
{
}

/// The warning about unsafe zones is given once at most.
pub proof fn law_unsafe_zone_warns_once(s: GcState)
    requires
        s.in_unsafe_zone(),
    ensures
        ({
            let first = manual_requested(s);
            let second = manual_requested(first.state);
            &&& first.action is Skipped
            &&& second.action == (ManualAction::Skipped { warn: false })
        }),
{
}

/// Entering and leaving an unsafe zone leaves things as they were.
pub proof fn law_unsafe_zones_balance(s: GcState)
    ensures
        s.unsafe_zones.wrapping_add(1).wrapping_sub(1) == s.unsafe_zones,
{
}

/// A request that was put off is taken up once: afterwards none is left, or
/// only one that its own check has put off.
pub proof fn law_flush_takes_the_request(
    s: GcState,
    cfg: GcConfig,
    heap: HeapReadings,
    panicking: bool,
)
    requires
        s.root_lock_depth == 0,
    ensures
        flushed(s, cfg, heap, panicking).state.deferred == DeferredGcRequest::Nothing,
{
}

/// During a panic no collection starts.
pub proof fn law_no_collection_while_panicking(s: GcState, cfg: GcConfig, heap: HeapReadings)
    ensures
        flushed(s, cfg, heap, true).action == FlushAction::Nothing,
{
}

} // verus!
