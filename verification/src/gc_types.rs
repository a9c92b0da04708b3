//! The collector's settings, readings and state.

use vstd::prelude::*;

verus! {

/// One mebibyte.
pub const MB: usize = 1024 * 1024;

/// The arena bytes at which the first collection runs.
pub const GC_THRESHOLD_INITIAL_BYTES: usize = 128 * 1024 * 1024;

/// The greatest adaptive step.
pub const GC_THRESHOLD_MAX_BYTES: usize = 1024 * 1024 * 1024;

/// The least adaptive step after it has been halved.
pub const GC_STEP_FLOOR_BYTES: usize = 16 * 1024 * 1024;

/// A suppressed parse that has grown the arena by no more than this is tiny.
pub const GC_SUPPRESSED_TINY_PARSE_BYTES: usize = 1024 * 1024;

/// The first step of the trigger by object count.
pub const GC_MALLOC_COUNT_STEP_INITIAL: usize = 100_000;

/// The greatest step of the trigger by object count.
pub const GC_MALLOC_COUNT_STEP_MAX: usize = 2_000_000;

/// The least step of the trigger by object count.
pub const GC_MALLOC_COUNT_STEP_MIN: usize = 10_000;

/// So many bytes of side buffers between two checks of the triggers.
pub const GC_EXTERNAL_SIDE_ALLOC_STEP: usize = 16 * 1024 * 1024;

/// The lesser of two numbers.
pub open spec fn least(a: usize, b: usize) -> usize {
    if a < b {
        a
    } else {
        b
    }
}

/// The greater of two numbers.
pub open spec fn greatest(a: usize, b: usize) -> usize {
    if a > b {
        a
    } else {
        b
    }
}

/// The lesser of two numbers.
pub fn least_of(a: usize, b: usize) -> (r: usize)
    ensures
        r == least(a, b),
{
    if a < b {
        a
    } else {
        b
    }
}

/// The greater of two numbers.
pub fn greatest_of(a: usize, b: usize) -> (r: usize)
    ensures
        r == greatest(a, b),
{
    if a > b {
        a
    } else {
        b
    }
}

/// A product that stops at the greatest number.
#[verifier::opaque]
pub open spec fn capped_product(a: usize, b: usize) -> usize {
    if a * b > usize::MAX {
        usize::MAX
    } else {
        (a * b) as usize
    }
}

/// A product that stops at the greatest number.
pub fn saturating_product(a: usize, b: usize) -> (r: usize)
    ensures
        r == capped_product(a, b),
{
    proof {
        reveal(capped_product);
    }
    match a.checked_mul(b) {
        Some(p) => p,
        None => usize::MAX,
    }
}

/// What a collection covers.
#[derive(Clone, Copy, PartialEq, Eq, Structural, Debug)]
pub enum GcCollectionKind {
    Minor,
    Full,
}

impl GcCollectionKind {
    /// The number by which hosts know the kind.
    pub open spec fn code(self) -> u32 {
        match self {
            GcCollectionKind::Minor => 1,
            GcCollectionKind::Full => 2,
        }
    }

    /// The number by which hosts know the kind.
    pub fn ffi_code(self) -> (c: u32)
        ensures
            c == self.code(),
    {
        match self {
            GcCollectionKind::Minor => 1,
            GcCollectionKind::Full => 2,
        }
    }

    /// The kind's name in traces.
    pub fn as_str(self) -> (s: &'static str)
        ensures
            s@ == match self {
                GcCollectionKind::Minor => "minor"@,
                GcCollectionKind::Full => "full"@,
            },
    {
        match self {
            GcCollectionKind::Minor => "minor",
            GcCollectionKind::Full => "full",
        }
    }
}

/// Why a collection runs.
#[derive(Clone, Copy, PartialEq, Eq, Structural, Debug)]
pub enum GcTriggerKind {
    ArenaBytes,
    MallocCount,
    OldGenBytes,
    SurvivorPromotionBytes,
    Emergency,
    Manual,
    Direct,
}

/// How a collection makes progress.
#[derive(Clone, Copy, PartialEq, Eq, Structural, Debug)]
pub enum GcProgressKind {
    /// In steps that the host drives.
    NormalIncremental,
    /// In steps paid for by allocation.
    MutatorAssist,
    /// At once, for an automatic trigger.
    LegacySynchronous,
    /// At once, minor, on request.
    ExplicitSynchronous,
    /// At once, full, on request.
    ExplicitFull,
    /// At once, full, for want of memory.
    EmergencyFull,
}

impl GcProgressKind {
    /// In bounded steps.
    pub open spec fn budgeted(self) -> bool {
        self == GcProgressKind::NormalIncremental || self == GcProgressKind::MutatorAssist
    }

    /// In bounded steps?
    pub fn is_budgeted(self) -> (r: bool)
        ensures
            r == self.budgeted(),
    {
        matches!(self, GcProgressKind::NormalIncremental | GcProgressKind::MutatorAssist)
    }
}

impl GcTriggerKind {
    /// The number by which hosts know the trigger.
    pub open spec fn code(self) -> u32 {
        match self {
            GcTriggerKind::ArenaBytes => 1,
            GcTriggerKind::MallocCount => 2,
            GcTriggerKind::OldGenBytes => 3,
            GcTriggerKind::SurvivorPromotionBytes => 4,
            GcTriggerKind::Manual => 5,
            GcTriggerKind::Direct => 6,
            GcTriggerKind::Emergency => 7,
        }
    }

    /// The number by which hosts know the trigger.
    pub fn ffi_code(self) -> (c: u32)
        ensures
            c == self.code(),
    {
        match self {
            GcTriggerKind::ArenaBytes => 1,
            GcTriggerKind::MallocCount => 2,
            GcTriggerKind::OldGenBytes => 3,
            GcTriggerKind::SurvivorPromotionBytes => 4,
            GcTriggerKind::Manual => 5,
            GcTriggerKind::Direct => 6,
            GcTriggerKind::Emergency => 7,
        }
    }

    /// The trigger's name in traces.
    pub fn as_str(self) -> (s: &'static str)
        ensures
            s@ == match self {
                GcTriggerKind::ArenaBytes => "arena_bytes"@,
                GcTriggerKind::MallocCount => "malloc_count"@,
                GcTriggerKind::OldGenBytes => "old_gen_bytes"@,
                GcTriggerKind::SurvivorPromotionBytes => "survivor_promotion_bytes"@,
                GcTriggerKind::Emergency => "emergency"@,
                GcTriggerKind::Manual => "manual"@,
                GcTriggerKind::Direct => "direct"@,
            },
    {
        match self {
            GcTriggerKind::ArenaBytes => "arena_bytes",
            GcTriggerKind::MallocCount => "malloc_count",
            GcTriggerKind::OldGenBytes => "old_gen_bytes",
            GcTriggerKind::SurvivorPromotionBytes => "survivor_promotion_bytes",
            GcTriggerKind::Emergency => "emergency",
            GcTriggerKind::Manual => "manual",
            GcTriggerKind::Direct => "direct",
        }
    }

    /// How a synchronous collection for this trigger makes progress.
    pub open spec fn progress(self, kind: GcCollectionKind) -> GcProgressKind {
        if self == GcTriggerKind::Emergency && kind == GcCollectionKind::Full {
            GcProgressKind::EmergencyFull
        } else if self == GcTriggerKind::Manual && kind == GcCollectionKind::Full {
            GcProgressKind::ExplicitFull
        } else if self == GcTriggerKind::Manual {
            GcProgressKind::ExplicitSynchronous
        } else {
            GcProgressKind::LegacySynchronous
        }
    }

    /// How a synchronous collection for this trigger makes progress.
    pub fn progress_kind(self, collection_kind: GcCollectionKind) -> (p: GcProgressKind)
        ensures
            p == self.progress(collection_kind),
    {
        match (self, collection_kind) {
            (GcTriggerKind::Emergency, GcCollectionKind::Full) => GcProgressKind::EmergencyFull,
            (GcTriggerKind::Manual, GcCollectionKind::Full) => GcProgressKind::ExplicitFull,
            (GcTriggerKind::Manual, GcCollectionKind::Minor) => GcProgressKind::ExplicitSynchronous,
            _ => GcProgressKind::LegacySynchronous,
        }
    }
}

/// A collection that was asked for while the roots were locked.
#[derive(Clone, Copy, PartialEq, Eq, Structural, Debug)]
pub enum DeferredGcRequest {
    /// Nothing was asked for.
    Nothing,
    /// Check the triggers.
    CheckTrigger,
    /// Run a minor collection.
    DirectMinor,
    /// Run a collection for this trigger.
    Collect(GcTriggerKind),
}

impl DeferredGcRequest {
    /// How pressing a request is. A manual collection is the most pressing.
    pub open spec fn rank(self) -> int {
        match self {
            DeferredGcRequest::Nothing => 0,
            DeferredGcRequest::CheckTrigger => 1,
            DeferredGcRequest::DirectMinor => 2,
            DeferredGcRequest::Collect(kind) => if kind == GcTriggerKind::Manual {
                4
            } else {
                3
            },
        }
    }

    /// The one request that stands for two: the more pressing, and of two
    /// equally pressing ones the earlier.
    pub open spec fn merged(self, next: DeferredGcRequest) -> DeferredGcRequest {
        if self.rank() >= next.rank() {
            self
        } else {
            next
        }
    }

    /// The one request that stands for two.
    pub fn merge(self, next: DeferredGcRequest) -> (r: DeferredGcRequest)
        ensures
            r == self.merged(next),
    {
        match (self, next) {
            (DeferredGcRequest::Nothing, request) => request,
            (request, DeferredGcRequest::Nothing) => request,
            (DeferredGcRequest::Collect(GcTriggerKind::Manual), _) => self,
            (_, DeferredGcRequest::Collect(GcTriggerKind::Manual)) => next,
            (DeferredGcRequest::Collect(kind), _) => DeferredGcRequest::Collect(kind),
            (_, DeferredGcRequest::Collect(kind)) => DeferredGcRequest::Collect(kind),
            (DeferredGcRequest::DirectMinor, _) => DeferredGcRequest::DirectMinor,
            (_, DeferredGcRequest::DirectMinor) => DeferredGcRequest::DirectMinor,
            (DeferredGcRequest::CheckTrigger, DeferredGcRequest::CheckTrigger) => {
                DeferredGcRequest::CheckTrigger
            },
        }
    }
}

/// The collector's settings, and the figures derived from the device's heap
/// budget.
#[derive(Clone, Copy, PartialEq, Eq, Structural, Debug)]
pub struct GcConfig {
    /// The generational collector is on.
    pub gen_gc: bool,
    /// Collections may move objects.
    pub evacuate: bool,
    /// Moving objects was asked for by setting.
    pub force_evacuate: bool,
    /// The scavenging young generation is on.
    pub scavenge: bool,
    /// Loops poll for collections, which then move objects.
    pub moving_loop_polls: bool,
    /// Collect at every safepoint.
    pub zeal: bool,
    /// Traces are recorded.
    pub trace: bool,
    /// Nursery cap of the scavenger.
    pub nursery_cap: usize,
    /// Below this many bytes in use no growth forces a full collection; 0
    /// switches that off.
    pub pacing_floor: usize,
    /// Growth, as a multiple of what was in use after the last full
    /// collection, that forces the next one.
    pub pacing_growth: usize,
    /// Ceiling of the trigger by arena bytes.
    pub trigger_ceiling: usize,
    /// Least headroom above what is in use after a collection.
    pub headroom_floor: usize,
    /// Arena bytes in use from which tiny parses ask for a collection.
    pub tiny_parse_in_use: usize,
    /// The same where the generational collector is off.
    pub tiny_parse_in_use_full: usize,
    /// Old bytes from which they are reclaimed.
    pub old_reclaim_threshold: usize,
    /// Growth of old bytes from which they are reclaimed again.
    pub old_reclaim_growth: usize,
    /// Survivor bytes from which a minor collection gives way to a full one.
    pub handoff_min: usize,
    /// Growth for which a deferred collection may wait for a safepoint.
    pub defer_slack: usize,
    /// Work units of an assist without debt.
    pub assist_work_units: usize,
    /// Arena debt that costs one more work unit.
    pub debt_bytes_per_unit: u64,
    /// Work units of a step at a runtime safepoint, where there are such
    /// steps.
    pub safepoint_work_units: Option<usize>,
}

/// How far the heap is beyond its goals.
#[derive(Clone, Copy, PartialEq, Eq, Structural, Debug)]
pub struct GcDebt {
    pub arena_debt_bytes: u64,
    pub malloc_debt_objects: u64,
    pub old_reclaim_debt_bytes: u64,
}

/// Readings of the heap at one moment.
#[derive(Clone, Copy, PartialEq, Eq, Structural, Debug)]
pub struct HeapReadings {
    /// Committed arena bytes.
    pub arena_total: usize,
    /// Arena bytes in use.
    pub arena_in_use: usize,
    /// Old-generation bytes in use.
    pub old_in_use: usize,
    /// Objects outside the arena.
    pub malloc_count: usize,
    /// Bytes in use in the active survivor space.
    pub survivor_in_use: usize,
    /// Bytes there that the next minor collection would promote.
    pub promotable: usize,
    /// Some registered root scanner can only run at once.
    pub scanners_block_budgeted: bool,
    /// Old-to-young references are all recorded.
    pub tracking_complete: bool,
    /// How far the heap is beyond its goals.
    pub debt: GcDebt,
}

impl HeapReadings {
    /// There is room to count one more step of objects.
    pub open spec fn countable(self) -> bool {
        self.malloc_count + GC_MALLOC_COUNT_STEP_MAX <= usize::MAX
    }
}

/// What starts a budgeted cycle.
#[derive(Clone, Copy, PartialEq, Eq, Structural, Debug)]
pub enum BudgetedGcTrigger {
    OldReclaim,
    ArenaBytes,
    MallocCount,
}

/// How the triggers are set anew after a budgeted cycle.
#[derive(Clone, Copy, PartialEq, Eq, Structural, Debug)]
pub enum BudgetedGcRebaseline {
    ArenaBytes { pre_in_use: usize },
    MallocCount { pre_count: usize },
    OldReclaim,
}

/// A budgeted cycle under way.
#[derive(Clone, Copy, PartialEq, Eq, Structural, Debug)]
pub struct BudgetedGcCycle {
    /// The number of the phase that it is in.
    pub phase: u32,
    pub trigger_kind: GcTriggerKind,
    pub collection_kind: GcCollectionKind,
    pub rebaseline: BudgetedGcRebaseline,
}

/// The collector's state on one thread.
#[derive(Clone, Copy, PartialEq, Eq, Structural, Debug)]
pub struct GcState {
    /// An allocation or a collection is under way.
    pub in_alloc: bool,
    /// Triggers are suppressed.
    pub suppressed: bool,
    /// Arena bytes of the next trigger.
    pub next_trigger: usize,
    /// That figure was set on purpose, and is no initial value.
    pub trigger_armed: bool,
    /// Adaptive step of the trigger by arena bytes.
    pub step_bytes: usize,
    /// Object count of the next trigger.
    pub next_malloc_trigger: usize,
    /// Adaptive step of the trigger by object count.
    pub malloc_step: usize,
    /// A larger parse has raised the trigger in this cycle.
    pub trigger_bumped: bool,
    /// Arena bytes when triggers were last suppressed.
    pub pre_suppress_bytes: usize,
    /// A collection waits for the next parse.
    pub tiny_parse_pending: bool,
    /// Side-buffer bytes allocated since the last check.
    pub side_alloc_pending: usize,
    /// Side-buffer bytes alive.
    pub side_live_bytes: usize,
    /// What was asked for while the roots were locked.
    pub deferred: DeferredGcRequest,
    /// How many root locks are held.
    pub root_lock_depth: usize,
    /// How many unsafe zones are open.
    pub unsafe_zones: i32,
    /// The warning about unsafe zones has been given.
    pub unsafe_warned: bool,
    /// Old bytes are to be reclaimed.
    pub old_reclaim_pending: bool,
    /// Old bytes after the last reclaim.
    pub last_old_reclaim: usize,
    /// Arena bytes in use after the last full collection.
    pub last_full_in_use: usize,
    /// A reclaim of old bytes is under way.
    pub old_reclaim_in_progress: bool,
    /// A collection waits for a safepoint.
    pub safepoint_pending: bool,
    /// Arena bytes when it started to wait.
    pub defer_base: usize,
    /// The budgeted cycle under way.
    pub cycle: Option<BudgetedGcCycle>,
    /// A budgeted cycle is marked as under way.
    pub cycle_active: bool,
    /// A step of it is under way.
    pub step_active: bool,
    /// An emergency collection is under way.
    pub in_emergency: bool,
    /// Collections that ran only because of zeal.
    pub zeal_forced: u64,
    /// Minor collections run at safepoints.
    pub nursery_drains: u64,
    /// Reclaims of old bytes run at safepoints.
    pub old_reclaim_drains: u64,
    /// The root scanners are registered.
    pub init_done: bool,
    /// They are not to be registered on demand.
    pub auto_init_suppressed: bool,
}

impl GcState {
    /// The adaptive steps are within their bounds.
    pub open spec fn well_formed(self) -> bool {
        self.step_bytes <= GC_THRESHOLD_MAX_BYTES && self.malloc_step <= GC_MALLOC_COUNT_STEP_MAX
    }

    /// The state of a fresh thread.
    pub open spec fn fresh() -> GcState {
        GcState {
            in_alloc: false,
            suppressed: false,
            next_trigger: GC_THRESHOLD_INITIAL_BYTES,
            trigger_armed: false,
            step_bytes: GC_THRESHOLD_INITIAL_BYTES,
            next_malloc_trigger: GC_MALLOC_COUNT_STEP_INITIAL,
            malloc_step: GC_MALLOC_COUNT_STEP_INITIAL,
            trigger_bumped: false,
            pre_suppress_bytes: 0,
            tiny_parse_pending: false,
            side_alloc_pending: 0,
            side_live_bytes: 0,
            deferred: DeferredGcRequest::Nothing,
            root_lock_depth: 0,
            unsafe_zones: 0,
            unsafe_warned: false,
            old_reclaim_pending: false,
            last_old_reclaim: 0,
            last_full_in_use: 0,
            old_reclaim_in_progress: false,
            safepoint_pending: false,
            defer_base: 0,
            cycle: None,
            cycle_active: false,
            step_active: false,
            in_emergency: false,
            zeal_forced: 0,
            nursery_drains: 0,
            old_reclaim_drains: 0,
            init_done: false,
            auto_init_suppressed: false,
        }
    }

    /// The state of a fresh thread.
    pub fn new() -> (s: GcState)
        ensures
            s == GcState::fresh(),
            s.well_formed(),
    {
        GcState {
            in_alloc: false,
            suppressed: false,
            next_trigger: GC_THRESHOLD_INITIAL_BYTES,
            trigger_armed: false,
            step_bytes: GC_THRESHOLD_INITIAL_BYTES,
            next_malloc_trigger: GC_MALLOC_COUNT_STEP_INITIAL,
            malloc_step: GC_MALLOC_COUNT_STEP_INITIAL,
            trigger_bumped: false,
            pre_suppress_bytes: 0,
            tiny_parse_pending: false,
            side_alloc_pending: 0,
            side_live_bytes: 0,
            deferred: DeferredGcRequest::Nothing,
            root_lock_depth: 0,
            unsafe_zones: 0,
            unsafe_warned: false,
            old_reclaim_pending: false,
            last_old_reclaim: 0,
            last_full_in_use: 0,
            old_reclaim_in_progress: false,
            safepoint_pending: false,
            defer_base: 0,
            cycle: None,
            cycle_active: false,
            step_active: false,
            in_emergency: false,
            zeal_forced: 0,
            nursery_drains: 0,
            old_reclaim_drains: 0,
            init_done: false,
            auto_init_suppressed: false,
        }
    }
}

// ---------------------------------------------------------------------------
// Laws
// ---------------------------------------------------------------------------

/// In whatever order deferred requests are merged, the outcome is the same.
pub proof fn law_merge_is_associative(
    a: DeferredGcRequest,
    b: DeferredGcRequest,
    c: DeferredGcRequest,
)
    ensures
        a.merged(b).merged(c) == a.merged(b.merged(c)),
{
}

/// A request is never lost, a manual one never replaced, and one asked for
/// twice is asked for once.
pub proof fn law_merge_loses_nothing(a: DeferredGcRequest, b: DeferredGcRequest)
    ensures
        a.merged(DeferredGcRequest::Nothing) == a,
        DeferredGcRequest::Nothing.merged(a) == a,
        a.merged(a) == a,
        a.merged(b) == DeferredGcRequest::Nothing ==> a == DeferredGcRequest::Nothing && b
            == DeferredGcRequest::Nothing,
        a == DeferredGcRequest::Collect(GcTriggerKind::Manual) ==> a.merged(b) == a,
        b == DeferredGcRequest::Collect(GcTriggerKind::Manual) ==> a.merged(b) == b,
{
}

/// Hosts tell all triggers apart, and none of them from 0.
pub proof fn law_trigger_codes_differ(a: GcTriggerKind, b: GcTriggerKind)
    ensures
        a.code() != 0,
        a.code() == b.code() ==> a == b,
{
}

} // verus!
