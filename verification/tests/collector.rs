//! The collector: triggers, pacing, budgeted steps, collections, settings and
//! startup.

use perry::gc_budget::{
    end_step, gc_budgeted_status_result, gc_drain_active_budgeted_cycle, js_gc_safepoint,
    js_gc_step_status, js_gc_step_us_continues, js_gc_step_us_units, js_gc_step_work_units,
    plan_minor, CycleStart, Drain, EvacuationReason, JsGcStepResult, MinorPlan, StepOutcome,
    StepPlan, JS_GC_STEP_STATUS_ACTIVE, JS_GC_STEP_STATUS_COMPLETED, JS_GC_STEP_STATUS_IDLE,
    JS_GC_STEP_STATUS_SKIPPED,
};
use perry::gc_collect::{
    emergency_done, flush_deferred_gc_request, gc_collect_inner_with_trigger, gc_collect_minor,
    gc_collect_minor_with_trigger, gc_try_emergency_reclaim, js_gc_collect,
    js_gc_enter_unsafe_zone, js_gc_exit_unsafe_zone, js_gc_module_collect,
    js_gc_module_idle_hint, js_gc_module_minor, js_gc_pause_stats, js_gc_stats,
    restore_minor_in_alloc, FlushAction, GcStats, GcTriggerSnapshot, ManualAction,
    ManualMinorAction, MinorRequest, MinorRoute, PauseReport, StatsReport,
};
use perry::gc_env::{
    env_flag_enabled, gc_incremental_enabled, gc_scavenge_enabled, gc_scavenge_nursery_cap_bytes,
    gc_trace_enabled, gen_gc_enabled, gen_gc_evacuate_enabled, major_pacing_floor_bytes,
    major_pacing_growth,
};
use perry::gc_init::{
    ensure_gc_initialized, gc_init, js_gc_init_disables_field_inlining,
    set_auto_gc_init_suppressed, Features, Scanner, SCANNER_COUNT,
};
use perry::gc_policy::{
    arena_growth_full_escalation_due, copied_minor_promotable_active_survivor_bytes,
    copied_minor_promotion_handoff_due, defer_gc_request, effective_next_arena_trigger,
    finish_full_old_reclaim_baseline, gc_bump_arena_trigger_target, gc_bump_malloc_trigger,
    gc_check_trigger, gc_check_trigger_export, gc_finish_arena_trigger_collection,
    gc_finish_malloc_trigger_collection, gc_is_suppressed, gc_note_external_side_alloc,
    gc_note_external_side_free, gc_old_reclaim_debt_bytes, gc_suppress, gc_unsuppress,
    moving_defer_within_slack, old_reclaim_done, old_reclaim_pressure_due,
    take_deferred_gc_request, AfterParse, CheckAction, GcOutcome, GcSuppressScope, Survivor,
};
use perry::gc_types::{
    DeferredGcRequest, GcCollectionKind, GcConfig, GcDebt, GcProgressKind, GcState,
    GcTriggerKind, HeapReadings,
};
use perry::text::{parse_decimal, parse_decimal_exact, text_eq, trimmed_eq_ignoring_ascii_case};

const MIB: usize = 1024 * 1024;

fn config() -> GcConfig {
    GcConfig {
        gen_gc: true,
        evacuate: true,
        force_evacuate: false,
        scavenge: false,
        moving_loop_polls: false,
        zeal: false,
        trace: false,
        nursery_cap: 16 * MIB,
        pacing_floor: 0,
        pacing_growth: 2,
        trigger_ceiling: 128 * MIB,
        headroom_floor: 16 * MIB,
        tiny_parse_in_use: 48 * MIB,
        tiny_parse_in_use_full: 24 * MIB,
        old_reclaim_threshold: 48 * MIB,
        old_reclaim_growth: 32 * MIB,
        handoff_min: 24 * MIB,
        defer_slack: 64 * MIB,
        assist_work_units: 64,
        debt_bytes_per_unit: 4096,
        safepoint_work_units: Some(256),
    }
}

fn readings() -> HeapReadings {
    HeapReadings {
        arena_total: MIB,
        arena_in_use: MIB,
        old_in_use: 0,
        malloc_count: 10,
        survivor_in_use: 0,
        promotable: 0,
        scanners_block_budgeted: false,
        tracking_complete: true,
        debt: GcDebt { arena_debt_bytes: 0, malloc_debt_objects: 0, old_reclaim_debt_bytes: 0 },
    }
}

fn under_pressure() -> HeapReadings {
    HeapReadings { malloc_count: 100_000, ..readings() }
}

#[test]
fn without_pressure_nothing_is_done() {
    let mut s = GcState::new();
    assert_eq!(gc_check_trigger(&mut s, &config(), &readings()), CheckAction::Nothing);
    assert_eq!(s, GcState::new());
}

#[test]
fn pressure_asks_for_an_assist() {
    let mut s = GcState::new();
    let mut h = under_pressure();
    assert_eq!(
        gc_check_trigger(&mut s, &config(), &h),
        CheckAction::Assist { work_units: 64 }
    );
    h.debt.arena_debt_bytes = 3 * 4096 + 5;
    h.debt.malloc_debt_objects = 7;
    assert_eq!(
        gc_check_trigger_export(&mut s, &config(), &h),
        CheckAction::Assist { work_units: 64 + 3 + 7 }
    );
}

#[test]
fn blocked_checks_wait() {
    let h = under_pressure();
    let blocked = [
        GcState { suppressed: true, ..GcState::new() },
        GcState { in_alloc: true, ..GcState::new() },
        GcState { step_active: true, ..GcState::new() },
        GcState { unsafe_zones: 1, ..GcState::new() },
    ];
    for before in blocked {
        let mut s = before;
        assert_eq!(gc_check_trigger(&mut s, &config(), &h), CheckAction::Nothing);
        assert_eq!(s, before);
    }
    let mut s = GcState { root_lock_depth: 1, ..GcState::new() };
    assert_eq!(gc_check_trigger(&mut s, &config(), &h), CheckAction::Nothing);
    assert_eq!(s.deferred, DeferredGcRequest::CheckTrigger);
    s.root_lock_depth = 0;
    assert_eq!(
        flush_deferred_gc_request(&mut s, &config(), &h, false),
        FlushAction::Check(CheckAction::Assist { work_units: 64 })
    );
    assert_eq!(s.deferred, DeferredGcRequest::Nothing);
}

#[test]
fn a_moving_collector_collects_at_once_or_waits_for_a_poll() {
    let h = under_pressure();
    let mut s = GcState::new();
    let scavenge = GcConfig { scavenge: true, ..config() };
    assert_eq!(
        gc_check_trigger(&mut s, &scavenge, &h),
        CheckAction::CollectMinor {
            kind: GcTriggerKind::MallocCount,
            scan_stack: false,
            pre_in_use: MIB,
            pre_count: 100_000,
        }
    );
    let polls = GcConfig { moving_loop_polls: true, ..config() };
    assert_eq!(gc_check_trigger(&mut s, &polls, &h), CheckAction::Nothing);
    assert!(s.safepoint_pending);
    assert_eq!(s.defer_base, MIB);
    let grown = HeapReadings { arena_total: 66 * MIB, ..h };
    assert_eq!(
        gc_check_trigger(&mut s, &polls, &grown),
        CheckAction::CollectMinor {
            kind: GcTriggerKind::ArenaBytes,
            scan_stack: true,
            pre_in_use: MIB,
            pre_count: 100_000,
        },
        "the arena has outgrown the nursery"
    );
    assert!(!s.safepoint_pending);
    assert!(moving_defer_within_slack(100, None, 0));
    assert!(moving_defer_within_slack(99, Some(50), 50));
    assert!(!moving_defer_within_slack(100, Some(50), 50));
}

#[test]
fn old_pressure_comes_first_and_does_not_nest() {
    let mut s = GcState { old_reclaim_pending: true, ..GcState::new() };
    let h = HeapReadings { old_in_use: 60 * MIB, ..under_pressure() };
    assert_eq!(gc_check_trigger(&mut s, &config(), &h), CheckAction::ReclaimOld);
    assert!(s.old_reclaim_in_progress && !s.old_reclaim_pending);
    assert_ne!(gc_check_trigger(&mut s, &config(), &h), CheckAction::ReclaimOld);
    finish_full_old_reclaim_baseline(&mut s, &h);
    old_reclaim_done(&mut s);
    assert!(!s.old_reclaim_in_progress);
    assert_eq!(s.last_old_reclaim, 60 * MIB);
    assert!(!old_reclaim_pressure_due(&config(), 60 * MIB, 60 * MIB));
    assert!(old_reclaim_pressure_due(&config(), 60 * MIB, 0));
    assert_eq!(gc_old_reclaim_debt_bytes(&config(), 10 * MIB, 0), 0);
    assert!(gc_old_reclaim_debt_bytes(&config(), 60 * MIB, 0) > 0);
}

#[test]
fn an_unarmed_trigger_stays_under_the_ceiling() {
    let s = GcState { next_trigger: 500 * MIB, ..GcState::new() };
    assert_eq!(effective_next_arena_trigger(&s, &config()), 128 * MIB);
    let armed = GcState { trigger_armed: true, ..s };
    assert_eq!(effective_next_arena_trigger(&armed, &config()), 500 * MIB);
    let scavenge = GcConfig { scavenge: true, ..config() };
    assert_eq!(effective_next_arena_trigger(&armed, &scavenge), 16 * MIB);
}

#[test]
fn the_arena_step_follows_what_was_freed() {
    let cfg = config();
    let after = HeapReadings { arena_in_use: 100 * MIB, arena_total: 100 * MIB, ..readings() };
    let run = |percent: usize, malloc_swept| {
        let mut s = GcState { step_bytes: 40 * MIB, ..GcState::new() };
        let outcome = GcOutcome { freed_bytes: (percent * MIB) as u64, malloc_swept };
        gc_finish_arena_trigger_collection(&mut s, &cfg, 100 * MIB, outcome, &after);
        s
    };
    assert_eq!(run(9, false).step_bytes, 80 * MIB);
    assert_eq!(run(10, false).step_bytes, 40 * MIB);
    assert_eq!(run(25, false).step_bytes, 20 * MIB);
    assert_eq!(run(84, false).step_bytes, 20 * MIB);
    assert_eq!(run(85, false).step_bytes, 80 * MIB);
    assert_eq!(run(25, false).next_trigger, 120 * MIB);
    assert_eq!(run(10, false).next_trigger, 128 * MIB, "the ceiling");
    assert!(run(10, false).trigger_armed);
    assert_eq!(run(10, true).next_malloc_trigger, 10 + 100_000);
    let crowded = HeapReadings { arena_total: 400 * MIB, ..after };
    let mut s = GcState::new();
    let outcome = GcOutcome { freed_bytes: 0, malloc_swept: false };
    gc_finish_arena_trigger_collection(&mut s, &cfg, 100 * MIB, outcome, &crowded);
    assert_eq!(s.next_trigger, 416 * MIB, "the headroom over the ceiling");
}

#[test]
fn the_object_step_follows_what_survived() {
    let run = |survivors| {
        let mut s = GcState::new();
        let outcome = GcOutcome { freed_bytes: 0, malloc_swept: true };
        let h = HeapReadings { malloc_count: survivors, ..readings() };
        gc_finish_malloc_trigger_collection(&mut s, 1000, outcome, &h);
        assert_eq!(s.next_malloc_trigger, survivors + s.malloc_step);
        s.malloc_step
    };
    assert_eq!(run(900), 400_000);
    assert_eq!(run(850), 200_000);
    assert_eq!(run(500), 100_000);
    assert_eq!(run(100), 100_000);
    assert_eq!(run(80), 50_000);
}

#[test]
fn suppression_scopes_nest() {
    let mut s = GcState::new();
    let outer = GcSuppressScope::new(&mut s);
    assert!(gc_is_suppressed(&s));
    let inner = GcSuppressScope::new(&mut s);
    inner.close(&mut s);
    assert!(gc_is_suppressed(&s), "the outer scope is still open");
    outer.close(&mut s);
    assert!(!gc_is_suppressed(&s));
}

#[test]
fn parses_only_raise_the_trigger() {
    let cfg = config();
    let mut s = GcState::new();
    gc_suppress(&mut s, &readings());
    assert!(gc_is_suppressed(&s));
    gc_unsuppress(&mut s);
    let before = s.next_trigger;
    let grown = HeapReadings { arena_in_use: 40 * MIB, arena_total: 40 * MIB, ..readings() };
    let after = gc_bump_malloc_trigger(&mut s, &cfg, &grown);
    assert!(s.next_trigger >= before);
    assert!(matches!(after, AfterParse::Nothing | AfterParse::Check(_)));
    let target = |now, step, tiny| gc_bump_arena_trigger_target(&cfg, now, step, tiny);
    assert_eq!(target(100 * MIB, 16 * MIB, false), 116 * MIB);
    assert_eq!(target(100 * MIB, 500 * MIB, false), 228 * MIB);
    assert_eq!(target(100 * MIB, 500 * MIB, true), 128 * MIB);
    assert_eq!(target(usize::MAX, 1, false), usize::MAX);
}

#[test]
fn side_buffers_are_counted() {
    let mut s = GcState::new();
    let a = gc_note_external_side_alloc(&mut s, &config(), &readings(), 1000);
    assert_eq!(a, CheckAction::Nothing);
    assert_eq!((s.side_live_bytes, s.side_alloc_pending), (1000, 1000));
    gc_note_external_side_free(&mut s, 400);
    assert_eq!(s.side_live_bytes, 600);
    gc_note_external_side_free(&mut s, 4000);
    assert_eq!(s.side_live_bytes, 0);
    gc_note_external_side_alloc(&mut s, &config(), &readings(), 16 * MIB);
    assert_eq!(s.side_alloc_pending, 0, "a full step has been checked");
}

#[test]
fn survivors_are_counted_by_age() {
    let object = |forwarded, tenured, age| Survivor { forwarded, tenured, age, size: 10 };
    let objects = vec![
        object(false, false, 3),
        object(true, false, 3),
        object(false, true, 3),
        object(false, false, 0),
    ];
    assert_eq!(copied_minor_promotable_active_survivor_bytes(&objects, 2), 20);
    assert_eq!(copied_minor_promotable_active_survivor_bytes(&objects, 4), 20);
    assert_eq!(copied_minor_promotable_active_survivor_bytes(&objects, 5), 10);
    assert_eq!(copied_minor_promotable_active_survivor_bytes(&objects, 1), 30);
    let s = GcState::new();
    assert!(!copied_minor_promotion_handoff_due(
        &s,
        &config(),
        &readings(),
        GcTriggerKind::ArenaBytes
    ));
    assert!(!arena_growth_full_escalation_due(&s, &config(), &readings()));
}

#[test]
fn deferred_requests_merge_to_the_stronger() {
    let collect = DeferredGcRequest::Collect(GcTriggerKind::Manual);
    assert_eq!(DeferredGcRequest::Nothing.merge(DeferredGcRequest::CheckTrigger), DeferredGcRequest::CheckTrigger);
    assert_eq!(DeferredGcRequest::DirectMinor.merge(DeferredGcRequest::CheckTrigger), DeferredGcRequest::DirectMinor);
    assert_eq!(DeferredGcRequest::CheckTrigger.merge(collect), collect);
    assert_eq!(collect.merge(DeferredGcRequest::Nothing), collect);
    let mut s = GcState { root_lock_depth: 1, ..GcState::new() };
    assert!(defer_gc_request(&mut s, DeferredGcRequest::DirectMinor));
    assert!(defer_gc_request(&mut s, DeferredGcRequest::CheckTrigger));
    assert_eq!(take_deferred_gc_request(&mut s), DeferredGcRequest::DirectMinor);
    assert_eq!(take_deferred_gc_request(&mut s), DeferredGcRequest::Nothing);
    s.root_lock_depth = 0;
    assert!(!defer_gc_request(&mut s, DeferredGcRequest::DirectMinor));
}

#[test]
fn codes_tell_the_triggers_apart() {
    let all = [
        GcTriggerKind::ArenaBytes,
        GcTriggerKind::MallocCount,
        GcTriggerKind::OldGenBytes,
        GcTriggerKind::SurvivorPromotionBytes,
        GcTriggerKind::Emergency,
        GcTriggerKind::Manual,
        GcTriggerKind::Direct,
    ];
    for (i, a) in all.iter().enumerate() {
        for b in &all[i + 1..] {
            assert_ne!(a.ffi_code(), b.ffi_code());
            assert_ne!(a.as_str(), b.as_str());
        }
    }
    assert_eq!(
        GcTriggerKind::Manual.progress_kind(GcCollectionKind::Full),
        GcProgressKind::ExplicitFull
    );
    assert!(GcProgressKind::MutatorAssist.is_budgeted());
    assert!(!GcProgressKind::EmergencyFull.is_budgeted());
    assert_ne!(GcCollectionKind::Minor.ffi_code(), GcCollectionKind::Full.ffi_code());
    assert_eq!(GcCollectionKind::Minor.as_str(), "minor");
}

#[test]
fn a_budgeted_cycle_runs_to_completion() {
    let cfg = config();
    let h = under_pressure();
    let mut s = GcState::new();
    let plan = js_gc_step_work_units(&mut s, &cfg, &h, false, 10);
    match plan {
        StepPlan::Run { start: Some(CycleStart::Minor { trigger_kind, plan, .. }), work_units } => {
            assert_eq!((trigger_kind, work_units), (GcTriggerKind::MallocCount, 10));
            assert!(!plan.evacuation_allowed, "a budgeted cycle does not move");
        }
        _ => panic!("a minor cycle starts"),
    }
    assert!(s.step_active && s.cycle_active);
    let nested = js_gc_step_work_units(&mut s, &cfg, &h, false, 10);
    assert!(matches!(nested, StepPlan::Done(r) if r.status == JS_GC_STEP_STATUS_SKIPPED));
    let r = end_step(&mut s, &cfg, &h, StepOutcome::Ongoing { phase: 3 }, 9);
    assert_eq!((r.status, r.phase, r.active, r.completed), (JS_GC_STEP_STATUS_ACTIVE, 3, 1, 0));
    assert!(!s.step_active);
    let status = js_gc_step_status(&mut s, &h);
    assert_eq!((status.status, status.phase), (JS_GC_STEP_STATUS_ACTIVE, 3));
    assert_eq!(
        gc_drain_active_budgeted_cycle(&s, 0, JS_GC_STEP_STATUS_ACTIVE),
        Drain::Step
    );
    let again = js_gc_safepoint(&mut s, &cfg, &h, false);
    assert_eq!(again, StepPlan::Run { start: None, work_units: 256 });
    let outcome = GcOutcome { freed_bytes: 0, malloc_swept: true };
    let r = end_step(&mut s, &cfg, &readings(), StepOutcome::Completed(outcome), 9);
    assert_eq!((r.status, r.completed), (JS_GC_STEP_STATUS_COMPLETED, 1));
    assert!(s.cycle.is_none() && !s.cycle_active);
    assert_eq!(gc_budgeted_status_result(&mut s, &readings()).status, JS_GC_STEP_STATUS_IDLE);
    assert_eq!(
        gc_drain_active_budgeted_cycle(&s, 0, JS_GC_STEP_STATUS_COMPLETED),
        Drain::Drained
    );
}

#[test]
fn steps_of_no_size_only_report() {
    let mut s = GcState::new();
    let plan = js_gc_step_work_units(&mut s, &config(), &under_pressure(), false, 0);
    assert!(matches!(plan, StepPlan::Done(r) if r.status == JS_GC_STEP_STATUS_IDLE));
    assert!(s.cycle.is_none());
    let off = GcConfig { safepoint_work_units: None, ..config() };
    assert!(matches!(
        js_gc_safepoint(&mut s, &off, &under_pressure(), false),
        StepPlan::Done(_)
    ));
    assert_eq!(js_gc_step_us_units(0), 0);
    assert_eq!(js_gc_step_us_units(50), 1);
    let active = JsGcStepResult { status: JS_GC_STEP_STATUS_ACTIVE, ..JsGcStepResult::default() };
    assert!(js_gc_step_us_continues(&active, 49, 50));
    assert!(!js_gc_step_us_continues(&active, 50, 50));
    assert!(!js_gc_step_us_continues(&JsGcStepResult::default(), 0, 50));
}

#[test]
fn minors_move_only_where_they_may() {
    let cfg = config();
    assert_eq!(
        plan_minor(&cfg, &readings(), false, true),
        MinorPlan {
            evacuation_allowed: false,
            force_evacuation: false,
            disabled_reason: EvacuationReason::LowPauseNonMoving,
            select_old_pages: false,
        }
    );
    let forced = plan_minor(&cfg, &readings(), true, false);
    assert!(forced.evacuation_allowed && forced.force_evacuation);
    let off = GcConfig { evacuate: false, ..cfg };
    assert!(!plan_minor(&off, &readings(), true, false).evacuation_allowed);
}

#[test]
fn minor_collections_restore_the_allocation_flag() {
    let cfg = config();
    let mut s = GcState::new();
    let route =
        gc_collect_minor_with_trigger(&mut s, &cfg, &readings(), false, GcTriggerKind::Direct);
    match route {
        MinorRoute::Minor { prev_in_alloc, .. } => {
            assert!(s.in_alloc);
            restore_minor_in_alloc(&mut s, prev_in_alloc);
            assert!(!s.in_alloc);
        }
        MinorRoute::Full { .. } => panic!("nothing calls for a full collection"),
    }
    assert_eq!(gc_collect_inner_with_trigger(&mut s, &cfg), GcCollectionKind::Minor);
    let full = GcConfig { gen_gc: false, ..cfg };
    assert_eq!(gc_collect_inner_with_trigger(&mut s, &full), GcCollectionKind::Full);
    assert_eq!(gc_collect_minor(&mut s), MinorRequest::Run);
    s.root_lock_depth = 2;
    assert_eq!(gc_collect_minor(&mut s), MinorRequest::Deferred);
    assert_eq!(s.deferred, DeferredGcRequest::DirectMinor);
}

#[test]
fn manual_collections_are_skipped_in_unsafe_zones() {
    let mut s = GcState::new();
    assert_eq!(js_gc_collect(&mut s), ManualAction::Collect);
    js_gc_enter_unsafe_zone(&mut s);
    assert_eq!(js_gc_collect(&mut s), ManualAction::Skipped { warn: true });
    assert_eq!(js_gc_module_collect(&mut s), ManualAction::Skipped { warn: false });
    assert_eq!(js_gc_module_minor(&mut s), ManualMinorAction::Skipped { warn: false });
    js_gc_exit_unsafe_zone(&mut s);
    assert_eq!(s.unsafe_zones, 0);
    s.root_lock_depth = 1;
    assert_eq!(js_gc_collect(&mut s), ManualAction::Deferred);
    s.root_lock_depth = 0;
    assert_eq!(
        flush_deferred_gc_request(&mut s, &config(), &readings(), false),
        FlushAction::ManualCollect
    );
    assert_eq!(js_gc_module_minor(&mut s), ManualMinorAction::Request(MinorRequest::Run));
    assert!(js_gc_module_idle_hint(3, 4));
    assert!(!js_gc_module_idle_hint(4, 4));
}

#[test]
fn a_panic_drops_the_request() {
    let mut s = GcState { deferred: DeferredGcRequest::DirectMinor, ..GcState::new() };
    assert_eq!(
        flush_deferred_gc_request(&mut s, &config(), &readings(), true),
        FlushAction::Nothing
    );
    assert_eq!(s.deferred, DeferredGcRequest::Nothing);
    s.deferred = DeferredGcRequest::DirectMinor;
    assert_eq!(
        flush_deferred_gc_request(&mut s, &config(), &readings(), false),
        FlushAction::DirectMinor
    );
}

#[test]
fn emergencies_do_not_nest() {
    let mut s = GcState::new();
    assert!(gc_try_emergency_reclaim(&mut s));
    assert!(!gc_try_emergency_reclaim(&mut s));
    emergency_done(&mut s);
    assert!(gc_try_emergency_reclaim(&mut s));
}

#[test]
fn emergencies_wait_for_suppression_and_unsafe_zones() {
    let mut suppressed = GcState::new();
    let scope = GcSuppressScope::new(&mut suppressed);
    assert!(!gc_try_emergency_reclaim(&mut suppressed));
    assert!(!suppressed.in_emergency);
    scope.close(&mut suppressed);
    assert!(gc_try_emergency_reclaim(&mut suppressed));

    let mut unsafe_zone = GcState::new();
    js_gc_enter_unsafe_zone(&mut unsafe_zone);
    assert!(!gc_try_emergency_reclaim(&mut unsafe_zone));
    js_gc_exit_unsafe_zone(&mut unsafe_zone);
    assert!(gc_try_emergency_reclaim(&mut unsafe_zone));

    for busy in [
        GcState { in_alloc: true, ..GcState::new() },
        GcState { cycle_active: true, ..GcState::new() },
    ] {
        let mut s = busy;
        assert!(!gc_try_emergency_reclaim(&mut s));
    }
}

#[test]
fn reports_read_the_statistics() {
    let stats = GcStats {
        collection_count: 4,
        total_freed_bytes: 1000,
        last_pause_us: 7,
        max_pause_us: 90,
        recent_pauses_us: vec![10, 20, 31, 0, 0],
        recent_len: 3,
    };
    assert_eq!(js_gc_stats(&stats), StatsReport { collections: 4, freed: 1000, pause_us: 7 });
    assert_eq!(
        js_gc_pause_stats(&stats),
        PauseReport { max_us: 90, recent_max_us: 31, recent_avg_us: 20, recent_count: 3 }
    );
    let snapshot = GcTriggerSnapshot::capture(&GcState::new(), &config(), GcTriggerKind::Direct);
    assert!(snapshot.steps_before.is_none(), "nothing is traced");
}

#[test]
fn settings_are_read_from_text() {
    assert!(gen_gc_enabled(true, None));
    assert!(!gen_gc_enabled(true, Some("0")));
    assert!(gen_gc_evacuate_enabled(None));
    assert!(!gen_gc_evacuate_enabled(Some("0")));
    assert!(env_flag_enabled(Some(" On ")));
    assert!(env_flag_enabled(Some("TRUE")));
    assert!(!env_flag_enabled(Some("2")));
    assert!(!env_flag_enabled(None));
    assert!(gc_trace_enabled(Some("1")) && !gc_trace_enabled(None));
    assert!(gc_incremental_enabled(Some("0")) != gc_incremental_enabled(Some("1")));
    assert!(!gc_scavenge_enabled(None));
    assert_eq!(gc_scavenge_nursery_cap_bytes(None), 16 * MIB);
    assert_eq!(gc_scavenge_nursery_cap_bytes(Some(" 4 ")), 4 * MIB);
    assert_eq!(gc_scavenge_nursery_cap_bytes(Some("0")), 16 * MIB);
    assert_eq!(major_pacing_floor_bytes(None), 32 * MIB);
    assert_eq!(major_pacing_floor_bytes(Some("0")), 0);
    assert_eq!(major_pacing_growth(None), 2);
    assert_eq!(major_pacing_growth(Some("0")), 2);
    assert_eq!(major_pacing_growth(Some("3")), 3);
}

#[test]
fn numbers_in_text_are_decimal() {
    assert_eq!(parse_decimal(" 42 ", 100), Some(42));
    assert_eq!(parse_decimal("101", 100), None);
    assert_eq!(parse_decimal_exact(" 42", 100), None);
    assert_eq!(parse_decimal_exact("+42", 100), Some(42));
    assert!(text_eq("abc", "abc") && !text_eq("abc", "abd") && !text_eq("ab", "abc"));
    assert!(trimmed_eq_ignoring_ascii_case("\tYeS\n", "yes"));
}

#[test]
fn every_scanner_is_registered_once() {
    let all =
        Features { unix: true, mod_dgram: true, dyn_eval: true, full: true, ohos_napi: true };
    let none =
        Features { unix: false, mod_dgram: false, dyn_eval: false, full: false, ohos_napi: false };
    let mut s = GcState::new();
    let first = gc_init(&mut s, &all).unwrap();
    assert_eq!(first.len(), SCANNER_COUNT);
    assert_eq!(first[0].scanner, Scanner::RuntimeHandles);
    for (i, a) in first.iter().enumerate() {
        assert!(first[i + 1..].iter().all(|b| a.scanner != b.scanner));
    }
    assert!(gc_init(&mut s, &all).is_none(), "only once");
    let mut t = GcState::new();
    assert!(gc_init(&mut t, &none).unwrap().len() < SCANNER_COUNT);
    let mut u = GcState::new();
    assert!(!set_auto_gc_init_suppressed(&mut u, true));
    assert!(ensure_gc_initialized(&mut u, &all).is_none());
    assert!(set_auto_gc_init_suppressed(&mut u, false));
    assert!(ensure_gc_initialized(&mut u, &all).is_some());
}

#[test]
fn field_inlining_is_switched_off_by_settings() {
    assert!(!js_gc_init_disables_field_inlining(false, None, None));
    assert!(js_gc_init_disables_field_inlining(true, None, None));
}

#[test]
fn unsafe_zones_balance() {
    let mut s = GcState::new();
    js_gc_enter_unsafe_zone(&mut s);
    js_gc_enter_unsafe_zone(&mut s);
    js_gc_exit_unsafe_zone(&mut s);
    js_gc_exit_unsafe_zone(&mut s);
    assert_eq!(s, GcState::new());
}

#[test]
fn merging_requests_is_associative() {
    let all = [
        DeferredGcRequest::Nothing,
        DeferredGcRequest::CheckTrigger,
        DeferredGcRequest::DirectMinor,
        DeferredGcRequest::Collect(GcTriggerKind::Manual),
        DeferredGcRequest::Collect(GcTriggerKind::Direct),
    ];
    for a in all {
        for b in all {
            for c in all {
                assert_eq!(a.merge(b).merge(c), a.merge(b.merge(c)));
            }
        }
    }
}
