//! The seeded schedule: settings, determinism, density, and what it does at a
//! safepoint.

use perry::gc_budget::gc_force_evacuate_enabled;
use perry::gc_policy::{
    gc_safepoint_moving_minor, js_gc_loop_safepoint, safepoint_minor_done, GcOutcome,
    SafepointAction,
};
use perry::gc_types::{GcConfig, GcDebt, GcState, GcTriggerKind, HeapReadings};
use perry::schedule::{
    after_report, failure_report, fault_report, gc_schedule_enabled,
    gc_schedule_forced_collections, gc_schedule_safepoints, install_failure_reporter, parse_seed,
    rate_threshold, reinstall_signal_reporter, remembered_handler, report_exit_summary,
    resolve_schedule, schedule_hit, schedule_tick, splitmix64, AfterReport, GcSchedule,
    ScheduleReport, SignalWriter, THRESHOLD_ALWAYS,
};

fn threshold(rate: f64) -> u64 {
    rate_threshold(rate.to_bits())
}

fn quiet_config() -> GcConfig {
    GcConfig {
        gen_gc: true,
        evacuate: true,
        force_evacuate: false,
        scavenge: false,
        moving_loop_polls: false,
        zeal: false,
        trace: false,
        nursery_cap: 16 << 20,
        pacing_floor: 0,
        pacing_growth: 2,
        trigger_ceiling: 128 << 20,
        headroom_floor: 16 << 20,
        tiny_parse_in_use: 48 << 20,
        tiny_parse_in_use_full: 24 << 20,
        old_reclaim_threshold: 48 << 20,
        old_reclaim_growth: 32 << 20,
        handoff_min: 24 << 20,
        defer_slack: 64 << 20,
        assist_work_units: 64,
        debt_bytes_per_unit: 4096,
        safepoint_work_units: Some(256),
    }
}

fn quiet_heap() -> HeapReadings {
    HeapReadings {
        arena_total: 1 << 20,
        arena_in_use: 1 << 20,
        old_in_use: 0,
        malloc_count: 10,
        survivor_in_use: 0,
        promotable: 0,
        scanners_block_budgeted: false,
        tracking_complete: true,
        debt: GcDebt { arena_debt_bytes: 0, malloc_debt_objects: 0, old_reclaim_debt_bytes: 0 },
    }
}

/// Run a safepoint, and the collection that it asks for.
fn safepoint(s: &mut GcState, sched: &mut GcSchedule, cfg: &GcConfig) -> SafepointAction {
    let heap = quiet_heap();
    let action = gc_safepoint_moving_minor(s, sched, cfg, &heap);
    if let SafepointAction::CollectMinor { kind, pre_in_use, pre_count } = action {
        let outcome = GcOutcome { freed_bytes: 0, malloc_swept: false };
        safepoint_minor_done(s, cfg, kind, pre_in_use, pre_count, outcome, &heap);
    }
    action
}

#[test]
fn seed_knob_reads_as_off_unless_it_parses_as_u64() {
    for raw in [
        None,
        Some(""),
        Some("   "),
        Some("banana"),
        Some("-1"),
        Some("1.5"),
        Some("0x10"),
        Some("18446744073709551616"),
    ] {
        assert_eq!(
            parse_seed(raw),
            None,
            "{raw:?} must leave seeded GC-schedule fuzzing OFF"
        );
    }
    assert_eq!(parse_seed(Some("0")), Some(0));
    assert_eq!(parse_seed(Some("42")), Some(42));
    assert_eq!(parse_seed(Some(" 42 ")), Some(42), "surrounding space is fine");
    assert_eq!(parse_seed(Some("18446744073709551615")), Some(u64::MAX));
}

#[test]
fn seed_accepts_a_plus_sign_and_leading_zeros() {
    assert_eq!(parse_seed(Some("+7")), Some(7));
    assert_eq!(parse_seed(Some("007")), Some(7));
    assert_eq!(parse_seed(Some("+")), None);
    assert_eq!(parse_seed(Some("++7")), None);
    assert_eq!(parse_seed(Some("4 2")), None);
    assert_eq!(parse_seed(Some("\u{3000}42\u{a0}")), Some(42));
    assert_eq!(parse_seed(Some("\u{663}")), None);
}

#[test]
fn rate_zero_never_collects_and_rate_one_always_does() {
    let never = threshold(0.0);
    let always = threshold(1.0);
    assert_eq!(never, 0, "rate 0 must be expressible as a threshold of 0");
    for counter in 0..10_000u64 {
        assert!(
            !schedule_hit(12345, counter, never),
            "rate 0 must select nothing (counter={counter})"
        );
        assert!(
            schedule_hit(12345, counter, always),
            "rate 1 must select every safepoint (counter={counter})"
        );
    }
}

#[test]
fn the_same_seed_selects_the_same_safepoints() {
    let threshold = threshold(0.05);
    for seed in [0u64, 1, 7, 4242, u64::MAX] {
        let first: Vec<u64> = (0..100_000u64)
            .filter(|&counter| schedule_hit(seed, counter, threshold))
            .collect();
        let second: Vec<u64> = (0..100_000u64)
            .filter(|&counter| schedule_hit(seed, counter, threshold))
            .collect();
        assert_eq!(
            first, second,
            "seed {seed} must select an identical safepoint set every time"
        );
        assert!(!first.is_empty(), "seed {seed} selected nothing at rate 0.05");
    }
}

#[test]
fn adjacent_seeds_explore_different_schedules() {
    let threshold = threshold(0.05);
    const N: u64 = 20_000;
    for seed in 1..8u64 {
        let a: Vec<bool> = (0..N).map(|c| schedule_hit(seed, c, threshold)).collect();
        let b: Vec<bool> = (0..N)
            .map(|c| schedule_hit(seed + 1, c, threshold))
            .collect();
        let hits_a = a.iter().filter(|hit| **hit).count();
        let shared = a.iter().zip(&b).filter(|(one, two)| **one && **two).count();
        assert!(
            shared * 4 < hits_a,
            "seeds {seed} and {} agree on {shared} of {hits_a} selected safepoints",
            seed + 1
        );
    }
}

#[test]
fn realised_density_tracks_the_requested_rate() {
    const N: u64 = 200_000;
    for rate in [0.01f64, 0.05, 0.2, 0.5] {
        let threshold = threshold(rate);
        let hits = (0..N)
            .filter(|&counter| schedule_hit(99, counter, threshold))
            .count();
        let realised = hits as f64 / N as f64;
        assert!(
            (realised - rate).abs() < rate * 0.15,
            "requested rate {rate}, realised {realised} over {N} safepoints"
        );
    }
}

#[test]
fn thresholds_are_exact_shares_of_the_range() {
    assert_eq!(threshold(0.5), 1 << 63);
    assert_eq!(threshold(0.25), 1 << 62);
    assert_eq!(threshold(0.05), (0.05f64 * 2.0f64.powi(64)) as u64);
    assert_eq!(threshold(1e-9), (1e-9f64 * 2.0f64.powi(64)) as u64);
    assert_eq!(threshold(1e-300), 0);
    assert_eq!(threshold(5e-324), 0);
    assert_eq!(threshold(-0.5), 0);
    assert_eq!(threshold(-0.0), 0);
    assert_eq!(threshold(f64::NAN), 0);
    assert_eq!(threshold(f64::INFINITY), THRESHOLD_ALWAYS);
    assert_eq!(threshold(2.0), THRESHOLD_ALWAYS);
    assert!(threshold(0.999999) < THRESHOLD_ALWAYS);
}

#[test]
fn the_mixer_gives_the_published_values() {
    assert_eq!(splitmix64(0), 0xE220_A839_7B1D_CDAF);
    assert_eq!(splitmix64(1234567), 0x599E_D017_FB08_FC85);
}

#[test]
fn the_schedule_collects_at_a_safepoint_with_no_pressure_due() {
    let cfg = quiet_config();
    let mut s = GcState::new();
    let mut off = GcSchedule::new(None);
    assert_eq!(safepoint(&mut s, &mut off, &cfg), SafepointAction::Idle);
    assert_eq!(s.nursery_drains, 0, "with no trigger due and the mode off, the safepoint is idle");
    assert_eq!(
        gc_schedule_safepoints(&off),
        0,
        "with no seed set the counter must not advance at all"
    );

    let mut on = GcSchedule::new(Some((7, threshold(1.0))));
    safepoint(&mut s, &mut on, &cfg);
    assert_eq!(s.nursery_drains, 1, "a selected safepoint must force a minor");
    assert!(gc_schedule_forced_collections(&on) > 0, "the forced collection must be counted");
    assert_eq!(
        gc_schedule_safepoints(&on),
        1,
        "exactly one handled safepoint must have been ticked"
    );
}

#[test]
fn a_declined_safepoint_does_not_collect_but_still_ticks() {
    let cfg = quiet_config();
    let mut s = GcState::new();
    let mut sched = GcSchedule::new(Some((7, threshold(0.0))));
    safepoint(&mut s, &mut sched, &cfg);
    assert_eq!(
        s.nursery_drains, 0,
        "rate 0 must decline: no collection at an idle safepoint"
    );
    assert_eq!(
        gc_schedule_forced_collections(&sched),
        0,
        "a declined safepoint must not be counted as a forced collection"
    );
    assert_eq!(gc_schedule_safepoints(&sched), 1, "a declined safepoint consumes its slot");
}

#[test]
fn a_blocked_safepoint_consumes_no_schedule_slot() {
    let cfg = quiet_config();
    let mut s = GcState::new();
    s.root_lock_depth = 1;
    let mut sched = GcSchedule::new(Some((7, threshold(1.0))));
    safepoint(&mut s, &mut sched, &cfg);
    assert_eq!(s.nursery_drains, 0, "a root lock must still block the collection");
    assert_eq!(
        gc_schedule_safepoints(&sched),
        0,
        "a blocked safepoint must not tick the schedule"
    );
}

#[test]
fn the_schedule_implies_forced_evacuation() {
    let mut cfg = quiet_config();
    cfg.evacuate = false;
    assert!(
        !gc_force_evacuate_enabled(&cfg, true),
        "an explicit PERRY_GEN_GC_EVACUATE=0 must win over the seeded schedule"
    );
    cfg.evacuate = true;
    let off = gc_force_evacuate_enabled(&cfg, false);
    assert!(
        gc_force_evacuate_enabled(&cfg, true),
        "evacuation is permitted, so a resolved seed must force it (force_off={off})"
    );
}

#[test]
fn unset_is_inert_for_evacuation_policy() {
    for force in [false, true] {
        for zeal in [false, true] {
            let mut cfg = quiet_config();
            cfg.force_evacuate = force;
            cfg.zeal = zeal;
            assert_eq!(gc_force_evacuate_enabled(&cfg, false), force || zeal);
        }
    }
}

#[test]
fn the_mode_is_off_without_a_seed_whatever_the_rate() {
    assert_eq!(resolve_schedule(None, THRESHOLD_ALWAYS), None);
    assert_eq!(resolve_schedule(Some("x"), THRESHOLD_ALWAYS), None);
    assert_eq!(resolve_schedule(Some("3"), 5), Some((3, 5)));
    let off = GcSchedule::new(None);
    assert!(!gc_schedule_enabled(&off));
    assert!(gc_schedule_enabled(&GcSchedule::new(Some((3, 5)))));
}

#[test]
fn two_runs_with_one_seed_tick_alike() {
    let mut a = GcSchedule::new(Some((99, threshold(0.3))));
    let mut b = GcSchedule::new(Some((99, threshold(0.3))));
    b.forced = 17;
    b.summary_emitted = true;
    let first: Vec<bool> = (0..500).map(|_| schedule_tick(&mut a)).collect();
    let second: Vec<bool> = (0..500).map(|_| schedule_tick(&mut b)).collect();
    assert_eq!(first, second);
    assert!(first.contains(&true) && first.contains(&false));
    assert_eq!(gc_schedule_safepoints(&a), 500);
}

#[test]
fn pressure_is_served_under_any_schedule() {
    let cfg = quiet_config();
    let mut heap = quiet_heap();
    heap.malloc_count = 100_000;
    for setting in [None, Some((1, 0)), Some((1, THRESHOLD_ALWAYS))] {
        let mut s = GcState::new();
        let mut sched = GcSchedule::new(setting);
        let action = gc_safepoint_moving_minor(&mut s, &mut sched, &cfg, &heap);
        assert_eq!(
            action,
            SafepointAction::CollectMinor {
                kind: GcTriggerKind::MallocCount,
                pre_in_use: 1 << 20,
                pre_count: 100_000,
            }
        );
        assert_eq!(gc_schedule_forced_collections(&sched), 0);
    }
}

#[test]
fn loops_poll_only_where_polls_are_on() {
    let mut cfg = quiet_config();
    let heap = quiet_heap();
    let mut s = GcState::new();
    let mut sched = GcSchedule::new(Some((7, THRESHOLD_ALWAYS)));
    assert_eq!(js_gc_loop_safepoint(&mut s, &mut sched, &cfg, &heap), SafepointAction::Idle);
    assert_eq!(gc_schedule_safepoints(&sched), 0);
    cfg.moving_loop_polls = true;
    assert!(matches!(
        js_gc_loop_safepoint(&mut s, &mut sched, &cfg, &heap),
        SafepointAction::CollectMinor { .. }
    ));
    assert_eq!(gc_schedule_safepoints(&sched), 1);
    let mut off = GcSchedule::new(None);
    assert_eq!(js_gc_loop_safepoint(&mut s, &mut off, &cfg, &heap), SafepointAction::Idle);
    s.safepoint_pending = true;
    js_gc_loop_safepoint(&mut s, &mut off, &cfg, &heap);
    assert!(!s.safepoint_pending, "a handled safepoint clears the pending collection");
}

#[test]
fn the_fault_report_names_the_seed_twice() {
    let w = fault_report(11, 42, 1000, 7);
    let expected = "\n[gc-schedule] FAILURE (signal 11) under seed=42\
        \n[gc-schedule]   safepoints=1000 scheduled_collections=7\
        \n[gc-schedule]   REPRODUCER: re-run with PERRY_GC_SCHEDULE_SEED=42\n";
    assert_eq!(std::str::from_utf8(&w.buf[..w.len]).unwrap(), expected);
}

#[test]
fn the_signal_writer_cuts_off_at_its_limit() {
    let mut w = SignalWriter::new();
    w.dec(0);
    w.dec(18446744073709551615);
    assert_eq!(&w.buf[..w.len], b"018446744073709551615");
    let long = "x".repeat(600);
    w.str(&long);
    assert_eq!(w.len, 512);
    w.dec(5);
    w.str("y");
    assert_eq!(w.len, 512);
    assert_eq!(w.buf[511], b'x');
}

#[test]
fn the_fault_handler_chains_but_never_to_itself() {
    let signals = [11, 7, 6, 4, 5];
    let previous = [0, 1, 0xABC, 0, 0];
    assert_eq!(after_report(&signals, &previous, 6), AfterReport::Chain(0xABC));
    assert_eq!(after_report(&signals, &previous, 11), AfterReport::RestoreDefault);
    assert_eq!(after_report(&signals, &previous, 7), AfterReport::RestoreDefault);
    assert_eq!(after_report(&signals, &previous, 99), AfterReport::RestoreDefault);
    assert_eq!(remembered_handler(5, 77, 99), 77);
    assert_eq!(remembered_handler(5, 99, 99), 5);
}

#[test]
fn reports_come_once_and_only_with_a_seed() {
    let mut off = GcSchedule::new(None);
    assert_eq!(failure_report(&off), None);
    assert_eq!(report_exit_summary(&mut off), None);
    assert!(!off.summary_emitted);
    let mut on = GcSchedule::new(Some((9, 0)));
    schedule_tick(&mut on);
    let figures = ScheduleReport { seed: 9, safepoints: 1, forced: 0 };
    assert_eq!(failure_report(&on), Some(figures));
    assert_eq!(report_exit_summary(&mut on), Some(figures));
    assert_eq!(report_exit_summary(&mut on), None);
    assert!(!reinstall_signal_reporter(&on));
    assert!(install_failure_reporter(&mut on));
    assert!(!install_failure_reporter(&mut on));
    assert!(reinstall_signal_reporter(&on));
}

#[test]
fn a_greater_rate_selects_more() {
    let (low, high) = (threshold(0.1), threshold(0.4));
    for counter in 0..5_000 {
        assert!(!schedule_hit(3, counter, low) || schedule_hit(3, counter, high));
    }
}

#[test]
fn thresholds_rise_with_the_rate() {
    let rates = [f64::NEG_INFINITY, -1.0, -0.0, 0.0, 5e-324, 1e-30, 0.05, 0.5, 0.999, 1.0, 7.0];
    for pair in rates.windows(2) {
        assert!(threshold(pair[0]) <= threshold(pair[1]));
    }
    assert_eq!(threshold(-1.0), 0);
    assert_eq!(threshold(f64::NAN), 0);
    assert_eq!(threshold(1.0), THRESHOLD_ALWAYS);
    assert_eq!(threshold(f64::INFINITY), THRESHOLD_ALWAYS);
}

#[test]
fn the_mixer_keeps_values_apart() {
    let mut mixed: Vec<u64> = (0..4_000).map(splitmix64).collect();
    mixed.sort_unstable();
    mixed.dedup();
    assert_eq!(mixed.len(), 4_000);
}

#[test]
fn a_run_of_ticks_counts_them_all() {
    let mut s = GcSchedule::new(Some((5, threshold(0.3))));
    for _ in 0..250 {
        schedule_tick(&mut s);
    }
    assert_eq!(gc_schedule_safepoints(&s), 250);
    let mut off = GcSchedule::new(None);
    for _ in 0..250 {
        schedule_tick(&mut off);
    }
    assert_eq!(gc_schedule_safepoints(&off), 0);
}

#[test]
fn no_more_collections_are_forced_than_safepoints_seen() {
    let cfg = quiet_config();
    for (rate, all) in [(0.0, false), (0.4, false), (1.0, true)] {
        let mut s = GcState::new();
        let mut sched = GcSchedule::new(Some((11, threshold(rate))));
        for _ in 0..60 {
            safepoint(&mut s, &mut sched, &cfg);
        }
        let (seen, forced) =
            (gc_schedule_safepoints(&sched), gc_schedule_forced_collections(&sched));
        assert!(forced <= seen);
        assert_eq!(forced == seen, all);
        assert_eq!(forced == 0, rate == 0.0);
    }
}

#[test]
fn counts_start_over_past_their_limit() {
    let mut s = GcSchedule::new(Some((5, 0)));
    s.safepoints = u64::MAX;
    s.counter = u64::MAX;
    schedule_tick(&mut s);
    assert_eq!((gc_schedule_safepoints(&s), s.counter), (0, 0));
    schedule_tick(&mut s);
    assert_eq!((gc_schedule_safepoints(&s), s.counter), (1, 1));
}
