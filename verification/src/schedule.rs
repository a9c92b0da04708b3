//! Seeded scheduling of collections.
//!
//! With a seed, the question "does this safepoint collect?" gets an answer
//! that is a fixed function of the seed and of the safepoint's ordinal, at a
//! density that can be chosen. Different seeds explore different schedules,
//! and a seed that fails is a reproducer. Without a seed nothing changes.

use vstd::prelude::*;
use vstd::string::*;
use vstd::arithmetic::div_mod::*;
use vstd::arithmetic::power2::*;
use crate::nanbox::{EXPONENT_UNIT, INFINITY_BITS, SIGN_BIT};
use crate::text::{parse_decimal, parsed, trimmed};

verus! {

/// The threshold that selects every safepoint.
pub const THRESHOLD_ALWAYS: u64 = u64::MAX;

/// The bit pattern of the double `1`.
pub const RATE_ONE: u64 = 0x3FF0_0000_0000_0000;

/// The seed that a setting asks for: none unless it is an unsigned 64-bit
/// number, so that a typo leaves the mode off.
pub fn parse_seed(raw: Option<&str>) -> (seed: Option<u64>)
    ensures
        seed == match raw {
            None => None,
            Some(s) => match parsed(trimmed(s@), u64::MAX as int) {
                Some(n) => Some(n as u64),
                None => None,
            },
        },
{
    match raw {
        None => None,
        Some(s) => parse_decimal(s, u64::MAX),
    }
}

/// The integer part of `m * 2^(e - 1011)`.
pub open spec fn scaled(m: int, e: int) -> int {
    if e >= 1011 {
        m * pow2((e - 1011) as nat)
    } else {
        m / pow2((1011 - e) as nat) as int
    }
}

/// The threshold for a rate, given as the bit pattern of a double: a share of
/// that size of all 64-bit numbers lies below it. Nothing for a rate of zero
/// or less, or for none at all; everything for a rate of one or more.
pub open spec fn threshold_for(rate: u64) -> int {
    let exponent = rate as int / EXPONENT_UNIT as int;
    let fraction = rate as int % EXPONENT_UNIT as int;
    if rate >= SIGN_BIT || rate > INFINITY_BITS {
        0
    } else if rate >= RATE_ONE {
        THRESHOLD_ALWAYS as int
    } else if exponent == 0 {
        scaled(fraction, 1)
    } else {
        scaled(EXPONENT_UNIT + fraction, exponent)
    }
}

/// The threshold for a rate, given as the bit pattern of a double.
pub fn rate_threshold(rate: u64) -> (t: u64)
    ensures
        t == threshold_for(rate),
{
    if rate >= SIGN_BIT || rate > INFINITY_BITS {
        return 0;
    }
    if rate >= RATE_ONE {
        return THRESHOLD_ALWAYS;
    }
    let exponent: u64 = rate / EXPONENT_UNIT;
    let fraction: u64 = rate % EXPONENT_UNIT;
    let (m, e): (u64, u64) = if exponent == 0 {
        (fraction, 1)
    } else {
        (EXPONENT_UNIT + fraction, exponent)
    };
    if e >= 1011 {
        let mut t: u64 = m;
        let mut k: u64 = 0;
        proof {
            lemma2_to64();
        }
        while k < e - 1011
            invariant
                1011 <= e <= 1022,
                k <= e - 1011,
                m < 0x20_0000_0000_0000,
                t == m * pow2(k as nat),
                pow2(k as nat) <= 2048,
            decreases e - k,
        {
            proof {
                lemma2_to64();
                lemma_pow2_unfold((k + 1) as nat);
                if k + 1 < 11 {
                    lemma_pow2_strictly_increases((k + 1) as nat, 11);
                }
                let p = pow2(k as nat) as int;
                assert(m * (2 * p) == 2 * (m * p)) by (nonlinear_arith);
                assert(m * p <= 0x1F_FFFF_FFFF_FFFF * 1024) by (nonlinear_arith)
                    requires
                        0 <= m < 0x20_0000_0000_0000,
                        0 <= p <= 1024,
                ;
            }
            t = t * 2;
            k = k + 1;
        }
        t
    } else {
        let mut t: u64 = m;
        let mut k: u64 = 0;
        proof {
            lemma2_to64();
        }
        while k < 1011 - e
            invariant
                e < 1011,
                k <= 1011 - e,
                t == m as int / pow2(k as nat) as int,
            decreases 1011 - e - k,
        {
            proof {
                lemma_pow2_unfold((k + 1) as nat);
                lemma_pow2_pos(k as nat);
                lemma_div_denominator(m as int, pow2(k as nat) as int, 2);
            }
            t = t / 2;
            k = k + 1;
        }
        t
    }
}

/// One round of the SplitMix64 mixer.
pub open spec fn mixed(x: u64) -> u64 {
    let a = x.wrapping_add(0x9E37_79B9_7F4A_7C15);
    let b = (a ^ (a >> 30)).wrapping_mul(0xBF58_476D_1CE4_E5B9);
    let c = (b ^ (b >> 27)).wrapping_mul(0x94D0_49BB_1331_11EB);
    c ^ (c >> 31)
}

/// One round of the SplitMix64 mixer.
pub fn splitmix64(x: u64) -> (r: u64)
    ensures
        r == mixed(x),
{
    let a: u64 = x.wrapping_add(0x9E37_79B9_7F4A_7C15);
    let b: u64 = (a ^ (a >> 30)).wrapping_mul(0xBF58_476D_1CE4_E5B9);
    let c: u64 = (b ^ (b >> 27)).wrapping_mul(0x94D0_49BB_1331_11EB);
    c ^ (c >> 31)
}

/// The schedule of a seed: is the safepoint with this ordinal selected? The
/// seed is mixed before it meets the ordinal, so that neighbouring seeds have
/// unrelated schedules.
pub open spec fn selects(seed: u64, counter: u64, threshold: u64) -> bool {
    if threshold == 0 {
        false
    } else if threshold == THRESHOLD_ALWAYS {
        true
    } else {
        mixed(mixed(seed) ^ counter) < threshold
    }
}

/// Is the safepoint with this ordinal selected?
pub fn schedule_hit(seed: u64, counter: u64, threshold: u64) -> (r: bool)
    ensures
        r == selects(seed, counter, threshold),
{
    if threshold == 0 {
        return false;
    }
    if threshold == THRESHOLD_ALWAYS {
        return true;
    }
    splitmix64(splitmix64(seed) ^ counter) < threshold
}

/// The state of the schedule.
#[derive(Clone, Copy, Debug)]
pub struct GcSchedule {
    /// Seed and threshold, where the mode is on.
    pub setting: Option<(u64, u64)>,
    /// The ordinal of the last safepoint that was handled.
    pub counter: u64,
    /// How many safepoints were handled with the mode on.
    pub safepoints: u64,
    /// How many collections ran only because the schedule asked for them.
    pub forced: u64,
    /// The failure reporter is installed.
    pub reporter_installed: bool,
    /// The summary has been given.
    pub summary_emitted: bool,
}

impl GcSchedule {
    /// The schedule of a setting, before the first safepoint.
    pub fn new(setting: Option<(u64, u64)>) -> (s: GcSchedule)
        ensures
            s == (GcSchedule {
                setting,
                counter: 0,
                safepoints: 0,
                forced: 0,
                reporter_installed: false,
                summary_emitted: false,
            }),
    {
        GcSchedule {
            setting,
            counter: 0,
            safepoints: 0,
            forced: 0,
            reporter_installed: false,
            summary_emitted: false,
        }
    }

    /// After one more handled safepoint.
    pub open spec fn ticked(self) -> GcSchedule {
        if self.setting is None {
            self
        } else {
            GcSchedule {
                counter: self.counter.wrapping_add(1),
                safepoints: self.safepoints.wrapping_add(1),
                ..self
            }
        }
    }

    /// The last handled safepoint is one that the schedule selects.
    pub open spec fn selected(self) -> bool {
        match self.setting {
            None => false,
            Some((seed, threshold)) => selects(seed, self.counter, threshold),
        }
    }
}

/// Seed and threshold, from a seed setting and the threshold that the rate
/// setting gives. The mode is off without a seed, whatever the rate.
pub fn resolve_schedule(seed: Option<&str>, threshold: u64) -> (r: Option<(u64, u64)>)
    ensures
        r == match seed {
            None => None,
            Some(s) => match parsed(trimmed(s@), u64::MAX as int) {
                Some(n) => Some((n as u64, threshold)),
                None => None,
            },
        },
{
    match parse_seed(seed) {
        Some(n) => Some((n, threshold)),
        None => None,
    }
}

/// Is the mode on?
pub fn gc_schedule_enabled(s: &GcSchedule) -> (r: bool)
    ensures
        r == (s.setting is Some),
{
    s.setting.is_some()
}

/// Count a handled safepoint and say whether the schedule selects it. With
/// the mode off nothing is counted and nothing selected.
pub fn schedule_tick(s: &mut GcSchedule) -> (r: bool)
    ensures
        *final(s) == old(s).ticked(),
        r == old(s).ticked().selected(),
{
    match s.setting {
        None => false,
        Some((seed, threshold)) => {
            s.counter = s.counter.wrapping_add(1);
            s.safepoints = s.safepoints.wrapping_add(1);
            schedule_hit(seed, s.counter, threshold)
        },
    }
}

/// Count a collection that ran only because the schedule asked for it.
pub fn note_schedule_forced_collection(s: &mut GcSchedule)
    ensures
        *final(s) == (GcSchedule { forced: old(s).forced.wrapping_add(1), ..*old(s) }),
{
    s.forced = s.forced.wrapping_add(1);
}

/// How many collections the schedule has forced. A run that reports 0 has
/// tried nothing.
pub fn gc_schedule_forced_collections(s: &GcSchedule) -> (n: u64)
    ensures
        n == s.forced,
{
    s.forced
}

/// How many safepoints the schedule has seen.
pub fn gc_schedule_safepoints(s: &GcSchedule) -> (n: u64)
    ensures
        n == s.safepoints,
{
    s.safepoints
}

// ---------------------------------------------------------------------------
// Reports
// ---------------------------------------------------------------------------

/// The decimal digits of a number.
pub open spec fn decimal(n: nat) -> Seq<u8>
    decreases n,
{
    if n < 10 {
        seq![(48 + n) as u8]
    } else {
        decimal(n / 10).push((48 + n % 10) as u8)
    }
}

/// The first 512 bytes of a text.
pub open spec fn clipped(s: Seq<u8>) -> Seq<u8> {
    if s.len() <= 512 {
        s
    } else {
        s.take(512)
    }
}

/// A text of at most 512 bytes, built in place: a signal handler may not
/// allocate. What does not fit is cut off.
pub struct SignalWriter {
    pub buf: [u8; 512],
    pub len: usize,
}

impl View for SignalWriter {
    type V = Seq<u8>;

    open spec fn view(&self) -> Seq<u8> {
        self.buf@.take(self.len as int)
    }
}

impl SignalWriter {
    /// No more than 512 bytes.
    pub open spec fn well_formed(&self) -> bool {
        self.len <= 512
    }

    /// The empty text.
    pub fn new() -> (w: SignalWriter)
        ensures
            w@ == Seq::<u8>::empty(),
            w.well_formed(),
    {
        let w = SignalWriter { buf: [0u8; 512], len: 0 };
        assert(w@ =~= Seq::<u8>::empty());
        w
    }

    /// Add one byte, if it fits.
    fn byte(&mut self, b: u8)
        requires
            old(self).well_formed(),
        ensures
            final(self).well_formed(),
            final(self)@ == clipped(old(self)@.push(b)),
    {
        let ghost before = self@;
        if self.len < 512 {
            self.buf[self.len] = b;
            self.len = self.len + 1;
            assert(self@ =~= before.push(b));
        } else {
            assert(before.push(b).take(512) =~= before);
        }
    }

    /// Add a text, as far as it fits.
    pub fn str(&mut self, s: &str)
        requires
            old(self).well_formed(),
        ensures
            final(self).well_formed(),
            final(self)@ == clipped(old(self)@ + s.spec_bytes()),
    {
        let bytes: &[u8] = s.as_bytes();
        let ghost before = self@;
        let mut i: usize = 0;
        assert(before =~= clipped(before + bytes@.take(0)));
        while i < bytes.len()
            invariant
                i <= bytes@.len(),
                before.len() <= 512,
                self.well_formed(),
                self@ == clipped(before + bytes@.take(i as int)),
            decreases bytes@.len() - i,
        {
            self.byte(bytes[i]);
            assert(self@ =~= clipped(before + bytes@.take(i + 1)));
            i = i + 1;
        }
        assert(bytes@.take(i as int) =~= bytes@);
    }

    /// Add a number in decimal, as far as it fits.
    pub fn dec(&mut self, value: u64)
        requires
            old(self).well_formed(),
        ensures
            final(self).well_formed(),
            final(self)@ == clipped(old(self)@ + decimal(value as nat)),
        decreases value,
    {
        let ghost before = self@;
        if value < 10 {
            self.byte(48 + value as u8);
            assert(self@ =~= clipped(before + decimal(value as nat)));
        } else {
            self.dec(value / 10);
            let ghost high = before + decimal((value / 10) as nat);
            self.byte(48 + (value % 10) as u8);
            assert(before + decimal(value as nat) =~= high.push((48 + value % 10) as u8));
            assert(self@ =~= clipped(before + decimal(value as nat)));
        }
    }
}

/// The report for a fatal signal, before it is cut off.
pub open spec fn fault_text(signum: u64, seed: u64, safepoints: u64, forced: u64) -> Seq<u8> {
    "\n[gc-schedule] FAILURE (signal ".spec_bytes() + decimal(signum as nat)
        + ") under seed=".spec_bytes() + decimal(seed as nat)
        + "\n[gc-schedule]   safepoints=".spec_bytes() + decimal(safepoints as nat)
        + " scheduled_collections=".spec_bytes() + decimal(forced as nat)
        + "\n[gc-schedule]   REPRODUCER: re-run with PERRY_GC_SCHEDULE_SEED=".spec_bytes()
        + decimal(seed as nat) + "\n".spec_bytes()
}

proof fn lemma_clip_twice(a: Seq<u8>, b: Seq<u8>)
    ensures
        clipped(clipped(a) + b) == clipped(a + b),
{
    assert(clipped(clipped(a) + b) =~= clipped(a + b));
}

/// The report for a fatal signal: the seed that reproduces the failure, and
/// whether the schedule was doing anything when it came.
pub fn fault_report(signum: u64, seed: u64, safepoints: u64, forced: u64) -> (w: SignalWriter)
    ensures
        w@ == clipped(fault_text(signum, seed, safepoints, forced)),
        w.well_formed(),
{
    let mut w: SignalWriter = SignalWriter::new();
    let ghost mut all: Seq<u8> = Seq::empty();
    w.str("\n[gc-schedule] FAILURE (signal ");
    proof {
        all = all + "\n[gc-schedule] FAILURE (signal ".spec_bytes();
        assert(all =~= "\n[gc-schedule] FAILURE (signal ".spec_bytes());
        assert(w@ == clipped(all));
        lemma_clip_twice(all, decimal(signum as nat));
    }
    w.dec(signum);
    proof {
        all = all + decimal(signum as nat);
        lemma_clip_twice(all, ") under seed=".spec_bytes());
    }
    w.str(") under seed=");
    proof {
        all = all + ") under seed=".spec_bytes();
        lemma_clip_twice(all, decimal(seed as nat));
    }
    w.dec(seed);
    proof {
        all = all + decimal(seed as nat);
        lemma_clip_twice(all, "\n[gc-schedule]   safepoints=".spec_bytes());
    }
    w.str("\n[gc-schedule]   safepoints=");
    proof {
        all = all + "\n[gc-schedule]   safepoints=".spec_bytes();
        lemma_clip_twice(all, decimal(safepoints as nat));
    }
    w.dec(safepoints);
    proof {
        all = all + decimal(safepoints as nat);
        lemma_clip_twice(all, " scheduled_collections=".spec_bytes());
    }
    w.str(" scheduled_collections=");
    proof {
        all = all + " scheduled_collections=".spec_bytes();
        lemma_clip_twice(all, decimal(forced as nat));
    }
    w.dec(forced);
    proof {
        all = all + decimal(forced as nat);
        lemma_clip_twice(
            all,
            "\n[gc-schedule]   REPRODUCER: re-run with PERRY_GC_SCHEDULE_SEED=".spec_bytes(),
        );
    }
    w.str("\n[gc-schedule]   REPRODUCER: re-run with PERRY_GC_SCHEDULE_SEED=");
    proof {
        all = all
            + "\n[gc-schedule]   REPRODUCER: re-run with PERRY_GC_SCHEDULE_SEED=".spec_bytes();
        lemma_clip_twice(all, decimal(seed as nat));
    }
    w.dec(seed);
    proof {
        all = all + decimal(seed as nat);
        lemma_clip_twice(all, "\n".spec_bytes());
    }
    w.str("\n");
    w
}

/// What a fatal-signal handler does after its report.
#[derive(Clone, Copy, PartialEq, Eq, Structural, Debug)]
pub enum AfterReport {
    /// Go on to the handler that was installed before.
    Chain(u64),
    /// Restore the default disposition, so that the fault happens again.
    RestoreDefault,
}

/// The place of a signal among the fatal ones, or the length.
pub open spec fn signal_slot(signals: Seq<i32>, signum: i32, i: int) -> int
    decreases signals.len() - i,
{
    if i >= signals.len() {
        signals.len() as int
    } else if signals[i] == signum {
        i
    } else {
        signal_slot(signals, signum, i + 1)
    }
}

/// What to do after the report for `signum`: chain to the handler that was
/// installed before, unless there is none (0 and 1 stand for the default and
/// the ignoring disposition).
pub fn after_report(signals: &[i32], previous: &[u64], signum: i32) -> (a: AfterReport)
    requires
        previous@.len() == signals@.len(),
    ensures
        ({
            let slot = signal_slot(signals@, signum, 0);
            a == if slot < signals@.len() && previous@[slot] > 1 {
                AfterReport::Chain(previous@[slot])
            } else {
                AfterReport::RestoreDefault
            }
        }),
{
    let mut i: usize = 0;
    while i < signals.len()
        invariant
            i <= signals@.len(),
            previous@.len() == signals@.len(),
            signal_slot(signals@, signum, 0) == signal_slot(signals@, signum, i as int),
        decreases signals@.len() - i,
    {
        if signals[i] == signum {
            if previous[i] > 1 {
                return AfterReport::Chain(previous[i]);
            }
            return AfterReport::RestoreDefault;
        }
        i = i + 1;
    }
    AfterReport::RestoreDefault
}

/// The handler to remember when the reporter is installed over `found`: the
/// reporter never chains to itself.
pub fn remembered_handler(remembered: u64, found: u64, own: u64) -> (r: u64)
    ensures
        r == if found == own {
            remembered
        } else {
            found
        },
{
    if found != own {
        found
    } else {
        remembered
    }
}

/// Should the failure reporter be installed now? Once only.
pub fn install_failure_reporter(s: &mut GcSchedule) -> (install: bool)
    ensures
        install == !old(s).reporter_installed,
        *final(s) == (GcSchedule { reporter_installed: true, ..*old(s) }),
{
    let install: bool = !s.reporter_installed;
    s.reporter_installed = true;
    install
}

/// Should the signal reporter be put back on top of a handler that was
/// installed after it? Only where it was installed at all.
pub fn reinstall_signal_reporter(s: &GcSchedule) -> (install: bool)
    ensures
        install == s.reporter_installed,
{
    s.reporter_installed
}

/// The figures of a report.
#[derive(Clone, Copy, PartialEq, Eq, Structural, Debug)]
pub struct ScheduleReport {
    pub seed: u64,
    pub safepoints: u64,
    pub forced: u64,
}

impl GcSchedule {
    /// The figures of a report, where the mode is on.
    pub open spec fn figures(self) -> Option<ScheduleReport> {
        match self.setting {
            None => None,
            Some((seed, _)) => Some(
                ScheduleReport { seed, safepoints: self.safepoints, forced: self.forced },
            ),
        }
    }
}

/// The figures for a failure report; none with the mode off.
pub fn failure_report(s: &GcSchedule) -> (r: Option<ScheduleReport>)
    ensures
        r == s.figures(),
{
    match s.setting {
        None => None,
        Some((seed, _)) => Some(
            ScheduleReport { seed, safepoints: s.safepoints, forced: s.forced },
        ),
    }
}

/// The figures for the summary at exit: once only, and none with the mode
/// off.
pub fn report_exit_summary(s: &mut GcSchedule) -> (r: Option<ScheduleReport>)
    ensures
        r == if old(s).summary_emitted {
            None
        } else {
            old(s).figures()
        },
        *final(s) == if old(s).setting is None {
            *old(s)
        } else {
            GcSchedule { summary_emitted: true, ..*old(s) }
        },
{
    let r: Option<ScheduleReport> = failure_report(s);
    if r.is_none() {
        return None;
    }
    if s.summary_emitted {
        return None;
    }
    s.summary_emitted = true;
    r
}

// ---------------------------------------------------------------------------
// Laws
// ---------------------------------------------------------------------------

/// The state after a run of `n` handled safepoints.
pub open spec fn after_ticks(s: GcSchedule, n: nat) -> GcSchedule
    decreases n,
{
    if n == 0 {
        s
    } else {
        after_ticks(s, (n - 1) as nat).ticked()
    }
}

/// A failing seed is a reproducer: two runs with one seed and one rate select
/// the same safepoints, whatever else has happened in either.
pub proof fn law_same_seed_same_schedule(a: GcSchedule, b: GcSchedule, n: nat)
    requires
        a.setting == b.setting,
        a.counter == b.counter,
    ensures
        after_ticks(a, n).selected() == after_ticks(b, n).selected(),
        after_ticks(a, n).counter == after_ticks(b, n).counter,
        after_ticks(a, n).setting == a.setting,
        after_ticks(b, n).setting == b.setting,
    decreases n,
{
    if n > 0 {
        law_same_seed_same_schedule(a, b, (n - 1) as nat);
    }
}

/// Without a seed a safepoint counts nothing and selects nothing.
pub proof fn law_off_is_inert(s: GcSchedule, n: nat)
    requires
        s.setting is None,
    ensures
        after_ticks(s, n) == s,
        !after_ticks(s, n).selected(),
    decreases n,
{
    if n > 0 {
        law_off_is_inert(s, (n - 1) as nat);
    }
}

/// A rate of zero selects no safepoint, a rate of one every safepoint.
pub proof fn law_extreme_rates(seed: u64, counter: u64)
    ensures
        threshold_for(0) == 0,
        threshold_for(RATE_ONE) == THRESHOLD_ALWAYS,
        !selects(seed, counter, threshold_for(0) as u64),
        selects(seed, counter, threshold_for(RATE_ONE) as u64),
{
    lemma_pow2_pos(1010);
    lemma_div_basics(pow2(1010) as int);
}

/// A greater threshold selects whatever a smaller one does.
pub proof fn law_greater_threshold_selects_more(seed: u64, counter: u64, low: u64, high: u64)
    requires
        low <= high,
        selects(seed, counter, low),
    ensures
        selects(seed, counter, high),
{
}

/// A number as a counter of 64 bits shows it, which starts over at zero.
pub open spec fn shown(n: int) -> int {
    n % 0x1_0000_0000_0000_0000
}

/// Every handled safepoint consumes one slot of the schedule, selected or
/// not.
pub proof fn law_every_safepoint_ticks(s: GcSchedule)
    requires
        s.setting is Some,
    ensures
        s.ticked().counter == shown(s.counter + 1),
        s.ticked().safepoints == shown(s.safepoints + 1),
        s.counter < u64::MAX ==> s.ticked().counter == s.counter + 1,
        s.safepoints < u64::MAX ==> s.ticked().safepoints == s.safepoints + 1,
        s.ticked().forced == s.forced,
{
}

/// With a seed, so many safepoints raise their number by as many. Past 64 bits
/// the number starts over.
pub proof fn law_safepoints_add_up(s: GcSchedule, n: nat)
    requires
        s.setting is Some,
    ensures
        after_ticks(s, n).safepoints == shown(s.safepoints + n),
        after_ticks(s, n).counter == shown(s.counter + n),
        s.safepoints + n <= u64::MAX ==> after_ticks(s, n).safepoints == s.safepoints + n,
        after_ticks(s, n).setting == s.setting,
        after_ticks(s, n).forced == s.forced,
    decreases n,
{
    if n > 0 {
        law_safepoints_add_up(s, (n - 1) as nat);
    }
}

/// The bit pattern is that of no number.
pub open spec fn is_nan_rate(rate: u64) -> bool {
    rate % SIGN_BIT > INFINITY_BITS
}

/// The place of a double among all of them, by its bit pattern: in the order
/// of their values, with zero at zero.
pub open spec fn rate_order(rate: u64) -> int {
    if rate >= SIGN_BIT {
        SIGN_BIT - rate
    } else {
        rate as int
    }
}

proof fn lemma_scaled_monotone(m: int, n: int, e: int)
    requires
        0 <= m <= n,
    ensures
        0 <= scaled(m, e) <= scaled(n, e),
{
    if e >= 1011 {
        let p = pow2((e - 1011) as nat) as int;
        lemma_pow2_pos((e - 1011) as nat);
        assert(0 <= m * p <= n * p) by (nonlinear_arith)
            requires
                0 <= m <= n,
                p > 0,
        ;
    } else {
        let p = pow2((1011 - e) as nat) as int;
        lemma_pow2_pos((1011 - e) as nat);
        lemma_div_is_ordered(m, n, p);
        lemma_div_pos_is_pos(m, p);
    }
}

/// Twice the significand is one more in the exponent.
proof fn lemma_scaled_doubles(m: int, e: int)
    requires
        0 <= m,
    ensures
        scaled(2 * m, e) == scaled(m, e + 1),
{
    lemma2_to64();
    if e >= 1011 {
        let p = pow2((e - 1011) as nat) as int;
        lemma_pow2_unfold((e + 1 - 1011) as nat);
        assert((2 * m) * p == m * (2 * p)) by (nonlinear_arith);
    } else {
        let p = pow2((1011 - (e + 1)) as nat) as int;
        lemma_pow2_unfold((1011 - e) as nat);
        lemma_pow2_pos((1011 - (e + 1)) as nat);
        lemma_div_denominator(2 * m, 2, p);
        assert((2 * m) / 2 == m);
        if e == 1010 {
            assert(m * 1 == m);
            assert(m / 1 == m);
        }
    }
}

/// A greater exponent gives no lesser number, as long as the significands
/// are within a factor of two.
proof fn lemma_scaled_grows(m: int, d: int, n: int, e: int)
    requires
        0 <= m <= 2 * EXPONENT_UNIT,
        EXPONENT_UNIT <= n,
        d < e,
    ensures
        scaled(m, d) <= scaled(n, e),
    decreases e - d,
{
    let u = EXPONENT_UNIT as int;
    lemma_scaled_monotone(m, 2 * u, d);
    lemma_scaled_doubles(u, d);
    if d + 1 < e {
        lemma_scaled_grows(u, d + 1, n, e);
    } else {
        lemma_scaled_monotone(u, n, e);
    }
}

/// A rate below one selects less than everything.
proof fn lemma_threshold_below_always(rate: u64)
    requires
        rate < RATE_ONE,
    ensures
        0 <= threshold_for(rate) < THRESHOLD_ALWAYS,
{
    let exponent = rate as int / EXPONENT_UNIT as int;
    let fraction = rate as int % EXPONENT_UNIT as int;
    let u = EXPONENT_UNIT as int;
    let top = 2 * u - 1;
    lemma_fundamental_div_mod(rate as int, u);
    lemma_mod_bound(rate as int, u);
    lemma2_to64();
    let (m, e): (int, int) = if exponent == 0 {
        (fraction, 1)
    } else {
        (u + fraction, exponent)
    };
    assert(e <= 1022);
    lemma_scaled_monotone(m, top, e);
    if e < 1022 {
        lemma_scaled_monotone(m, 2 * u, e);
        lemma_scaled_doubles(u, e);
        lemma_scaled_grows_to(u, e + 1);
        lemma_scaled_monotone(u, top, 1022);
    }
    assert(scaled(top, 1022) == top * pow2(11));
}

proof fn lemma_scaled_grows_to(m: int, e: int)
    requires
        m == EXPONENT_UNIT,
        e <= 1022,
    ensures
        scaled(m, e) <= scaled(m, 1022),
{
    if e < 1022 {
        lemma_scaled_grows(m, e, m, 1022);
    }
}

/// A greater rate never has a lesser threshold. A rate of zero or less, or
/// none at all, has the threshold zero; and only rates from one on have the
/// greatest.
pub proof fn law_thresholds_follow_the_rate(a: u64, b: u64)
    ensures
        is_nan_rate(a) ==> threshold_for(a) == 0,
        rate_order(a) <= 0 ==> threshold_for(a) == 0,
        !is_nan_rate(a) ==> (threshold_for(a) == THRESHOLD_ALWAYS <==> rate_order(a)
            >= rate_order(RATE_ONE)),
        !is_nan_rate(a) && !is_nan_rate(b) && rate_order(a) <= rate_order(b) ==> threshold_for(a)
            <= threshold_for(b),
{
    let u = EXPONENT_UNIT as int;
    lemma_pow2_pos(1010);
    lemma_div_basics(pow2(1010) as int);
    if a < RATE_ONE {
        lemma_threshold_below_always(a);
    }
    if b < RATE_ONE {
        lemma_threshold_below_always(b);
    }
    if a <= b && b < RATE_ONE {
        lemma_fundamental_div_mod(a as int, u);
        lemma_mod_bound(a as int, u);
        lemma_fundamental_div_mod(b as int, u);
        lemma_mod_bound(b as int, u);
        lemma_div_is_ordered(a as int, b as int, u);
        let ea = a as int / u;
        let eb = b as int / u;
        let ma: int = if ea == 0 {
            a as int % u
        } else {
            u + a as int % u
        };
        let mb: int = if eb == 0 {
            b as int % u
        } else {
            u + b as int % u
        };
        let da: int = if ea == 0 {
            1
        } else {
            ea
        };
        let db: int = if eb == 0 {
            1
        } else {
            eb
        };
        if da == db {
            if ea == eb {
                assert(u * ea == u * eb);
            }
            lemma_scaled_monotone(ma, mb, da);
        } else {
            lemma_scaled_grows(ma, da, mb, db);
        }
    }
}

/// Multiplying by a number that has an inverse can be undone.
proof fn lemma_wrapping_mul_injective(x: u64, y: u64, c: u64, inverse: int, carry: int)
    requires
        x.wrapping_mul(c) == y.wrapping_mul(c),
        c * inverse == 1 + carry * 0x1_0000_0000_0000_0000,
    ensures
        x == y,
{
    let n = 0x1_0000_0000_0000_0000int;
    lemma_undone(x as int, c as int, inverse, carry);
    lemma_undone(y as int, c as int, inverse, carry);
    assert((x as nat * c as nat) % 0x1_0000_0000_0000_0000 == (x * c) % n);
    assert((y as nat * c as nat) % 0x1_0000_0000_0000_0000 == (y * c) % n);
}

proof fn lemma_undone(x: int, c: int, inverse: int, carry: int)
    requires
        0 <= x < 0x1_0000_0000_0000_0000,
        c * inverse == 1 + carry * 0x1_0000_0000_0000_0000,
    ensures
        (((x * c) % 0x1_0000_0000_0000_0000) * inverse) % 0x1_0000_0000_0000_0000 == x,
{
    let n = 0x1_0000_0000_0000_0000int;
    lemma_mul_mod_noop_left(x * c, inverse, n);
    assert((x * c) * inverse == n * (x * carry) + x) by (nonlinear_arith)
        requires
            c * inverse == 1 + carry * n,
    ;
    lemma_mod_multiples_vanish(x * carry, x, n);
    lemma_small_mod(x as nat, n as nat);
}

/// The mixer maps different numbers to different ones: under one seed no two
/// safepoints share a hash.
pub proof fn law_mixing_is_injective(x: u64, y: u64)
    requires
        mixed(x) == mixed(y),
    ensures
        x == y,
{
    let a = x.wrapping_add(0x9E37_79B9_7F4A_7C15);
    let d = y.wrapping_add(0x9E37_79B9_7F4A_7C15);
    let b = (a ^ (a >> 30)).wrapping_mul(0xBF58_476D_1CE4_E5B9);
    let e = (d ^ (d >> 30)).wrapping_mul(0xBF58_476D_1CE4_E5B9);
    let c = (b ^ (b >> 27)).wrapping_mul(0x94D0_49BB_1331_11EB);
    let f = (e ^ (e >> 27)).wrapping_mul(0x94D0_49BB_1331_11EB);
    assert(c ^ (c >> 31) == f ^ (f >> 31) ==> c == f) by (bit_vector);
    lemma_wrapping_mul_injective(
        b ^ (b >> 27),
        e ^ (e >> 27),
        0x94D0_49BB_1331_11EB,
        0x3196_42B2_D24D_8EC3,
        0x1CD3_36ED_A85F_1453,
    );
    assert(b ^ (b >> 27) == e ^ (e >> 27) ==> b == e) by (bit_vector);
    lemma_wrapping_mul_injective(
        a ^ (a >> 30),
        d ^ (d >> 30),
        0xBF58_476D_1CE4_E5B9,
        0x96DE_1B17_3F11_9089,
        0x70C3_BCA7_8F27_F46C,
    );
    assert(a ^ (a >> 30) == d ^ (d >> 30) ==> a == d) by (bit_vector);
}

/// The threshold of a rate between 0 and 1 is that part of all words: the rate
/// times two to the 64th, rounded down.
pub proof fn law_thresholds_are_fractions(rate: u64)
    requires
        rate < RATE_ONE,
        rate >= EXPONENT_UNIT,
    ensures
        ({
            let e = rate as int / EXPONENT_UNIT as int;
            let m = EXPONENT_UNIT + rate as int % EXPONENT_UNIT as int;
            let t = threshold_for(rate);
            &&& e < 1011 ==> t * pow2((1011 - e) as nat) <= m < (t + 1) * pow2((1011 - e) as nat)
            &&& e >= 1011 ==> t == m * pow2((e - 1011) as nat)
            &&& RATE_ONE == 1023 * EXPONENT_UNIT
        }),
{
    let e = rate as int / EXPONENT_UNIT as int;
    let m = EXPONENT_UNIT + rate as int % EXPONENT_UNIT as int;
    let t = threshold_for(rate);
    assert(e >= 1);
    if e < 1011 {
        let p = pow2((1011 - e) as nat) as int;
        lemma_pow2_pos((1011 - e) as nat);
        assert(t == m / p);
        assert(t * p <= m < (t + 1) * p) by (nonlinear_arith)
            requires
                p > 0,
                t == m / p,
        ;
    }
}

/// A safepoint is selected where the word drawn for it is below the threshold:
/// none where that is 0, and all where it is the greatest.
pub proof fn law_selection_is_a_draw(seed: u64, counter: u64, threshold: u64)
    ensures
        selects(seed, counter, 0) == false,
        selects(seed, counter, u64::MAX) == true,
        0 < threshold < u64::MAX ==> (selects(seed, counter, threshold) <==> mixed(
            mixed(seed) ^ counter,
        ) < threshold),
{
}

/// With one seed no two safepoints draw the same word.
pub proof fn law_draws_differ(seed: u64, a: u64, b: u64)
    requires
        mixed(mixed(seed) ^ a) == mixed(mixed(seed) ^ b),
    ensures
        a == b,
{
    let s = mixed(seed);
    law_mixing_is_injective(s ^ a, s ^ b);
    assert(s ^ a == s ^ b ==> a == b) by (bit_vector);
}

/// The number that decimal digits stand for.
pub open spec fn number_read(s: Seq<u8>) -> int
    decreases s.len(),
{
    if s.len() == 0 {
        0
    } else {
        10 * number_read(s.drop_last()) + (s.last() - 0x30)
    }
}

/// A number is written in decimal digits that stand for it, without leading
/// zeros.
pub proof fn law_numbers_are_written_in_decimal(n: nat)
    ensures
        number_read(decimal(n)) == n,
        forall|i: int| 0 <= i < decimal(n).len() ==> 0x30 <= #[trigger] decimal(n)[i] <= 0x39,
        decimal(n).len() >= 1,
        n > 0 ==> decimal(n)[0] != 0x30,
        n < 10 ==> decimal(n).len() == 1,
    decreases n,
{
    let s = decimal(n);
    if n < 10 {
        assert(s.drop_last() =~= Seq::<u8>::empty());
        assert(number_read(s.drop_last()) == 0);
    } else {
        law_numbers_are_written_in_decimal(n / 10);
        let front = decimal(n / 10);
        assert(s.drop_last() =~= front);
        assert forall|i: int| 0 <= i < s.len() implies 0x30 <= #[trigger] s[i] <= 0x39 by {
            if i < front.len() {
                assert(s[i] == front[i]);
            }
        }
        assert(s[0] == front[0]);
    }
}

/// A report is cut off behind the 512th byte, and not before.
pub proof fn law_reports_are_cut_off(s: Seq<u8>)
    ensures
        clipped(s).len() <= 512,
        s.len() <= 512 ==> clipped(s) == s,
        s.len() > 512 ==> clipped(s).len() == 512,
        forall|i: int| 0 <= i < clipped(s).len() ==> #[trigger] clipped(s)[i] == s[i],
{
}

/// The slot of a signal is where it stands first; a signal that is not watched
/// has none.
pub proof fn law_signals_have_their_slot(signals: Seq<i32>, signum: i32, from: int)
    requires
        0 <= from <= signals.len(),
    ensures
        ({
            let k = signal_slot(signals, signum, from);
            &&& from <= k <= signals.len()
            &&& k < signals.len() ==> signals[k] == signum
            &&& forall|j: int| from <= j < k ==> #[trigger] signals[j] != signum
        }),
    decreases signals.len() - from,
{
    if from < signals.len() && signals[from] != signum {
        law_signals_have_their_slot(signals, signum, from + 1);
    }
}

/// A report is given where the mode is on, with the seed and what was counted.
pub proof fn law_reports_tell_what_was_counted(s: GcSchedule)
    ensures
        s.setting is None <==> s.figures() is None,
        s.figures() matches Some(r) ==> Some(r.seed) == match s.setting {
            Some((seed, _)) => Some(seed),
            None => None,
        } && r.safepoints == s.safepoints && r.forced == s.forced,
        s.setting is None ==> !s.selected() && s.ticked() == s,
{
}

} // verus!
