//! The collector's settings as they are written in the environment.

use vstd::prelude::*;
use crate::gc_types::{capped_product, saturating_product, MB};
use crate::text::{parse_decimal, parsed, text_eq, trimmed, trimmed_eq_ignoring_ascii_case};
use crate::text::same_ignoring_ascii_case;

verus! {

/// The spellings of "off".
pub open spec fn is_off_word(s: Seq<char>) -> bool {
    s == "0"@ || s == "off"@ || s == "false"@
}

/// The spellings of "on".
pub open spec fn is_on_word(s: Seq<char>) -> bool {
    s == "1"@ || s == "on"@ || s == "true"@
}

/// A switch that is on unless it is switched off by name.
pub open spec fn on_by_default(value: Option<&str>) -> bool {
    !(value matches Some(s) && is_off_word(s@))
}

/// A switch that is off unless it is switched on by name.
pub open spec fn off_by_default(value: Option<&str>) -> bool {
    value matches Some(s) && is_on_word(s@)
}

fn unless_off(value: Option<&str>) -> (r: bool)
    ensures
        r == on_by_default(value),
{
    match value {
        Some(s) => !(text_eq(s, "0") || text_eq(s, "off") || text_eq(s, "false")),
        None => true,
    }
}

fn only_on(value: Option<&str>) -> (r: bool)
    ensures
        r == off_by_default(value),
{
    match value {
        Some(s) => text_eq(s, "1") || text_eq(s, "on") || text_eq(s, "true"),
        None => false,
    }
}

/// Is the generational collector on? It needs write barriers.
pub fn gen_gc_enabled(write_barriers: bool, value: Option<&str>) -> (r: bool)
    ensures
        r == (write_barriers && on_by_default(value)),
{
    write_barriers && unless_off(value)
}

/// May collections move objects?
pub fn gen_gc_evacuate_enabled(value: Option<&str>) -> (r: bool)
    ensures
        r == on_by_default(value),
{
    unless_off(value)
}

/// Do safepoints run the minor collection that moves?
pub fn gc_moving_safepoint_enabled(value: Option<&str>) -> (r: bool)
    ensures
        r == on_by_default(value),
{
    unless_off(value)
}

/// Is the budgeted stepper on?
pub fn gc_incremental_enabled(value: Option<&str>) -> (r: bool)
    ensures
        r == on_by_default(value),
{
    unless_off(value)
}

/// Do loops poll for collections?
pub fn moving_loop_polls_enabled_from_env(value: Option<&str>) -> (r: bool)
    ensures
        r == off_by_default(value),
{
    only_on(value)
}

/// Is the scavenging young generation on?
pub fn gc_scavenge_enabled(value: Option<&str>) -> (r: bool)
    ensures
        r == off_by_default(value),
{
    only_on(value)
}

/// Are traces recorded?
pub fn gc_trace_enabled(value: Option<&str>) -> (r: bool)
    ensures
        r == off_by_default(value),
{
    only_on(value)
}

/// Are moved objects verified?
pub fn gc_verify_evacuation_enabled(value: Option<&str>) -> (r: bool)
    ensures
        r == off_by_default(value),
{
    only_on(value)
}

/// Was moving objects asked for?
pub fn force_evacuate_requested(value: Option<&str>) -> (r: bool)
    ensures
        r == off_by_default(value),
{
    only_on(value)
}

/// A debugging flag is set: case and surrounding white space do not matter
/// here, and "yes" counts.
pub open spec fn flag_set(value: Option<&str>) -> bool {
    value matches Some(s) && {
        ||| same_ignoring_ascii_case(trimmed(s@), "1"@)
        ||| same_ignoring_ascii_case(trimmed(s@), "true"@)
        ||| same_ignoring_ascii_case(trimmed(s@), "on"@)
        ||| same_ignoring_ascii_case(trimmed(s@), "yes"@)
    }
}

/// Is a debugging flag set?
pub fn env_flag_enabled(value: Option<&str>) -> (r: bool)
    ensures
        r == flag_set(value),
{
    match value {
        Some(s) => trimmed_eq_ignoring_ascii_case(s, "1") || trimmed_eq_ignoring_ascii_case(
            s,
            "true",
        ) || trimmed_eq_ignoring_ascii_case(s, "on") || trimmed_eq_ignoring_ascii_case(s, "yes"),
        None => false,
    }
}

/// The number that a setting holds, if it holds one.
pub open spec fn number_in(value: Option<&str>) -> Option<int> {
    match value {
        Some(s) => parsed(trimmed(s@), usize::MAX as int),
        None => None,
    }
}

fn number_of_setting(value: Option<&str>) -> (r: Option<usize>)
    ensures
        match number_in(value) {
            Some(n) => r == Some(n as usize) && 0 <= n <= usize::MAX,
            None => r is None,
        },
{
    match value {
        Some(s) => match parse_decimal(s, usize::MAX as u64) {
            Some(n) => Some(n as usize),
            None => None,
        },
        None => None,
    }
}

/// The nursery cap of the scavenger, from a setting in megabytes: 16 of them
/// where the setting is no positive number.
pub fn gc_scavenge_nursery_cap_bytes(value: Option<&str>) -> (n: usize)
    ensures
        n == capped_product(
            match number_in(value) {
                Some(mb) => if mb > 0 {
                    mb as usize
                } else {
                    16
                },
                None => 16,
            },
            MB,
        ),
{
    let mb: usize = match number_of_setting(value) {
        Some(mb) => if mb > 0 {
            mb
        } else {
            16
        },
        None => 16,
    };
    saturating_product(mb, MB)
}

/// The floor of the pacing of full collections, from a setting in megabytes:
/// 32 of them where the setting is no number. 0 switches the pacing off.
pub fn major_pacing_floor_bytes(value: Option<&str>) -> (n: usize)
    ensures
        n == capped_product(
            match number_in(value) {
                Some(mb) => mb as usize,
                None => 32,
            },
            MB,
        ),
{
    let mb: usize = match number_of_setting(value) {
        Some(mb) => mb,
        None => 32,
    };
    saturating_product(mb, MB)
}

/// The growth of the pacing of full collections: 2 where the setting is no
/// positive number.
pub fn major_pacing_growth(value: Option<&str>) -> (n: usize)
    ensures
        n == match number_in(value) {
            Some(g) => if g >= 1 {
                g
            } else {
                2
            },
            None => 2,
        },
{
    match number_of_setting(value) {
        Some(g) => if g >= 1 {
            g
        } else {
            2
        },
        None => 2,
    }
}

} // verus!
