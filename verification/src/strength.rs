//! Memory-strength estimation support.
//!
//! A record's displayed confidence decays exponentially with the time since
//! its last activity, with a half-life tied to the interval the scheduler
//! itself chose.  The decay curve `exp(-elapsed / half_life)` is floating
//! point and lives with the caller; everything that feeds it is exact
//! integer work and is verified here: reading the last-activity moment out
//! of a record (with its fallback chain for missing or malformed
//! timestamps), clamping clock skew, selecting the half-life, and bucketing
//! finished strength values into the dashboard distribution.

use vstd::prelude::*;

use crate::calendar::spec_parsed_minutes;
use crate::calendar::parse_datetime_minutes;
use crate::text::opt_text;

verus! {

/// The moment counted as "last activity": the last review when present and
/// parseable, else the record's creation time, else `now` itself (which
/// makes the strength of an unreadable record 1.0 rather than an error).
pub open spec fn spec_last_activity(
    last_reviewed: Option<Seq<char>>,
    created: Seq<char>,
    now_min: u64,
) -> u64 {
    let from_last = match last_reviewed {
        Some(s) => spec_parsed_minutes(s),
        None => None,
    };
    match from_last {
        Some(m) => m,
        None => match spec_parsed_minutes(created) {
            Some(m) => m,
            None => now_min,
        },
    }
}

pub fn last_activity_minutes(last_reviewed_at: Option<&str>, created_at: &str, now_min: u64) -> (r:
    u64)
    ensures
        r == spec_last_activity(opt_text(last_reviewed_at), created_at@, now_min),
{
    let from_last = match last_reviewed_at {
        Some(s) => parse_datetime_minutes(s),
        None => None,
    };
    match from_last {
        Some(m) => m,
        None => match parse_datetime_minutes(created_at) {
            Some(m) => m,
            None => now_min,
        },
    }
}

/// Minutes elapsed since the last activity; a last activity in the future
/// (clock skew) counts as zero elapsed time.
pub open spec fn spec_elapsed(last_min: u64, now_min: u64) -> u64 {
    if last_min <= now_min {
        (now_min - last_min) as u64
    } else {
        0
    }
}

pub fn elapsed_minutes(last_min: u64, now_min: u64) -> (r: u64)
    ensures
        r == spec_elapsed(last_min, now_min),
{
    if last_min <= now_min {
        now_min - last_min
    } else {
        0
    }
}

/// Decay half-life in tenths of a minute: 15 minutes for a freshly
/// introduced word (learning step 0 on the shortest interval), otherwise
/// 40% of the scheduled interval but never under 10 minutes.
pub open spec fn spec_half_life_tenths(learning_step: u8, interval_minutes: u64) -> u64 {
    if learning_step == 0 && interval_minutes <= 20 {
        150
    } else if 4 * interval_minutes < 100 {
        100
    } else {
        (4 * interval_minutes) as u64
    }
}

pub fn half_life_tenths(learning_step: u8, interval_minutes: u64) -> (r: u64)
    requires
        interval_minutes <= 0x3fff_ffff_ffff_ffff,
    ensures
        r == spec_half_life_tenths(learning_step, interval_minutes),
{
    if learning_step == 0 && interval_minutes <= 20 {
        150
    } else {
        let scaled = 4 * interval_minutes;
        if scaled < 100 {
            100
        } else {
            scaled
        }
    }
}

/// How many records sit in each memory-strength band, for the dashboard.
/// Strengths are taken in per-mille (a strength of 0.7 arrives as 700).
#[derive(Clone, Copy, Debug, PartialEq, Eq, Structural)]
pub struct MemoryDistribution {
    /// Strength at least 70%.
    pub strong: usize,
    /// Strength in 40-69%.
    pub good: usize,
    /// Strength in 20-39%.
    pub weak: usize,
    /// Strength under 20%.
    pub critical: usize,
    pub total: usize,
}

pub open spec fn is_strong(x: u32) -> bool {
    x >= 700
}

pub open spec fn is_good(x: u32) -> bool {
    400 <= x < 700
}

pub open spec fn is_weak(x: u32) -> bool {
    200 <= x < 400
}

pub open spec fn is_critical(x: u32) -> bool {
    x < 200
}

pub fn memory_distribution(strengths: &Vec<u32>) -> (d: MemoryDistribution)
    ensures
        d.strong == strengths@.filter(|x: u32| is_strong(x)).len(),
        d.good == strengths@.filter(|x: u32| is_good(x)).len(),
        d.weak == strengths@.filter(|x: u32| is_weak(x)).len(),
        d.critical == strengths@.filter(|x: u32| is_critical(x)).len(),
        d.total == strengths@.len(),
        d.strong + d.good + d.weak + d.critical == d.total,
{
    let mut strong: usize = 0;
    let mut good: usize = 0;
    let mut weak: usize = 0;
    let mut critical: usize = 0;
    let n = strengths.len();
    for i in 0..n
        invariant
            n == strengths@.len(),
            strong == strengths@.take(i as int).filter(|x: u32| is_strong(x)).len(),
            good == strengths@.take(i as int).filter(|x: u32| is_good(x)).len(),
            weak == strengths@.take(i as int).filter(|x: u32| is_weak(x)).len(),
            critical == strengths@.take(i as int).filter(|x: u32| is_critical(x)).len(),
            strong + good + weak + critical == i,
    {
        proof {
            strengths@.lemma_take_succ_push(i as int);
            strengths@.take(i as int).lemma_filter_len_push(
                |x: u32| is_strong(x),
                strengths@[i as int],
            );
            strengths@.take(i as int).lemma_filter_len_push(
                |x: u32| is_good(x),
                strengths@[i as int],
            );
            strengths@.take(i as int).lemma_filter_len_push(
                |x: u32| is_weak(x),
                strengths@[i as int],
            );
            strengths@.take(i as int).lemma_filter_len_push(
                |x: u32| is_critical(x),
                strengths@[i as int],
            );
        }
        let s = strengths[i];
        if s >= 700 {
            strong = strong + 1;
        } else if s >= 400 {
            good = good + 1;
        } else if s >= 200 {
            weak = weak + 1;
        } else {
            critical = critical + 1;
        }
    }
    proof {
        strengths@.lemma_take_len();
    }
    MemoryDistribution { strong, good, weak, critical, total: n }
}

} // verus!
