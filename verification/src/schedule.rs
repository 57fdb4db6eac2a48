//! The review scheduler: a pure state machine over per-word scheduling
//! records.
//!
//! A word moves through a short *learning* phase (four minute-granularity
//! steps) and then graduates into the *review* phase, where intervals are
//! measured in days and grow geometrically under an ease factor.  Every
//! reachable ease factor is a multiple of one tenth, so the ease factor is
//! represented exactly in tenths (`25` stands for 2.5); interval growth then
//! becomes exact integer arithmetic, with `floor` realised by integer
//! division.

use vstd::prelude::*;

verus! {

/// Lowest ease factor, in tenths (1.3).
pub const EASE_FLOOR_TENTHS: u32 = 13;

/// Highest ease factor, in tenths (3.0).
pub const EASE_CAP_TENTHS: u32 = 30;

/// Ease factor of a freshly saved word, in tenths (2.5).
pub const EASE_START_TENTHS: u32 = 25;

/// Interval, in days, granted when a word graduates from learning to review.
pub const GRADUATION_DAYS: u64 = 2;

pub const MINUTES_PER_DAY: u64 = 1440;

/// Review intervals saturate here; far beyond any practical schedule, the
/// bound only keeps the interval arithmetic inside fixed-width integers.
pub const MAX_INTERVAL_DAYS: u64 = 1_000_000;

/// Upper bound on clock readings handed to the scheduler, in minutes since
/// the epoch (several centuries out); it keeps every computed due time
/// within range of the calendar formatting underneath.
pub const MAX_NOW_MINUTES: u64 = 200_000_000;

/// Where a word stands in the scheduling state machine.
#[derive(Clone, Copy, Debug, PartialEq, Eq, Structural)]
pub enum Phase {
    /// Short-interval learning steps; `step` is always in `0..=3`.
    Learning { step: u8 },
    /// Graduated: day-granularity intervals that grow with the ease factor.
    Review { interval_days: u64 },
}

/// The mutable scheduling record kept per (user, vocabulary item).
#[derive(Clone, Copy, Debug, PartialEq, Eq, Structural)]
pub struct ScheduleState {
    pub phase: Phase,
    /// Ease factor in tenths, always in `EASE_FLOOR_TENTHS..=EASE_CAP_TENTHS`.
    pub ease_tenths: u32,
    /// Next scheduled review, in minutes since the epoch.
    pub due_at_min: u64,
    /// Completed reviews of this record.
    pub review_count: u64,
    /// Times the word was answered "forgot".
    pub lapses: u64,
    /// Most recent completed review, in minutes since the epoch.
    pub last_reviewed_at_min: Option<u64>,
    /// When this record was (re)created, in minutes since the epoch.
    pub created_at_min: u64,
}

/// The one failure `advance` can produce.
#[derive(Clone, Copy, Debug, PartialEq, Eq, Structural)]
pub enum ScheduleError {
    /// The review quality grade was outside `0..=3`.
    InvalidQuality,
}

/// Learning-phase interval ladder, in minutes, indexed by step:
/// 20 minutes, 1 hour, 9 hours, 1 day.
pub open spec fn spec_learning_interval(step: int) -> u64 {
    if step <= 0 {
        20
    } else if step == 1 {
        60
    } else if step == 2 {
        540
    } else {
        1440
    }
}

pub fn learning_interval_minutes(step: u8) -> (m: u64)
    ensures
        m == spec_learning_interval(step as int),
{
    if step == 0 {
        20
    } else if step == 1 {
        60
    } else if step == 2 {
        540
    } else {
        1440
    }
}

/// Clamp a grown review interval between `floor` and `MAX_INTERVAL_DAYS`.
pub open spec fn spec_clamp_days(grown: int, floor: int) -> int {
    if grown < floor {
        floor
    } else if grown > MAX_INTERVAL_DAYS {
        MAX_INTERVAL_DAYS as int
    } else {
        grown
    }
}

/// Next review interval after a "good" answer: at least 2 days, otherwise
/// the floor of the previous interval times the ease factor.
pub open spec fn spec_good_interval(days: u64, ease_tenths: u32) -> int {
    spec_clamp_days((days * ease_tenths) / 10, 2)
}

/// Next review interval after an "easy" answer: at least 3 days, otherwise
/// the floor of the previous interval times the ease factor times 1.3.
pub open spec fn spec_easy_interval(days: u64, ease_tenths: u32) -> int {
    spec_clamp_days((days * ease_tenths * 13) / 100, 3)
}

/// A counter increment that stays put at the integer ceiling instead of
/// overflowing.
pub open spec fn spec_inc(c: u64) -> u64 {
    if c == u64::MAX {
        c
    } else {
        (c + 1) as u64
    }
}

fn inc_saturating(c: u64) -> (r: u64)
    ensures
        r == spec_inc(c),
{
    if c == u64::MAX {
        c
    } else {
        c + 1
    }
}

impl Phase {
    pub open spec fn wf(self) -> bool {
        match self {
            Phase::Learning { step } => step <= 3,
            Phase::Review { interval_days } => GRADUATION_DAYS <= interval_days
                <= MAX_INTERVAL_DAYS,
        }
    }
}

impl ScheduleState {
    /// Internal invariant: every state the scheduler creates satisfies this,
    /// and every operation preserves it.
    pub open spec fn wf(self) -> bool {
        &&& self.phase.wf()
        &&& EASE_FLOOR_TENTHS <= self.ease_tenths <= EASE_CAP_TENTHS
        &&& self.due_at_min <= MAX_NOW_MINUTES + MAX_INTERVAL_DAYS * MINUTES_PER_DAY
        &&& self.created_at_min <= MAX_NOW_MINUTES
        &&& match self.last_reviewed_at_min {
            Some(t) => t <= MAX_NOW_MINUTES,
            None => true,
        }
    }

    /// Length of the interval that produced the current due date, in minutes.
    pub open spec fn spec_interval_minutes(self) -> u64 {
        match self.phase {
            Phase::Learning { step } => spec_learning_interval(step as int),
            Phase::Review { interval_days } => (interval_days * MINUTES_PER_DAY) as u64,
        }
    }

    /// Day-granularity interval; zero while still in the learning phase.
    pub open spec fn spec_interval_days(self) -> u64 {
        match self.phase {
            Phase::Learning { .. } => 0,
            Phase::Review { interval_days } => interval_days,
        }
    }

    pub fn interval_minutes(&self) -> (m: u64)
        requires
            self.wf(),
        ensures
            m == self.spec_interval_minutes(),
    {
        match self.phase {
            Phase::Learning { step } => learning_interval_minutes(step),
            Phase::Review { interval_days } => interval_days * MINUTES_PER_DAY,
        }
    }

    pub fn interval_days(&self) -> (d: u64)
        ensures
            d == self.spec_interval_days(),
    {
        match self.phase {
            Phase::Learning { .. } => 0,
            Phase::Review { interval_days } => interval_days,
        }
    }

    /// The state of a freshly saved word: learning step 0, due 20 minutes out.
    pub open spec fn spec_initial(now_min: u64) -> ScheduleState {
        ScheduleState {
            phase: Phase::Learning { step: 0 },
            ease_tenths: EASE_START_TENTHS,
            due_at_min: (now_min + spec_learning_interval(0)) as u64,
            review_count: 0,
            lapses: 0,
            last_reviewed_at_min: None,
            created_at_min: now_min,
        }
    }

    pub fn initial(now_min: u64) -> (s: ScheduleState)
        requires
            now_min <= MAX_NOW_MINUTES,
        ensures
            s == ScheduleState::spec_initial(now_min),
            s.wf(),
            s.due_at_min > now_min,
    {
        ScheduleState {
            phase: Phase::Learning { step: 0 },
            ease_tenths: EASE_START_TENTHS,
            due_at_min: now_min + 20,
            review_count: 0,
            lapses: 0,
            last_reviewed_at_min: None,
            created_at_min: now_min,
        }
    }

    /// The transition function of the scheduler, written out as the four
    /// rules of the state machine.  `quality` must already be a valid grade.
    pub open spec fn spec_advance(self, quality: u8, now_min: u64) -> ScheduleState {
        if quality < 2 {
            // Forgot: full reset to learning step 0, ease factor knocked
            // down by 0.2 but never below the floor; a lapse is recorded.
            ScheduleState {
                phase: Phase::Learning { step: 0 },
                ease_tenths: if self.ease_tenths >= EASE_FLOOR_TENTHS + 2 {
                    (self.ease_tenths - 2) as u32
                } else {
                    EASE_FLOOR_TENTHS
                },
                due_at_min: (now_min + spec_learning_interval(0)) as u64,
                review_count: spec_inc(self.review_count),
                lapses: spec_inc(self.lapses),
                last_reviewed_at_min: Some(now_min),
                created_at_min: self.created_at_min,
            }
        } else {
            match self.phase {
                Phase::Learning { step } => {
                    if step < 3 {
                        // Still learning: climb one rung of the ladder.
                        ScheduleState {
                            phase: Phase::Learning { step: (step + 1) as u8 },
                            due_at_min: (now_min + spec_learning_interval(step + 1)) as u64,
                            review_count: spec_inc(self.review_count),
                            last_reviewed_at_min: Some(now_min),
                            ..self
                        }
                    } else {
                        // Graduating: enter review with a fixed 2-day interval.
                        ScheduleState {
                            phase: Phase::Review { interval_days: GRADUATION_DAYS },
                            due_at_min: (now_min + GRADUATION_DAYS * MINUTES_PER_DAY) as u64,
                            review_count: spec_inc(self.review_count),
                            last_reviewed_at_min: Some(now_min),
                            ..self
                        }
                    }
                },
                Phase::Review { interval_days } => {
                    let new_days = if quality == 2 {
                        spec_good_interval(interval_days, self.ease_tenths)
                    } else {
                        spec_easy_interval(interval_days, self.ease_tenths)
                    };
                    let new_ease = if quality == 3 && self.ease_tenths < EASE_CAP_TENTHS {
                        (self.ease_tenths + 1) as u32
                    } else {
                        self.ease_tenths
                    };
                    ScheduleState {
                        phase: Phase::Review { interval_days: new_days as u64 },
                        ease_tenths: new_ease,
                        due_at_min: (now_min + new_days * MINUTES_PER_DAY) as u64,
                        review_count: spec_inc(self.review_count),
                        last_reviewed_at_min: Some(now_min),
                        ..self
                    }
                },
            }
        }
    }

    /// Apply one review with grade `quality` (0 = forgot, 1 = hard,
    /// 2 = good, 3 = easy) at time `now_min`.
    ///
    /// Total for every valid grade: it returns exactly the state machine's
    /// transition, which is well formed and due strictly in the future; a
    /// grade above 3 is the only error.
    pub fn advance(&self, quality: u8, now_min: u64) -> (r: Result<ScheduleState, ScheduleError>)
        requires
            self.wf(),
            now_min <= MAX_NOW_MINUTES,
        ensures
            r is Ok <==> quality <= 3,
            r matches Err(e) ==> e == ScheduleError::InvalidQuality,
            quality <= 3 ==> (r matches Ok(s) && s == self.spec_advance(quality, now_min)
                && s.wf() && s.due_at_min > now_min),
    {
        if quality > 3 {
            return Err(ScheduleError::InvalidQuality);
        }
        proof {
            lemma_advance_well_formed(*self, quality, now_min);
        }
        let next = if quality < 2 {
            ScheduleState {
                phase: Phase::Learning { step: 0 },
                ease_tenths: if self.ease_tenths >= EASE_FLOOR_TENTHS + 2 {
                    self.ease_tenths - 2
                } else {
                    EASE_FLOOR_TENTHS
                },
                due_at_min: now_min + 20,
                review_count: inc_saturating(self.review_count),
                lapses: inc_saturating(self.lapses),
                last_reviewed_at_min: Some(now_min),
                created_at_min: self.created_at_min,
            }
        } else {
            match self.phase {
                Phase::Learning { step } => {
                    if step < 3 {
                        ScheduleState {
                            phase: Phase::Learning { step: step + 1 },
                            due_at_min: now_min + learning_interval_minutes(step + 1),
                            review_count: inc_saturating(self.review_count),
                            last_reviewed_at_min: Some(now_min),
                            ..*self
                        }
                    } else {
                        ScheduleState {
                            phase: Phase::Review { interval_days: GRADUATION_DAYS },
                            due_at_min: now_min + GRADUATION_DAYS * MINUTES_PER_DAY,
                            review_count: inc_saturating(self.review_count),
                            last_reviewed_at_min: Some(now_min),
                            ..*self
                        }
                    }
                },
                Phase::Review { interval_days } => {
                    proof {
                        assert(interval_days * (self.ease_tenths as u64) * 13
                            <= MAX_INTERVAL_DAYS * EASE_CAP_TENTHS * 13) by (nonlinear_arith)
                            requires
                                interval_days <= MAX_INTERVAL_DAYS,
                                self.ease_tenths <= EASE_CAP_TENTHS,
                        ;
                    }
                    let grown: u64 = if quality == 2 {
                        interval_days * self.ease_tenths as u64 / 10
                    } else {
                        interval_days * self.ease_tenths as u64 * 13 / 100
                    };
                    let floor: u64 = if quality == 2 {
                        2
                    } else {
                        3
                    };
                    let new_days: u64 = if grown < floor {
                        floor
                    } else if grown > MAX_INTERVAL_DAYS {
                        MAX_INTERVAL_DAYS
                    } else {
                        grown
                    };
                    let new_ease: u32 = if quality == 3 && self.ease_tenths < EASE_CAP_TENTHS {
                        self.ease_tenths + 1
                    } else {
                        self.ease_tenths
                    };
                    ScheduleState {
                        phase: Phase::Review { interval_days: new_days },
                        ease_tenths: new_ease,
                        due_at_min: now_min + new_days * MINUTES_PER_DAY,
                        review_count: inc_saturating(self.review_count),
                        last_reviewed_at_min: Some(now_min),
                        ..*self
                    }
                },
            }
        };
        Ok(next)
    }
}

/// Every transition on a valid grade preserves the state invariant and
/// schedules the next review strictly after the review that produced it.
pub proof fn lemma_advance_well_formed(s: ScheduleState, quality: u8, now_min: u64)
    requires
        s.wf(),
        quality <= 3,
        now_min <= MAX_NOW_MINUTES,
    ensures
        s.spec_advance(quality, now_min).wf(),
        s.spec_advance(quality, now_min).due_at_min > now_min,
{
}

/// The ease factor stays within its band under every transition: it never
/// drops below 1.3, no matter how many consecutive "forgot" answers are
/// applied (each step preserves the floor), and it never exceeds 3.0.
pub proof fn lemma_ease_factor_bounds(s: ScheduleState, quality: u8, now_min: u64)
    requires
        s.wf(),
        quality <= 3,
        now_min <= MAX_NOW_MINUTES,
    ensures
        EASE_FLOOR_TENTHS <= s.spec_advance(quality, now_min).ease_tenths <= EASE_CAP_TENTHS,
{
}

/// Answering "forgot" is idempotent on the scheduling fields: a second
/// quality-0 answer lands on the same learning step, interval and (for the
/// same review time) due date as the first, and once the ease factor has hit
/// its floor it stays there.  Only the review and lapse counters keep
/// advancing.
pub proof fn lemma_forgot_idempotent(s: ScheduleState, now1: u64, now2: u64)
    requires
        s.wf(),
        now1 <= MAX_NOW_MINUTES,
        now2 <= MAX_NOW_MINUTES,
    ensures
        s.spec_advance(0, now1).phase == (Phase::Learning { step: 0u8 }),
        s.spec_advance(0, now1).spec_advance(0, now2).phase == s.spec_advance(0, now1).phase,
        s.spec_advance(0, now1).spec_advance(0, now2).spec_interval_minutes() == s.spec_advance(
            0,
            now1,
        ).spec_interval_minutes(),
        s.spec_advance(0, now1).ease_tenths == EASE_FLOOR_TENTHS ==> s.spec_advance(
            0,
            now1,
        ).spec_advance(0, now2).ease_tenths == EASE_FLOOR_TENTHS,
        now2 == now1 ==> s.spec_advance(0, now1).spec_advance(0, now2).due_at_min
            == s.spec_advance(0, now1).due_at_min,
{
}

/// In the review phase, an "easy" answer never shrinks the day interval.
/// Since the result is again a well-formed review state
/// (`lemma_advance_well_formed`), repeated easy answers keep the interval
/// non-decreasing, while `lemma_ease_factor_bounds` keeps the ease factor
/// at or below its cap throughout.
pub proof fn lemma_easy_interval_monotonic(s: ScheduleState, now_min: u64)
    requires
        s.wf(),
        s.phase is Review,
        now_min <= MAX_NOW_MINUTES,
    ensures
        s.spec_advance(3, now_min).phase is Review,
        s.spec_advance(3, now_min).phase->interval_days >= s.phase->interval_days,
{
    let days = s.phase->interval_days;
    let ease = s.ease_tenths;
    assert(days * ease * 13 >= days * 100) by (nonlinear_arith)
        requires
            ease >= EASE_FLOOR_TENTHS,
            days >= 0,
    ;
    assert((days * ease * 13) / 100 >= (days * 100) / 100) by {
        vstd::arithmetic::div_mod::lemma_div_is_ordered(
            days * 100,
            days * ease * 13,
            100,
        );
    }
    assert((days * 100) / 100 == days) by (nonlinear_arith);
}

} // verus!
