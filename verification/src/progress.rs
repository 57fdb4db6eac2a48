//! Daily statistics and the study streak.
//!
//! Dates are plain day numbers (days since the Unix epoch, UTC): the streak
//! rules only ever compare a date with "today" and "yesterday", which makes
//! them exact integer logic.  Counters saturate at the integer ceiling
//! instead of overflowing.

use vstd::prelude::*;
use vstd::multiset::Multiset;

use crate::schedule::spec_inc;
use crate::text::str_eq;

verus! {

broadcast use vstd::seq_lib::group_to_multiset_ensures;

/// Per-user, per-day counters.
#[derive(Clone, Copy, Debug, PartialEq, Eq, Structural)]
pub struct DailyStats {
    /// Day number (days since the epoch).
    pub date: u64,
    pub words_learned: u64,
    pub words_reviewed: u64,
    pub correct_count: u64,
    pub incorrect_count: u64,
    pub study_time_minutes: u64,
}

/// Per-user cumulative totals and streak.
#[derive(Clone, Copy, Debug, PartialEq, Eq, Structural)]
pub struct UserProgress {
    pub total_words_learned: u64,
    pub total_reviews: u64,
    pub current_streak: u64,
    pub longest_streak: u64,
    /// Day number of the most recent study event, if any.
    pub last_study_date: Option<u64>,
}

/// The zero counters for `day`.
pub open spec fn spec_empty_stats(day: u64) -> DailyStats {
    DailyStats {
        date: day,
        words_learned: 0,
        words_reviewed: 0,
        correct_count: 0,
        incorrect_count: 0,
        study_time_minutes: 0,
    }
}

/// The progress of a user who has never studied.
pub open spec fn spec_default_progress() -> UserProgress {
    UserProgress {
        total_words_learned: 0,
        total_reviews: 0,
        current_streak: 0,
        longest_streak: 0,
        last_study_date: None,
    }
}

/// The streak rules, applied on a study event dated `today`: a second event
/// on the same day changes nothing; an event on the day after the last one
/// extends the streak; anything else (a gap, or a first event) starts a
/// streak of 1.  The longest streak keeps up, and the last study date moves
/// to `today` in every branch but the first.
pub open spec fn spec_streak_update(p: UserProgress, today: u64) -> UserProgress {
    if p.last_study_date == Some(today) {
        p
    } else if today >= 1 && p.last_study_date == Some((today - 1) as u64) {
        let grown = spec_inc(p.current_streak);
        UserProgress {
            current_streak: grown,
            longest_streak: if p.longest_streak >= grown {
                p.longest_streak
            } else {
                grown
            },
            last_study_date: Some(today),
            ..p
        }
    } else {
        UserProgress {
            current_streak: 1,
            longest_streak: if p.longest_streak >= 1 {
                p.longest_streak
            } else {
                1
            },
            last_study_date: Some(today),
            ..p
        }
    }
}

/// Recompute a user's streak for a study event on day `today`.
pub fn update_streak(p: &UserProgress, today: u64) -> (r: UserProgress)
    ensures
        r == spec_streak_update(*p, today),
{
    let extended: bool = match p.last_study_date {
        Some(d) => today >= 1 && d == today - 1,
        None => false,
    };
    let same_day: bool = match p.last_study_date {
        Some(d) => d == today,
        None => false,
    };
    if same_day {
        *p
    } else if extended {
        let grown = if p.current_streak == u64::MAX {
            p.current_streak
        } else {
            p.current_streak + 1
        };
        UserProgress {
            current_streak: grown,
            longest_streak: if p.longest_streak >= grown {
                p.longest_streak
            } else {
                grown
            },
            last_study_date: Some(today),
            ..*p
        }
    } else {
        UserProgress {
            current_streak: 1,
            longest_streak: if p.longest_streak >= 1 {
                p.longest_streak
            } else {
                1
            },
            last_study_date: Some(today),
            ..*p
        }
    }
}

/// The streak laws: a study event on the day after the last one lengthens
/// the current streak by one; an event after a gap (or a first event)
/// resets it to 1; a second event on the same day changes nothing at all.
/// The longest streak never shrinks and always covers the current one.
pub proof fn lemma_streak_rules(p: UserProgress, today: u64)
    ensures
        p.last_study_date == Some(today) ==> spec_streak_update(p, today) == p,
        (today >= 1 && p.last_study_date == Some((today - 1) as u64) && p.current_streak
            < u64::MAX) ==> spec_streak_update(p, today).current_streak == p.current_streak + 1,
        (p.last_study_date != Some(today) && !(today >= 1 && p.last_study_date == Some(
            (today - 1) as u64,
        ))) ==> spec_streak_update(p, today).current_streak == 1,
        p.last_study_date != Some(today) ==> spec_streak_update(p, today).last_study_date == Some(
            today,
        ),
        spec_streak_update(p, today).longest_streak >= p.longest_streak,
        p.longest_streak >= p.current_streak ==> spec_streak_update(p, today).longest_streak
            >= spec_streak_update(p, today).current_streak,
{
}

/// Total correct answers across a span of daily statistics.
pub open spec fn spec_total_correct(s: Seq<DailyStats>) -> int
    decreases s.len(),
{
    if s.len() == 0 {
        0
    } else {
        spec_total_correct(s.drop_last()) + s.last().correct_count
    }
}

/// Total completed reviews across a span of daily statistics.
pub open spec fn spec_total_reviewed(s: Seq<DailyStats>) -> int
    decreases s.len(),
{
    if s.len() == 0 {
        0
    } else {
        spec_total_reviewed(s.drop_last()) + s.last().words_reviewed
    }
}

/// The totals an accuracy rate is computed from: (correct answers,
/// completed reviews) summed over `stats`.
pub fn review_totals(stats: &Vec<DailyStats>) -> (r: (u128, u128))
    ensures
        r.0 == spec_total_correct(stats@),
        r.1 == spec_total_reviewed(stats@),
{
    let n = stats.len();
    let mut correct: u128 = 0;
    let mut reviewed: u128 = 0;
    let mut i: usize = 0;
    while i < n
        invariant
            n == stats@.len(),
            i <= n,
            correct == spec_total_correct(stats@.take(i as int)),
            reviewed == spec_total_reviewed(stats@.take(i as int)),
            correct <= i * 0x1_0000_0000_0000_0000,
            reviewed <= i * 0x1_0000_0000_0000_0000,
        decreases n - i,
    {
        proof {
            assert(stats@.take(i + 1).drop_last() =~= stats@.take(i as int));
            assert(stats@.take(i + 1).last() == stats@[i as int]);
        }
        correct = correct + stats[i].correct_count as u128;
        reviewed = reviewed + stats[i].words_reviewed as u128;
        i = i + 1;
    }
    proof {
        stats@.lemma_take_len();
    }
    (correct, reviewed)
}

/// One user's progress row.
#[derive(Clone, Debug)]
pub struct ProgressRow {
    pub user_id: String,
    pub progress: UserProgress,
}

/// One user's counters for one day.
#[derive(Clone, Debug)]
pub struct StatRow {
    pub user_id: String,
    pub stats: DailyStats,
}

/// In-memory learning statistics: one progress row per user, one counter
/// row per (user, day), specified as keyed maps.
pub struct ProgressTracker {
    pub progress: Vec<ProgressRow>,
    pub daily: Vec<StatRow>,
}

impl ProgressTracker {
    pub open spec fn wf(self) -> bool {
        &&& forall|p: int, q: int|
            0 <= p < q < self.progress@.len() ==> (#[trigger] self.progress@[p]).user_id@ != (
            #[trigger] self.progress@[q]).user_id@
        &&& forall|p: int, q: int|
            0 <= p < q < self.daily@.len() ==> !((#[trigger] self.daily@[p]).user_id@ == (
            #[trigger] self.daily@[q]).user_id@ && self.daily@[p].stats.date
                == self.daily@[q].stats.date)
    }

    pub open spec fn progress_at(self, user: Seq<char>, k: int) -> bool {
        0 <= k < self.progress@.len() && self.progress@[k].user_id@ == user
    }

    pub open spec fn has_progress(self, user: Seq<char>) -> bool {
        exists|k: int| self.progress_at(user, k)
    }

    /// The tracker as a map from user to progress.
    pub open spec fn spec_progress(self, user: Seq<char>) -> Option<UserProgress> {
        if self.has_progress(user) {
            Some(self.progress@[choose|k: int| self.progress_at(user, k)].progress)
        } else {
            None
        }
    }

    /// The progress a caller observes: the stored row, or the zero default.
    pub open spec fn spec_progress_or_default(self, user: Seq<char>) -> UserProgress {
        match self.spec_progress(user) {
            Some(p) => p,
            None => spec_default_progress(),
        }
    }

    pub open spec fn stats_at(self, user: Seq<char>, day: u64, k: int) -> bool {
        0 <= k < self.daily@.len() && self.daily@[k].user_id@ == user && self.daily@[k].stats.date
            == day
    }

    pub open spec fn has_stats(self, user: Seq<char>, day: u64) -> bool {
        exists|k: int| self.stats_at(user, day, k)
    }

    /// The tracker as a map from (user, day) to counters.
    pub open spec fn spec_stats(self, user: Seq<char>, day: u64) -> Option<DailyStats> {
        if self.has_stats(user, day) {
            Some(self.daily@[choose|k: int| self.stats_at(user, day, k)].stats)
        } else {
            None
        }
    }

    /// The counters a caller observes for a day: the stored row, or zeros.
    pub open spec fn spec_stats_or_empty(self, user: Seq<char>, day: u64) -> DailyStats {
        match self.spec_stats(user, day) {
            Some(s) => s,
            None => spec_empty_stats(day),
        }
    }

    pub proof fn lemma_progress_index_is(self, user: Seq<char>, k: int)
        requires
            self.wf(),
            self.progress_at(user, k),
        ensures
            self.spec_progress(user) == Some(self.progress@[k].progress),
    {
        let k2 = choose|k2: int| self.progress_at(user, k2);
        if k2 < k {
            assert(self.progress@[k2].user_id@ != self.progress@[k].user_id@);
        } else if k < k2 {
            assert(self.progress@[k].user_id@ != self.progress@[k2].user_id@);
        }
    }

    pub proof fn lemma_stats_index_is(self, user: Seq<char>, day: u64, k: int)
        requires
            self.wf(),
            self.stats_at(user, day, k),
        ensures
            self.spec_stats(user, day) == Some(self.daily@[k].stats),
    {
        let k2 = choose|k2: int| self.stats_at(user, day, k2);
        if k2 < k {
            assert(!(self.daily@[k2].user_id@ == self.daily@[k].user_id@
                && self.daily@[k2].stats.date == self.daily@[k].stats.date));
        } else if k < k2 {
            assert(!(self.daily@[k].user_id@ == self.daily@[k2].user_id@
                && self.daily@[k].stats.date == self.daily@[k2].stats.date));
        }
    }

    /// Two well-formed trackers with the same daily rows agree, as maps, on
    /// every (user, day) key.
    pub proof fn lemma_same_daily_same_stats(self, other: ProgressTracker)
        requires
            self.wf(),
            other.wf(),
            self.daily@ == other.daily@,
        ensures
            forall|u: Seq<char>, d: u64| self.spec_stats(u, d) == other.spec_stats(u, d),
    {
        assert forall|u: Seq<char>, d: u64| self.spec_stats(u, d) == other.spec_stats(u, d) by {
            if other.has_stats(u, d) {
                let p = choose|p: int| other.stats_at(u, d, p);
                assert(other.stats_at(u, d, p));
                assert(self.stats_at(u, d, p));
                self.lemma_stats_index_is(u, d, p);
                other.lemma_stats_index_is(u, d, p);
            } else {
                if self.has_stats(u, d) {
                    let p = choose|p: int| self.stats_at(u, d, p);
                    assert(self.stats_at(u, d, p));
                    assert(other.stats_at(u, d, p));
                    assert(false);
                }
                assert(!self.has_stats(u, d));
            }
        }
    }

    /// Two well-formed trackers with the same progress rows agree, as maps,
    /// on every user.
    pub proof fn lemma_same_progress_same_map(self, other: ProgressTracker)
        requires
            self.wf(),
            other.wf(),
            self.progress@ == other.progress@,
        ensures
            forall|u: Seq<char>| self.spec_progress(u) == other.spec_progress(u),
    {
        assert forall|u: Seq<char>| self.spec_progress(u) == other.spec_progress(u) by {
            if other.has_progress(u) {
                let p = choose|p: int| other.progress_at(u, p);
                assert(other.progress_at(u, p));
                assert(self.progress_at(u, p));
                self.lemma_progress_index_is(u, p);
                other.lemma_progress_index_is(u, p);
            } else {
                if self.has_progress(u) {
                    let p = choose|p: int| self.progress_at(u, p);
                    assert(self.progress_at(u, p));
                    assert(other.progress_at(u, p));
                    assert(false);
                }
                assert(!self.has_progress(u));
            }
        }
    }

    pub fn new() -> (t: ProgressTracker)
        ensures
            t.wf(),
            t.progress@.len() == 0,
            t.daily@.len() == 0,
    {
        ProgressTracker { progress: Vec::new(), daily: Vec::new() }
    }

    fn find_progress(&self, user_id: &str) -> (r: Option<usize>)
        ensures
            r matches Some(k) ==> self.progress_at(user_id@, k as int),
            r is None ==> !self.has_progress(user_id@),
    {
        let n = self.progress.len();
        let mut k: usize = 0;
        while k < n
            invariant
                n == self.progress@.len(),
                k <= n,
                forall|p: int| 0 <= p < k ==> (#[trigger] self.progress@[p]).user_id@ != user_id@,
            decreases n - k,
        {
            if str_eq(self.progress[k].user_id.as_str(), user_id) {
                return Some(k);
            }
            k = k + 1;
        }
        None
    }

    fn find_stats(&self, user_id: &str, day: u64) -> (r: Option<usize>)
        ensures
            r matches Some(k) ==> self.stats_at(user_id@, day, k as int),
            r is None ==> !self.has_stats(user_id@, day),
    {
        let n = self.daily.len();
        let mut k: usize = 0;
        while k < n
            invariant
                n == self.daily@.len(),
                k <= n,
                forall|p: int|
                    0 <= p < k ==> !((#[trigger] self.daily@[p]).user_id@ == user_id@
                        && self.daily@[p].stats.date == day),
            decreases n - k,
        {
            if self.daily[k].stats.date == day && str_eq(self.daily[k].user_id.as_str(), user_id) {
                return Some(k);
            }
            k = k + 1;
        }
        None
    }

    /// Store `stats` as `user_id`'s row for day `stats.date`, creating or
    /// overwriting it; every other (user, day) row stays put.
    fn put_stats(&mut self, user_id: &str, stats: DailyStats)
        requires
            old(self).wf(),
        ensures
            final(self).wf(),
            final(self).progress@ == old(self).progress@,
            final(self).spec_stats(user_id@, stats.date) == Some(stats),
            forall|u: Seq<char>, d: u64|
                !(u == user_id@ && d == stats.date) ==> final(self).spec_stats(u, d) == old(
                    self,
                ).spec_stats(u, d),
    {
        let ghost pre = *self;
        match self.find_stats(user_id, stats.date) {
            Some(k) => {
                let user_string = self.daily[k].user_id.clone();
                self.daily.set(k, StatRow { user_id: user_string, stats });
                proof {
                    assert(forall|p: int|
                        0 <= p < self.daily@.len() && p != k ==> #[trigger] self.daily@[p]
                            == pre.daily@[p]);
                    assert(self.daily@[k as int].user_id@ == pre.daily@[k as int].user_id@);
                    assert(self.daily@[k as int].stats.date == pre.daily@[k as int].stats.date);
                    assert forall|p: int, q: int|
                        0 <= p < q < self.daily@.len() implies !((
                    #[trigger] self.daily@[p]).user_id@ == (#[trigger] self.daily@[q]).user_id@
                        && self.daily@[p].stats.date == self.daily@[q].stats.date) by {
                        assert(self.daily@[p].user_id@ == pre.daily@[p].user_id@
                            && self.daily@[p].stats.date == pre.daily@[p].stats.date);
                        assert(self.daily@[q].user_id@ == pre.daily@[q].user_id@
                            && self.daily@[q].stats.date == pre.daily@[q].stats.date);
                        assert(!(pre.daily@[p].user_id@ == pre.daily@[q].user_id@
                            && pre.daily@[p].stats.date == pre.daily@[q].stats.date));
                    }
                    assert(self.wf());
                    self.lemma_stats_index_is(user_id@, stats.date, k as int);
                    assert forall|u: Seq<char>, d: u64|
                        !(u == user_id@ && d == stats.date) implies self.spec_stats(u, d)
                        == pre.spec_stats(u, d) by {
                        if pre.has_stats(u, d) {
                            let p = choose|p: int| pre.stats_at(u, d, p);
                            assert(pre.stats_at(u, d, p));
                            assert(p != k);
                            assert(self.stats_at(u, d, p));
                            pre.lemma_stats_index_is(u, d, p);
                            self.lemma_stats_index_is(u, d, p);
                        } else {
                            if self.has_stats(u, d) {
                                let p = choose|p: int| self.stats_at(u, d, p);
                                assert(self.stats_at(u, d, p));
                                assert(pre.stats_at(u, d, p));
                                assert(false);
                            }
                            assert(!self.has_stats(u, d));
                        }
                    }
                }
            },
            None => {
                let n = self.daily.len();
                self.daily.push(StatRow { user_id: user_id.to_owned(), stats });
                proof {
                    assert(forall|p: int|
                        0 <= p < n ==> #[trigger] self.daily@[p] == pre.daily@[p]);
                    assert(self.daily@[n as int].user_id@ == user_id@);
                    assert(self.daily@[n as int].stats.date == stats.date);
                    assert forall|p: int, q: int|
                        0 <= p < q < self.daily@.len() implies !((
                    #[trigger] self.daily@[p]).user_id@ == (#[trigger] self.daily@[q]).user_id@
                        && self.daily@[p].stats.date == self.daily@[q].stats.date) by {
                        if q < n {
                            assert(!(pre.daily@[p].user_id@ == pre.daily@[q].user_id@
                                && pre.daily@[p].stats.date == pre.daily@[q].stats.date));
                        } else {
                            assert(!pre.stats_at(user_id@, stats.date, p));
                        }
                    }
                    assert(self.wf());
                    self.lemma_stats_index_is(user_id@, stats.date, n as int);
                    assert forall|u: Seq<char>, d: u64|
                        !(u == user_id@ && d == stats.date) implies self.spec_stats(u, d)
                        == pre.spec_stats(u, d) by {
                        assert(!self.stats_at(u, d, n as int));
                        if pre.has_stats(u, d) {
                            let p = choose|p: int| pre.stats_at(u, d, p);
                            assert(pre.stats_at(u, d, p));
                            assert(self.stats_at(u, d, p));
                            pre.lemma_stats_index_is(u, d, p);
                            self.lemma_stats_index_is(u, d, p);
                        } else {
                            if self.has_stats(u, d) {
                                let p = choose|p: int| self.stats_at(u, d, p);
                                assert(self.stats_at(u, d, p));
                                assert(p < n);
                                assert(pre.stats_at(u, d, p));
                                assert(false);
                            }
                            assert(!self.has_stats(u, d));
                        }
                    }
                }
            },
        }
    }

    /// Store `progress` as `user_id`'s progress row, creating or
    /// overwriting it; every other user's row stays put.
    fn put_progress(&mut self, user_id: &str, progress: UserProgress)
        requires
            old(self).wf(),
        ensures
            final(self).wf(),
            final(self).daily@ == old(self).daily@,
            final(self).spec_progress(user_id@) == Some(progress),
            forall|u: Seq<char>|
                u != user_id@ ==> final(self).spec_progress(u) == old(self).spec_progress(u),
    {
        let ghost pre = *self;
        match self.find_progress(user_id) {
            Some(k) => {
                let user_string = self.progress[k].user_id.clone();
                self.progress.set(k, ProgressRow { user_id: user_string, progress });
                proof {
                    assert(forall|p: int|
                        0 <= p < self.progress@.len() && p != k ==> #[trigger] self.progress@[p]
                            == pre.progress@[p]);
                    assert(self.progress@[k as int].user_id@ == pre.progress@[k as int].user_id@);
                    assert forall|p: int, q: int|
                        0 <= p < q < self.progress@.len() implies (
                    #[trigger] self.progress@[p]).user_id@ != (
                    #[trigger] self.progress@[q]).user_id@ by {
                        assert(self.progress@[p].user_id@ == pre.progress@[p].user_id@);
                        assert(self.progress@[q].user_id@ == pre.progress@[q].user_id@);
                        assert(pre.progress@[p].user_id@ != pre.progress@[q].user_id@);
                    }
                    assert(self.wf());
                    self.lemma_progress_index_is(user_id@, k as int);
                    assert forall|u: Seq<char>| u != user_id@ implies self.spec_progress(u)
                        == pre.spec_progress(u) by {
                        if pre.has_progress(u) {
                            let p = choose|p: int| pre.progress_at(u, p);
                            assert(pre.progress_at(u, p));
                            assert(p != k);
                            assert(self.progress_at(u, p));
                            pre.lemma_progress_index_is(u, p);
                            self.lemma_progress_index_is(u, p);
                        } else {
                            if self.has_progress(u) {
                                let p = choose|p: int| self.progress_at(u, p);
                                assert(self.progress_at(u, p));
                                assert(pre.progress_at(u, p));
                                assert(false);
                            }
                            assert(!self.has_progress(u));
                        }
                    }
                }
            },
            None => {
                let n = self.progress.len();
                self.progress.push(ProgressRow { user_id: user_id.to_owned(), progress });
                proof {
                    assert(forall|p: int|
                        0 <= p < n ==> #[trigger] self.progress@[p] == pre.progress@[p]);
                    assert(self.progress@[n as int].user_id@ == user_id@);
                    assert forall|p: int, q: int|
                        0 <= p < q < self.progress@.len() implies (
                    #[trigger] self.progress@[p]).user_id@ != (
                    #[trigger] self.progress@[q]).user_id@ by {
                        if q < n {
                            assert(pre.progress@[p].user_id@ != pre.progress@[q].user_id@);
                        } else {
                            assert(!pre.progress_at(user_id@, p));
                        }
                    }
                    assert(self.wf());
                    self.lemma_progress_index_is(user_id@, n as int);
                    assert forall|u: Seq<char>| u != user_id@ implies self.spec_progress(u)
                        == pre.spec_progress(u) by {
                        assert(!self.progress_at(u, n as int));
                        if pre.has_progress(u) {
                            let p = choose|p: int| pre.progress_at(u, p);
                            assert(pre.progress_at(u, p));
                            assert(self.progress_at(u, p));
                            pre.lemma_progress_index_is(u, p);
                            self.lemma_progress_index_is(u, p);
                        } else {
                            if self.has_progress(u) {
                                let p = choose|p: int| self.progress_at(u, p);
                                assert(self.progress_at(u, p));
                                assert(p < n);
                                assert(pre.progress_at(u, p));
                                assert(false);
                            }
                            assert(!self.has_progress(u));
                        }
                    }
                }
            },
        }
    }

    fn stats_or_empty(&self, user_id: &str, day: u64) -> (s: DailyStats)
        requires
            self.wf(),
        ensures
            s == self.spec_stats_or_empty(user_id@, day),
    {
        match self.find_stats(user_id, day) {
            Some(k) => {
                proof {
                    self.lemma_stats_index_is(user_id@, day, k as int);
                }
                self.daily[k].stats
            },
            None => DailyStats {
                date: day,
                words_learned: 0,
                words_reviewed: 0,
                correct_count: 0,
                incorrect_count: 0,
                study_time_minutes: 0,
            },
        }
    }

    fn progress_or_default(&self, user_id: &str) -> (p: UserProgress)
        requires
            self.wf(),
        ensures
            p == self.spec_progress_or_default(user_id@),
    {
        match self.find_progress(user_id) {
            Some(k) => {
                proof {
                    self.lemma_progress_index_is(user_id@, k as int);
                }
                self.progress[k].progress
            },
            None => UserProgress {
                total_words_learned: 0,
                total_reviews: 0,
                current_streak: 0,
                longest_streak: 0,
                last_study_date: None,
            },
        }
    }

    /// A newly learned word on day `today`: bump the day's learned counter
    /// and the user's total, then recompute the streak.
    pub fn record_word_learned(&mut self, user_id: &str, today: u64)
        requires
            old(self).wf(),
        ensures
            final(self).wf(),
            final(self).spec_stats(user_id@, today) == Some(
                DailyStats {
                    words_learned: spec_inc(
                        old(self).spec_stats_or_empty(user_id@, today).words_learned,
                    ),
                    ..old(self).spec_stats_or_empty(user_id@, today)
                },
            ),
            final(self).spec_progress(user_id@) == Some(
                spec_streak_update(
                    UserProgress {
                        total_words_learned: spec_inc(
                            old(self).spec_progress_or_default(user_id@).total_words_learned,
                        ),
                        ..old(self).spec_progress_or_default(user_id@)
                    },
                    today,
                ),
            ),
            forall|u: Seq<char>, d: u64|
                !(u == user_id@ && d == today) ==> final(self).spec_stats(u, d) == old(
                    self,
                ).spec_stats(u, d),
            forall|u: Seq<char>|
                u != user_id@ ==> final(self).spec_progress(u) == old(self).spec_progress(u),
    {
        let mut stats = self.stats_or_empty(user_id, today);
        stats.words_learned = if stats.words_learned == u64::MAX {
            stats.words_learned
        } else {
            stats.words_learned + 1
        };
        self.put_stats(user_id, stats);
        let ghost s1 = *self;
        proof {
            s1.lemma_same_progress_same_map(*old(self));
        }
        let mut p = self.progress_or_default(user_id);
        p.total_words_learned = if p.total_words_learned == u64::MAX {
            p.total_words_learned
        } else {
            p.total_words_learned + 1
        };
        let p2 = update_streak(&p, today);
        self.put_progress(user_id, p2);
        proof {
            self.lemma_same_daily_same_stats(s1);
        }
    }

    /// A completed review on day `today`: bump the day's review counter and
    /// its correct or incorrect counter, bump the user's total reviews,
    /// then recompute the streak.
    pub fn record_review(&mut self, user_id: &str, is_correct: bool, today: u64)
        requires
            old(self).wf(),
        ensures
            final(self).wf(),
            final(self).spec_stats(user_id@, today) == Some(
                DailyStats {
                    words_reviewed: spec_inc(
                        old(self).spec_stats_or_empty(user_id@, today).words_reviewed,
                    ),
                    correct_count: if is_correct {
                        spec_inc(old(self).spec_stats_or_empty(user_id@, today).correct_count)
                    } else {
                        old(self).spec_stats_or_empty(user_id@, today).correct_count
                    },
                    incorrect_count: if is_correct {
                        old(self).spec_stats_or_empty(user_id@, today).incorrect_count
                    } else {
                        spec_inc(old(self).spec_stats_or_empty(user_id@, today).incorrect_count)
                    },
                    ..old(self).spec_stats_or_empty(user_id@, today)
                },
            ),
            final(self).spec_progress(user_id@) == Some(
                spec_streak_update(
                    UserProgress {
                        total_reviews: spec_inc(
                            old(self).spec_progress_or_default(user_id@).total_reviews,
                        ),
                        ..old(self).spec_progress_or_default(user_id@)
                    },
                    today,
                ),
            ),
            forall|u: Seq<char>, d: u64|
                !(u == user_id@ && d == today) ==> final(self).spec_stats(u, d) == old(
                    self,
                ).spec_stats(u, d),
            forall|u: Seq<char>|
                u != user_id@ ==> final(self).spec_progress(u) == old(self).spec_progress(u),
    {
        let mut stats = self.stats_or_empty(user_id, today);
        stats.words_reviewed = if stats.words_reviewed == u64::MAX {
            stats.words_reviewed
        } else {
            stats.words_reviewed + 1
        };
        if is_correct {
            stats.correct_count = if stats.correct_count == u64::MAX {
                stats.correct_count
            } else {
                stats.correct_count + 1
            };
        } else {
            stats.incorrect_count = if stats.incorrect_count == u64::MAX {
                stats.incorrect_count
            } else {
                stats.incorrect_count + 1
            };
        }
        self.put_stats(user_id, stats);
        let ghost s1 = *self;
        proof {
            s1.lemma_same_progress_same_map(*old(self));
        }
        let mut p = self.progress_or_default(user_id);
        p.total_reviews = if p.total_reviews == u64::MAX {
            p.total_reviews
        } else {
            p.total_reviews + 1
        };
        let p2 = update_streak(&p, today);
        self.put_progress(user_id, p2);
        proof {
            self.lemma_same_daily_same_stats(s1);
        }
    }

    /// A user's progress; a user never seen gets the zero default (and a
    /// row for it, as the persistent store would create one).
    pub fn get_user_progress(&mut self, user_id: &str) -> (p: UserProgress)
        requires
            old(self).wf(),
        ensures
            final(self).wf(),
            p == old(self).spec_progress_or_default(user_id@),
            final(self).spec_progress(user_id@) == Some(p),
            final(self).daily@ == old(self).daily@,
            forall|u: Seq<char>|
                u != user_id@ ==> final(self).spec_progress(u) == old(self).spec_progress(u),
    {
        let p = self.progress_or_default(user_id);
        self.put_progress(user_id, p);
        p
    }

    /// The counters for `user_id` on day `today`, zeros when absent.
    pub fn get_today_stats(&self, user_id: &str, today: u64) -> (s: DailyStats)
        requires
            self.wf(),
        ensures
            s == self.spec_stats_or_empty(user_id@, today),
    {
        self.stats_or_empty(user_id, today)
    }

    /// The counter rows of `user_id` for days at or after `start_day`,
    /// most recent day first.
    pub fn get_daily_stats(&self, user_id: &str, start_day: u64) -> (out: Vec<DailyStats>)
        requires
            self.wf(),
        ensures
            out@.to_multiset() == self.daily@.filter(
                |r: StatRow| r.user_id@ == user_id@ && r.stats.date >= start_day,
            ).map_values(|r: StatRow| r.stats).to_multiset(),
            forall|p: int, q: int| 0 <= p < q < out@.len() ==> out@[p].date >= out@[q].date,
    {
        let n = self.daily.len();
        let mut picked: Vec<DailyStats> = Vec::new();
        let mut k: usize = 0;
        while k < n
            invariant
                self.wf(),
                n == self.daily@.len(),
                k <= n,
                picked@ == self.daily@.take(k as int).filter(
                    |r: StatRow| r.user_id@ == user_id@ && r.stats.date >= start_day,
                ).map_values(|r: StatRow| r.stats),
            decreases n - k,
        {
            proof {
                self.daily@.lemma_take_succ_push(k as int);
                self.daily@.take(k as int).lemma_filter_push(
                    self.daily@[k as int],
                    |r: StatRow| r.user_id@ == user_id@ && r.stats.date >= start_day,
                );
                assert(self.daily@.take(k as int).filter(
                    |r: StatRow| r.user_id@ == user_id@ && r.stats.date >= start_day,
                ).push(self.daily@[k as int]).map_values(|r: StatRow| r.stats)
                    =~= self.daily@.take(k as int).filter(
                    |r: StatRow| r.user_id@ == user_id@ && r.stats.date >= start_day,
                ).map_values(|r: StatRow| r.stats).push(self.daily@[k as int].stats));
            }
            if self.daily[k].stats.date >= start_day && str_eq(
                self.daily[k].user_id.as_str(),
                user_id,
            ) {
                let s = self.daily[k].stats;
                picked.push(s);
            }
            k = k + 1;
        }
        proof {
            self.daily@.lemma_take_len();
        }
        let ghost source = picked@;
        let mut work = picked;
        let mut out: Vec<DailyStats> = Vec::new();
        while work.len() > 0
            invariant
                work@.to_multiset().add(out@.to_multiset()) == source.to_multiset(),
                forall|p: int, q: int| 0 <= p < q < out@.len() ==> out@[p].date >= out@[q].date,
                forall|p: int, q: int|
                    0 <= p < out@.len() && 0 <= q < work@.len() ==> out@[p].date >= work@[q].date,
            decreases work@.len(),
        {
            let wn = work.len();
            let mut mi: usize = 0;
            let mut j: usize = 1;
            while j < wn
                invariant
                    wn == work@.len(),
                    mi < wn,
                    j <= wn,
                    forall|p: int| 0 <= p < j ==> work@[mi as int].date >= work@[p].date,
                decreases wn - j,
            {
                if work[j].date > work[mi].date {
                    mi = j;
                }
                j = j + 1;
            }
            let ghost work_pre = work@;
            let ghost out_pre = out@;
            let e = work.remove(mi);
            out.push(e);
            proof {
                assert(work_pre.contains(e)) by {
                    assert(work_pre[mi as int] == e);
                }
                assert(work@.to_multiset() =~= work_pre.to_multiset().remove(e));
                assert(out@.to_multiset() =~= out_pre.to_multiset().insert(e));
                assert(work@.to_multiset().add(out@.to_multiset()) =~= work_pre.to_multiset().add(
                    out_pre.to_multiset(),
                ));
                assert(forall|q: int|
                    0 <= q < work@.len() ==> e.date >= (#[trigger] work@[q]).date) by {
                    assert(forall|q: int|
                        0 <= q < work@.len() ==> work@[q] == (if q < mi {
                            work_pre[q]
                        } else {
                            work_pre[q + 1]
                        }));
                }
            }
        }
        proof {
            assert(work@.to_multiset() =~= Multiset::<DailyStats>::empty());
            assert(out@.to_multiset() =~= source.to_multiset());
        }
        out
    }
}

} // verus!
