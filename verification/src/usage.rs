//! Daily usage quotas: video parsing and AI chat.
//!
//! A separate, simpler counter than the scheduler: per (user, day) tallies
//! with a fixed daily base limit, a permanent bonus earned through invites,
//! and an unlimited tier.  The arithmetic that turns tallies into a quota
//! decision is pure and exact; the tallies live in a small keyed ledger.

use vstd::prelude::*;

use crate::text::str_eq;

verus! {

/// Base daily free quota for video parsing (resets each day).
pub const FREE_DAILY_BASE_LIMIT: i32 = 5;

/// Bonus quota per successful invite (permanent, cumulative).
pub const INVITE_BONUS_QUOTA: i32 = 3;

/// AI chat daily limit (per user).
pub const AI_CHAT_DAILY_LIMIT: i32 = 20;

/// Quota bound on counter inputs; far above anything a day can accumulate,
/// it keeps the quota arithmetic inside `i32`.
pub const USAGE_COUNT_CAP: i32 = 1_000_000_000;

/// Video-parse quota standing for one user and day.
#[derive(Clone, Copy, Debug, PartialEq, Eq, Structural)]
pub struct UsageStatus {
    pub used: i32,
    pub limit: i32,
    pub remaining: i32,
    /// Permanent extra quota from invitations.
    pub bonus_quota: i32,
}

/// AI-chat quota standing for one user and day.
#[derive(Clone, Copy, Debug, PartialEq, Eq, Structural)]
pub struct AiChatUsageStatus {
    pub used: i32,
    pub limit: i32,
    pub remaining: i32,
}

/// Both quotas together.
#[derive(Clone, Copy, Debug, PartialEq, Eq, Structural)]
pub struct DailyUsageStatus {
    pub video_parse: UsageStatus,
    pub ai_chat: AiChatUsageStatus,
}

/// Today's quota standing, computed from the day's tallies and the user's
/// bonus: the video limit is the base plus the bonus, the chat limit is
/// fixed, and remaining counts never go negative.
pub fn get_daily_usage(video_used: i32, ai_chat_used: i32, bonus_quota: i32) -> (s:
    DailyUsageStatus)
    requires
        0 <= video_used <= USAGE_COUNT_CAP,
        0 <= ai_chat_used <= USAGE_COUNT_CAP,
        0 <= bonus_quota <= USAGE_COUNT_CAP,
    ensures
        s.video_parse.used == video_used,
        s.video_parse.bonus_quota == bonus_quota,
        s.video_parse.limit == FREE_DAILY_BASE_LIMIT + bonus_quota,
        s.video_parse.remaining == (if FREE_DAILY_BASE_LIMIT + bonus_quota - video_used >= 0 {
            FREE_DAILY_BASE_LIMIT + bonus_quota - video_used
        } else {
            0
        }),
        s.ai_chat.used == ai_chat_used,
        s.ai_chat.limit == AI_CHAT_DAILY_LIMIT,
        s.ai_chat.remaining == (if AI_CHAT_DAILY_LIMIT - ai_chat_used >= 0 {
            AI_CHAT_DAILY_LIMIT - ai_chat_used
        } else {
            0
        }),
{
    let total_limit = FREE_DAILY_BASE_LIMIT + bonus_quota;
    let video_remaining = if total_limit - video_used >= 0 {
        total_limit - video_used
    } else {
        0
    };
    let chat_remaining = if AI_CHAT_DAILY_LIMIT - ai_chat_used >= 0 {
        AI_CHAT_DAILY_LIMIT - ai_chat_used
    } else {
        0
    };
    DailyUsageStatus {
        video_parse: UsageStatus {
            used: video_used,
            limit: total_limit,
            remaining: video_remaining,
            bonus_quota,
        },
        ai_chat: AiChatUsageStatus {
            used: ai_chat_used,
            limit: AI_CHAT_DAILY_LIMIT,
            remaining: chat_remaining,
        },
    }
}

/// May this user parse one more video today?  Returns the decision and the
/// quota that would remain after the parse; a "pro" tier user is unlimited
/// (signalled as -1).
pub fn check_can_parse_video(tier: &str, used: i32, bonus_quota: i32) -> (r: (bool, i32))
    requires
        0 <= used <= USAGE_COUNT_CAP,
        0 <= bonus_quota <= USAGE_COUNT_CAP,
    ensures
        tier@ == "pro"@ ==> r == (true, -1i32),
        tier@ != "pro"@ ==> r == (
            FREE_DAILY_BASE_LIMIT + bonus_quota - used > 0,
            (FREE_DAILY_BASE_LIMIT + bonus_quota - used - 1) as i32,
        ),
{
    if str_eq(tier, "pro") {
        return (true, -1);
    }
    let remaining = FREE_DAILY_BASE_LIMIT + bonus_quota - used;
    (remaining > 0, remaining - 1)
}

/// May this user send one more AI chat message today?  Same shape as
/// `check_can_parse_video`, against the fixed chat limit.
pub fn check_can_ai_chat(tier: &str, used: i32) -> (r: (bool, i32))
    requires
        0 <= used <= USAGE_COUNT_CAP,
    ensures
        tier@ == "pro"@ ==> r == (true, -1i32),
        tier@ != "pro"@ ==> r == (
            AI_CHAT_DAILY_LIMIT - used > 0,
            (AI_CHAT_DAILY_LIMIT - used - 1) as i32,
        ),
{
    if str_eq(tier, "pro") {
        return (true, -1);
    }
    let remaining = AI_CHAT_DAILY_LIMIT - used;
    (remaining > 0, remaining - 1)
}

/// One user's tallies for one day.
#[derive(Clone, Debug)]
pub struct UsageRow {
    pub user_id: String,
    /// Day number (days since the epoch).
    pub day: u64,
    pub video_parse_count: i32,
    pub ai_chat_count: i32,
}

/// In-memory per-day usage tallies, one row per (user, day), specified as a
/// keyed map.
pub struct UsageLedger {
    pub rows: Vec<UsageRow>,
}

/// A tally increment that stops at the cap rather than growing without
/// bound.
pub open spec fn spec_inc_capped(c: i32) -> i32 {
    if c >= USAGE_COUNT_CAP {
        c
    } else {
        (c + 1) as i32
    }
}

impl UsageLedger {
    pub open spec fn wf(self) -> bool {
        &&& forall|p: int, q: int|
            0 <= p < q < self.rows@.len() ==> !((#[trigger] self.rows@[p]).user_id@ == (
            #[trigger] self.rows@[q]).user_id@ && self.rows@[p].day == self.rows@[q].day)
        &&& forall|p: int|
            0 <= p < self.rows@.len() ==> 0 <= (#[trigger] self.rows@[p]).video_parse_count
                <= USAGE_COUNT_CAP && 0 <= self.rows@[p].ai_chat_count <= USAGE_COUNT_CAP
    }

    pub open spec fn row_at(self, user: Seq<char>, day: u64, k: int) -> bool {
        0 <= k < self.rows@.len() && self.rows@[k].user_id@ == user && self.rows@[k].day == day
    }

    pub open spec fn has_row(self, user: Seq<char>, day: u64) -> bool {
        exists|k: int| self.row_at(user, day, k)
    }

    /// The day's tallies for a user: (video parses, AI chats); zeros when
    /// the user has no row for the day.
    pub open spec fn spec_counts(self, user: Seq<char>, day: u64) -> (i32, i32) {
        if self.has_row(user, day) {
            let row = self.rows@[choose|k: int| self.row_at(user, day, k)];
            (row.video_parse_count, row.ai_chat_count)
        } else {
            (0, 0)
        }
    }

    pub proof fn lemma_row_index_is(self, user: Seq<char>, day: u64, k: int)
        requires
            self.wf(),
            self.row_at(user, day, k),
        ensures
            self.spec_counts(user, day) == (
                self.rows@[k].video_parse_count,
                self.rows@[k].ai_chat_count,
            ),
    {
        let k2 = choose|k2: int| self.row_at(user, day, k2);
        if k2 < k {
            assert(!(self.rows@[k2].user_id@ == self.rows@[k].user_id@ && self.rows@[k2].day
                == self.rows@[k].day));
        } else if k < k2 {
            assert(!(self.rows@[k].user_id@ == self.rows@[k2].user_id@ && self.rows@[k].day
                == self.rows@[k2].day));
        }
    }

    pub fn new() -> (l: UsageLedger)
        ensures
            l.wf(),
            l.rows@.len() == 0,
    {
        UsageLedger { rows: Vec::new() }
    }

    fn find_row(&self, user_id: &str, day: u64) -> (r: Option<usize>)
        ensures
            r matches Some(k) ==> self.row_at(user_id@, day, k as int),
            r is None ==> !self.has_row(user_id@, day),
    {
        let n = self.rows.len();
        let mut k: usize = 0;
        while k < n
            invariant
                n == self.rows@.len(),
                k <= n,
                forall|p: int|
                    0 <= p < k ==> !((#[trigger] self.rows@[p]).user_id@ == user_id@
                        && self.rows@[p].day == day),
            decreases n - k,
        {
            if self.rows[k].day == day && str_eq(self.rows[k].user_id.as_str(), user_id) {
                return Some(k);
            }
            k = k + 1;
        }
        None
    }

    /// The day's tallies for `user_id`: (video parses, AI chats).
    pub fn get_counts(&self, user_id: &str, day: u64) -> (r: (i32, i32))
        requires
            self.wf(),
        ensures
            r == self.spec_counts(user_id@, day),
    {
        match self.find_row(user_id, day) {
            Some(k) => {
                proof {
                    self.lemma_row_index_is(user_id@, day, k as int);
                }
                (self.rows[k].video_parse_count, self.rows[k].ai_chat_count)
            },
            None => (0, 0),
        }
    }

    /// Store `row` under its (user, day) key, creating or overwriting;
    /// every other key stays put.
    fn put_row(&mut self, user_id: &str, row: UsageRow)
        requires
            old(self).wf(),
            row.user_id@ == user_id@,
            0 <= row.video_parse_count <= USAGE_COUNT_CAP,
            0 <= row.ai_chat_count <= USAGE_COUNT_CAP,
        ensures
            final(self).wf(),
            final(self).spec_counts(user_id@, row.day) == (
                row.video_parse_count,
                row.ai_chat_count,
            ),
            forall|u: Seq<char>, d: u64|
                !(u == user_id@ && d == row.day) ==> final(self).spec_counts(u, d) == old(
                    self,
                ).spec_counts(u, d),
    {
        let ghost pre = *self;
        let ghost day = row.day;
        match self.find_row(user_id, row.day) {
            Some(k) => {
                self.rows.set(k, row);
                proof {
                    assert(forall|p: int|
                        0 <= p < self.rows@.len() && p != k ==> #[trigger] self.rows@[p]
                            == pre.rows@[p]);
                    assert(self.rows@[k as int].user_id@ == pre.rows@[k as int].user_id@);
                    assert(self.rows@[k as int].day == pre.rows@[k as int].day);
                    assert forall|p: int, q: int|
                        0 <= p < q < self.rows@.len() implies !((
                    #[trigger] self.rows@[p]).user_id@ == (#[trigger] self.rows@[q]).user_id@
                        && self.rows@[p].day == self.rows@[q].day) by {
                        assert(self.rows@[p].user_id@ == pre.rows@[p].user_id@
                            && self.rows@[p].day == pre.rows@[p].day);
                        assert(self.rows@[q].user_id@ == pre.rows@[q].user_id@
                            && self.rows@[q].day == pre.rows@[q].day);
                        assert(!(pre.rows@[p].user_id@ == pre.rows@[q].user_id@
                            && pre.rows@[p].day == pre.rows@[q].day));
                    }
                    assert(self.wf());
                    self.lemma_row_index_is(user_id@, day, k as int);
                    assert forall|u: Seq<char>, d: u64|
                        !(u == user_id@ && d == day) implies self.spec_counts(u, d)
                        == pre.spec_counts(u, d) by {
                        if pre.has_row(u, d) {
                            let p = choose|p: int| pre.row_at(u, d, p);
                            assert(pre.row_at(u, d, p));
                            assert(p != k);
                            assert(self.row_at(u, d, p));
                            pre.lemma_row_index_is(u, d, p);
                            self.lemma_row_index_is(u, d, p);
                        } else {
                            if self.has_row(u, d) {
                                let p = choose|p: int| self.row_at(u, d, p);
                                assert(self.row_at(u, d, p));
                                assert(pre.row_at(u, d, p));
                                assert(false);
                            }
                            assert(!self.has_row(u, d));
                        }
                    }
                }
            },
            None => {
                let n = self.rows.len();
                self.rows.push(row);
                proof {
                    assert(forall|p: int| 0 <= p < n ==> #[trigger] self.rows@[p] == pre.rows@[p]);
                    assert(self.rows@[n as int].user_id@ == user_id@);
                    assert(self.rows@[n as int].day == day);
                    assert forall|p: int, q: int|
                        0 <= p < q < self.rows@.len() implies !((
                    #[trigger] self.rows@[p]).user_id@ == (#[trigger] self.rows@[q]).user_id@
                        && self.rows@[p].day == self.rows@[q].day) by {
                        if q < n {
                            assert(!(pre.rows@[p].user_id@ == pre.rows@[q].user_id@
                                && pre.rows@[p].day == pre.rows@[q].day));
                        } else {
                            assert(!pre.row_at(user_id@, day, p));
                        }
                    }
                    assert(self.wf());
                    self.lemma_row_index_is(user_id@, day, n as int);
                    assert forall|u: Seq<char>, d: u64|
                        !(u == user_id@ && d == day) implies self.spec_counts(u, d)
                        == pre.spec_counts(u, d) by {
                        assert(!self.row_at(u, d, n as int));
                        if pre.has_row(u, d) {
                            let p = choose|p: int| pre.row_at(u, d, p);
                            assert(pre.row_at(u, d, p));
                            assert(self.row_at(u, d, p));
                            pre.lemma_row_index_is(u, d, p);
                            self.lemma_row_index_is(u, d, p);
                        } else {
                            if self.has_row(u, d) {
                                let p = choose|p: int| self.row_at(u, d, p);
                                assert(self.row_at(u, d, p));
                                assert(p < n);
                                assert(pre.row_at(u, d, p));
                                assert(false);
                            }
                            assert(!self.has_row(u, d));
                        }
                    }
                }
            },
        }
    }

    /// Count one video parse for `user_id` on `day` and return the new
    /// tally for the day.
    pub fn increment_video_parse_count(&mut self, user_id: &str, day: u64) -> (r: i32)
        requires
            old(self).wf(),
        ensures
            final(self).wf(),
            r == spec_inc_capped(old(self).spec_counts(user_id@, day).0),
            final(self).spec_counts(user_id@, day) == (
                r,
                old(self).spec_counts(user_id@, day).1,
            ),
            forall|u: Seq<char>, d: u64|
                !(u == user_id@ && d == day) ==> final(self).spec_counts(u, d) == old(
                    self,
                ).spec_counts(u, d),
    {
        let (video, chat) = self.get_counts(user_id, day);
        let bumped = if video >= USAGE_COUNT_CAP {
            video
        } else {
            video + 1
        };
        let row = UsageRow {
            user_id: user_id.to_owned(),
            day,
            video_parse_count: bumped,
            ai_chat_count: chat,
        };
        self.put_row(user_id, row);
        bumped
    }

    /// Count one AI chat message for `user_id` on `day` and return the new
    /// tally for the day.
    pub fn increment_ai_chat_count(&mut self, user_id: &str, day: u64) -> (r: i32)
        requires
            old(self).wf(),
        ensures
            final(self).wf(),
            r == spec_inc_capped(old(self).spec_counts(user_id@, day).1),
            final(self).spec_counts(user_id@, day) == (
                old(self).spec_counts(user_id@, day).0,
                r,
            ),
            forall|u: Seq<char>, d: u64|
                !(u == user_id@ && d == day) ==> final(self).spec_counts(u, d) == old(
                    self,
                ).spec_counts(u, d),
    {
        let (video, chat) = self.get_counts(user_id, day);
        let bumped = if chat >= USAGE_COUNT_CAP {
            chat
        } else {
            chat + 1
        };
        let row = UsageRow {
            user_id: user_id.to_owned(),
            day,
            video_parse_count: video,
            ai_chat_count: bumped,
        };
        self.put_row(user_id, row);
        bumped
    }
}

} // verus!
