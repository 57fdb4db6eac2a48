//! Extracting a video identifier from a YouTube URL.
//!
//! The identifier is the text after the first `youtu.be/` (short links) or,
//! failing that, after the first `v=` (watch links), truncated at the next
//! occurrence of the marker and at the first query/fragment separator.

use vstd::prelude::*;
use vstd::string::StrSliceExecFns;

use crate::text::str_eq;

verus! {

/// Default Apify calls per user per day.
pub const APIFY_DAILY_LIMIT_DEFAULT: u32 = 2;

/// Daily Apify calls for users who have invited friends.
pub const APIFY_DAILY_LIMIT_INVITED: u32 = 3;

/// The daily Apify quota a user is entitled to.
pub open spec fn spec_apify_limit(has_invited: bool) -> u32 {
    if has_invited {
        APIFY_DAILY_LIMIT_INVITED
    } else {
        APIFY_DAILY_LIMIT_DEFAULT
    }
}

pub fn get_apify_limit(has_invited: bool) -> (r: u32)
    ensures
        r == spec_apify_limit(has_invited),
{
    if has_invited {
        APIFY_DAILY_LIMIT_INVITED
    } else {
        APIFY_DAILY_LIMIT_DEFAULT
    }
}

/// One user's Apify call count for the tracker's current day.
#[derive(Clone, Debug)]
pub struct ApifyCount {
    pub user_id: String,
    pub count: u32,
}

/// Per-user, per-day Apify usage.  Only the day of the most recent
/// increment is ever retained (older days are dropped on increment, and a
/// day with no entry counts as zero), so the tracker holds one day: its key
/// is the (year, day-of-year) pair of the last increment.
pub struct ApifyUsage {
    pub year: i32,
    pub ordinal: u32,
    pub counts: Vec<ApifyCount>,
}

impl ApifyUsage {
    pub open spec fn wf(self) -> bool {
        forall|p: int, q: int|
            0 <= p < q < self.counts@.len() ==> (#[trigger] self.counts@[p]).user_id@ != (
            #[trigger] self.counts@[q]).user_id@
    }

    pub open spec fn count_at(self, user: Seq<char>, k: int) -> bool {
        0 <= k < self.counts@.len() && self.counts@[k].user_id@ == user
    }

    pub open spec fn has_count(self, user: Seq<char>) -> bool {
        exists|k: int| self.count_at(user, k)
    }

    /// Calls charged to `user` on day (`year`, `ordinal`).
    pub open spec fn spec_count(self, user: Seq<char>, year: i32, ordinal: u32) -> u32 {
        if year == self.year && ordinal == self.ordinal && self.has_count(user) {
            self.counts@[choose|k: int| self.count_at(user, k)].count
        } else {
            0
        }
    }

    pub proof fn lemma_count_index_is(self, user: Seq<char>, k: int)
        requires
            self.wf(),
            self.count_at(user, k),
        ensures
            self.spec_count(user, self.year, self.ordinal) == self.counts@[k].count,
    {
        let k2 = choose|k2: int| self.count_at(user, k2);
        if k2 < k {
            assert(self.counts@[k2].user_id@ != self.counts@[k].user_id@);
        } else if k < k2 {
            assert(self.counts@[k].user_id@ != self.counts@[k2].user_id@);
        }
    }

    /// A tracker with no usage recorded for any user or day.
    pub fn new() -> (t: ApifyUsage)
        ensures
            t.wf(),
            forall|u: Seq<char>, y: i32, d: u32| t.spec_count(u, y, d) == 0,
    {
        let t = ApifyUsage { year: 0, ordinal: 0, counts: Vec::new() };
        proof {
            assert forall|u: Seq<char>, y: i32, d: u32| t.spec_count(u, y, d) == 0 by {
                if t.has_count(u) {
                    let k = choose|k: int| t.count_at(u, k);
                    assert(t.count_at(u, k));
                    assert(false);
                }
            }
        }
        t
    }

    fn find_count(&self, user_id: &str) -> (r: Option<usize>)
        ensures
            r matches Some(k) ==> self.count_at(user_id@, k as int),
            r is None ==> !self.has_count(user_id@),
    {
        let n = self.counts.len();
        let mut k: usize = 0;
        while k < n
            invariant
                n == self.counts@.len(),
                k <= n,
                forall|p: int| 0 <= p < k ==> (#[trigger] self.counts@[p]).user_id@ != user_id@,
            decreases n - k,
        {
            if str_eq(self.counts[k].user_id.as_str(), user_id) {
                return Some(k);
            }
            k = k + 1;
        }
        None
    }

    fn count_for(&self, user_id: &str, year: i32, ordinal: u32) -> (r: u32)
        requires
            self.wf(),
        ensures
            r == self.spec_count(user_id@, year, ordinal),
    {
        if year != self.year || ordinal != self.ordinal {
            return 0;
        }
        match self.find_count(user_id) {
            Some(k) => {
                proof {
                    self.lemma_count_index_is(user_id@, k as int);
                }
                self.counts[k].count
            },
            None => 0,
        }
    }

    /// Whether `user_id` may still call Apify on day (`year`, `ordinal`).
    pub fn check_apify_rate_limit(
        &self,
        user_id: &str,
        has_invited: bool,
        year: i32,
        ordinal: u32,
    ) -> (r: bool)
        requires
            self.wf(),
        ensures
            r == (self.spec_count(user_id@, year, ordinal) < spec_apify_limit(has_invited)),
    {
        let count = self.count_for(user_id, year, ordinal);
        count < get_apify_limit(has_invited)
    }

    /// How many Apify calls `user_id` has left on day (`year`, `ordinal`).
    pub fn get_apify_remaining(
        &self,
        user_id: &str,
        has_invited: bool,
        year: i32,
        ordinal: u32,
    ) -> (r: u32)
        requires
            self.wf(),
        ensures
            r == (if self.spec_count(user_id@, year, ordinal) >= spec_apify_limit(has_invited) {
                0u32
            } else {
                (spec_apify_limit(has_invited) - self.spec_count(user_id@, year, ordinal)) as u32
            }),
    {
        let count = self.count_for(user_id, year, ordinal);
        let limit = get_apify_limit(has_invited);
        if count >= limit {
            0
        } else {
            limit - count
        }
    }

    /// Charge one Apify call to `user_id` on day (`year`, `ordinal`).
    /// Counts kept for any other day are dropped, as only the current day
    /// ever matters again.
    pub fn increment_apify_usage(&mut self, user_id: &str, year: i32, ordinal: u32)
        requires
            old(self).wf(),
        ensures
            final(self).wf(),
            final(self).spec_count(user_id@, year, ordinal) == (if old(self).spec_count(
                user_id@,
                year,
                ordinal,
            ) == u32::MAX {
                u32::MAX
            } else {
                (old(self).spec_count(user_id@, year, ordinal) + 1) as u32
            }),
            forall|u: Seq<char>|
                u != user_id@ ==> final(self).spec_count(u, year, ordinal) == old(self).spec_count(
                    u,
                    year,
                    ordinal,
                ),
            forall|u: Seq<char>, y: i32, d: u32|
                !(y == year && d == ordinal) ==> final(self).spec_count(u, y, d) == 0,
    {
        let ghost pre = *self;
        if year != self.year || ordinal != self.ordinal {
            self.year = year;
            self.ordinal = ordinal;
            self.counts = Vec::new();
            proof {
                assert forall|u: Seq<char>| !self.has_count(u) by {
                    if self.has_count(u) {
                        let k = choose|k: int| self.count_at(u, k);
                        assert(self.count_at(u, k));
                        assert(false);
                    }
                }
            }
        }
        let ghost day0 = *self;
        assert(forall|u: Seq<char>|
            day0.spec_count(u, year, ordinal) == pre.spec_count(u, year, ordinal));
        match self.find_count(user_id) {
            Some(k) => {
                let user_string = self.counts[k].user_id.clone();
                let prev = self.counts[k].count;
                let bumped = if prev == u32::MAX {
                    prev
                } else {
                    prev + 1
                };
                self.counts.set(k, ApifyCount { user_id: user_string, count: bumped });
                proof {
                    assert(forall|p: int|
                        0 <= p < self.counts@.len() && p != k ==> #[trigger] self.counts@[p]
                            == day0.counts@[p]);
                    assert(self.counts@[k as int].user_id@ == day0.counts@[k as int].user_id@);
                    assert forall|p: int, q: int|
                        0 <= p < q < self.counts@.len() implies (
                    #[trigger] self.counts@[p]).user_id@ != (
                    #[trigger] self.counts@[q]).user_id@ by {
                        assert(self.counts@[p].user_id@ == day0.counts@[p].user_id@);
                        assert(self.counts@[q].user_id@ == day0.counts@[q].user_id@);
                        assert(day0.counts@[p].user_id@ != day0.counts@[q].user_id@);
                    }
                    day0.lemma_count_index_is(user_id@, k as int);
                    self.lemma_count_index_is(user_id@, k as int);
                    assert forall|u: Seq<char>| u != user_id@ implies self.spec_count(
                        u,
                        year,
                        ordinal,
                    ) == day0.spec_count(u, year, ordinal) by {
                        if day0.has_count(u) {
                            let p = choose|p: int| day0.count_at(u, p);
                            assert(day0.count_at(u, p));
                            assert(p != k);
                            assert(self.count_at(u, p));
                            day0.lemma_count_index_is(u, p);
                            self.lemma_count_index_is(u, p);
                        } else {
                            if self.has_count(u) {
                                let p = choose|p: int| self.count_at(u, p);
                                assert(self.count_at(u, p));
                                assert(day0.count_at(u, p));
                                assert(false);
                            }
                            assert(!self.has_count(u));
                        }
                    }
                }
            },
            None => {
                let n = self.counts.len();
                self.counts.push(ApifyCount { user_id: user_id.to_owned(), count: 1 });
                proof {
                    assert(forall|p: int|
                        0 <= p < n ==> #[trigger] self.counts@[p] == day0.counts@[p]);
                    assert(self.counts@[n as int].user_id@ == user_id@);
                    assert forall|p: int, q: int|
                        0 <= p < q < self.counts@.len() implies (
                    #[trigger] self.counts@[p]).user_id@ != (
                    #[trigger] self.counts@[q]).user_id@ by {
                        if q < n {
                            assert(day0.counts@[p].user_id@ != day0.counts@[q].user_id@);
                        } else {
                            assert(!day0.count_at(user_id@, p));
                        }
                    }
                    self.lemma_count_index_is(user_id@, n as int);
                    assert forall|u: Seq<char>| u != user_id@ implies self.spec_count(
                        u,
                        year,
                        ordinal,
                    ) == day0.spec_count(u, year, ordinal) by {
                        assert(!self.count_at(u, n as int));
                        if day0.has_count(u) {
                            let p = choose|p: int| day0.count_at(u, p);
                            assert(day0.count_at(u, p));
                            assert(self.count_at(u, p));
                            day0.lemma_count_index_is(u, p);
                            self.lemma_count_index_is(u, p);
                        } else {
                            if self.has_count(u) {
                                let p = choose|p: int| self.count_at(u, p);
                                assert(self.count_at(u, p));
                                assert(p < n);
                                assert(day0.count_at(u, p));
                                assert(false);
                            }
                            assert(!self.has_count(u));
                        }
                    }
                }
            },
        }
    }
}

/// `pat` occurs in `s` starting at index `i`.
pub open spec fn match_at(s: Seq<char>, pat: Seq<char>, i: int) -> bool {
    0 <= i && i + pat.len() <= s.len() && s.subrange(i, i + pat.len()) == pat
}

/// `pat` occurs somewhere in `s`.
pub open spec fn has_sub(s: Seq<char>, pat: Seq<char>) -> bool {
    exists|i: int| match_at(s, pat, i)
}

/// `i` is the earliest occurrence of `pat` in `s`.
pub open spec fn is_first_match(s: Seq<char>, pat: Seq<char>, i: int) -> bool {
    match_at(s, pat, i) && forall|j: int| 0 <= j < i ==> !match_at(s, pat, j)
}

/// `out` is the prefix of `seg` that ends just before the first occurrence
/// of `a` or `b`, or all of `seg` when neither character occurs.
pub open spec fn is_prefix_to_stop(seg: Seq<char>, a: char, b: char, out: Seq<char>) -> bool {
    &&& out.len() <= seg.len()
    &&& out == seg.take(out.len() as int)
    &&& forall|j: int| 0 <= j < out.len() ==> seg[j] != a && seg[j] != b
    &&& out.len() < seg.len() ==> (seg[out.len() as int] == a || seg[out.len() as int] == b)
}

/// `seg` is what stands between the first occurrence of `pat` in `s` and
/// the following occurrence of `pat` (or the end of `s`).
pub open spec fn is_segment_after(s: Seq<char>, pat: Seq<char>, seg: Seq<char>) -> bool {
    exists|i: int|
        {
            &&& #[trigger] is_first_match(s, pat, i)
            &&& {
                let rest = s.skip(i + pat.len());
                ||| (!has_sub(rest, pat) && seg == rest)
                ||| exists|k: int| #[trigger] is_first_match(rest, pat, k) && seg == rest.take(k)
            }
        }
}

/// `id` is the video identifier that `url` carries: the segment after
/// `youtu.be/` cut at the first `?` or `&`, or else the segment after `v=`
/// cut at the first `&` or `#`.
pub open spec fn is_video_id(url: Seq<char>, id: Seq<char>) -> bool {
    if has_sub(url, "youtu.be/"@) {
        exists|seg: Seq<char>|
            #[trigger] is_segment_after(url, "youtu.be/"@, seg) && is_prefix_to_stop(
                seg,
                '?',
                '&',
                id,
            )
    } else if has_sub(url, "v="@) {
        exists|seg: Seq<char>|
            #[trigger] is_segment_after(url, "v="@, seg) && is_prefix_to_stop(seg, '&', '#', id)
    } else {
        false
    }
}

/// Index of the earliest occurrence of `pat` in `s`, if any.
fn find_sub(s: &str, pat: &str) -> (r: Option<usize>)
    requires
        pat@.len() >= 1,
    ensures
        r matches Some(i) ==> is_first_match(s@, pat@, i as int),
        r is None ==> !has_sub(s@, pat@),
{
    let n = s.unicode_len();
    let m = pat.unicode_len();
    if m > n {
        return None;
    }
    let mut i: usize = 0;
    while i <= n - m
        invariant
            n == s@.len(),
            m == pat@.len(),
            1 <= m <= n,
            i <= n - m + 1,
            forall|j: int| 0 <= j < i ==> !match_at(s@, pat@, j),
        decreases n - m + 1 - i,
    {
        let mut j: usize = 0;
        let mut hit = true;
        while j < m
            invariant
                n == s@.len(),
                m == pat@.len(),
                i + m <= n,
                j <= m,
                hit ==> forall|jj: int| 0 <= jj < j ==> s@[i + jj] == pat@[jj],
                !hit ==> !match_at(s@, pat@, i as int),
            decreases m - j,
        {
            if s.get_char(i + j) != pat.get_char(j) {
                proof {
                    if match_at(s@, pat@, i as int) {
                        assert(s@.subrange(i as int, i + pat@.len())[j as int] == pat@[j as int]);
                    }
                }
                hit = false;
                j = m;
            } else {
                j = j + 1;
            }
        }
        if hit {
            proof {
                assert(s@.subrange(i as int, i + pat@.len()) =~= pat@);
            }
            return Some(i);
        }
        i = i + 1;
    }
    proof {
        assert forall|j: int| !match_at(s@, pat@, j) by {
            if 0 <= j < i {
            } else {
            }
        }
    }
    None
}

/// Prefix of `seg` up to (excluding) the first occurrence of `a` or `b`.
fn prefix_to_stop<'a>(seg: &'a str, a: char, b: char) -> (out: &'a str)
    ensures
        is_prefix_to_stop(seg@, a, b, out@),
{
    let n = seg.unicode_len();
    let mut k: usize = 0;
    while k < n
        invariant
            n == seg@.len(),
            k <= n,
            forall|j: int| 0 <= j < k ==> seg@[j] != a && seg@[j] != b,
        decreases n - k,
    {
        let c = seg.get_char(k);
        if c == a || c == b {
            let out = seg.substring_char(0, k);
            proof {
                assert(out@ =~= seg@.take(k as int));
            }
            return out;
        }
        k = k + 1;
    }
    let out = seg.substring_char(0, n);
    proof {
        assert(out@ =~= seg@.take(n as int));
    }
    out
}

/// Extract the video identifier from a YouTube URL, handling both
/// `youtu.be/<id>` short links and `watch?v=<id>` links.
pub fn extract_video_id(url: &str) -> (r: Option<String>)
    ensures
        r is Some <==> (has_sub(url@, "youtu.be/"@) || has_sub(url@, "v="@)),
        r matches Some(id) ==> is_video_id(url@, id@),
{
    proof {
        reveal_strlit("youtu.be/");
        reveal_strlit("v=");
    }
    let n = url.unicode_len();
    if let Some(i) = find_sub(url, "youtu.be/") {
        let rest = url.substring_char(i + 9, n);
        proof {
            assert(rest@ =~= url@.skip(i + 9));
        }
        let seg = match find_sub(rest, "youtu.be/") {
            Some(k) => {
                let s = rest.substring_char(0, k);
                proof {
                    assert(s@ =~= rest@.take(k as int));
                }
                s
            },
            None => rest,
        };
        proof {
            assert(is_segment_after(url@, "youtu.be/"@, seg@));
        }
        let id = prefix_to_stop(seg, '?', '&');
        Some(id.to_owned())
    } else if let Some(i) = find_sub(url, "v=") {
        let rest = url.substring_char(i + 2, n);
        proof {
            assert(rest@ =~= url@.skip(i + 2));
        }
        let seg = match find_sub(rest, "v=") {
            Some(k) => {
                let s = rest.substring_char(0, k);
                proof {
                    assert(s@ =~= rest@.take(k as int));
                }
                s
            },
            None => rest,
        };
        proof {
            assert(is_segment_after(url@, "v="@, seg@));
        }
        let id = prefix_to_stop(seg, '&', '#');
        Some(id.to_owned())
    } else {
        None
    }
}

} // verus!
