//! Watch history: one row per (user, video), most recently watched first.

use vstd::prelude::*;
use vstd::multiset::Multiset;

use crate::text::str_eq;

verus! {

broadcast use vstd::seq_lib::group_to_multiset_ensures;

/// One watched video for one user.
#[derive(Clone, Debug)]
pub struct WatchEntry {
    pub user_id: String,
    pub video_id: String,
    pub title: String,
    pub thumbnail: String,
    /// When the video was last watched, in minutes since the epoch.
    pub watched_at_min: u64,
}

/// In-memory watch history, keyed by (user, video).
pub struct WatchLog {
    pub rows: Vec<WatchEntry>,
}

impl WatchLog {
    pub open spec fn wf(self) -> bool {
        forall|p: int, q: int|
            0 <= p < q < self.rows@.len() ==> !((#[trigger] self.rows@[p]).user_id@ == (
            #[trigger] self.rows@[q]).user_id@ && self.rows@[p].video_id@
                == self.rows@[q].video_id@)
    }

    pub open spec fn entry_at(self, user: Seq<char>, video: Seq<char>, k: int) -> bool {
        0 <= k < self.rows@.len() && self.rows@[k].user_id@ == user && self.rows@[k].video_id@
            == video
    }

    pub open spec fn has_entry(self, user: Seq<char>, video: Seq<char>) -> bool {
        exists|k: int| self.entry_at(user, video, k)
    }

    /// The log as a keyed map: the row under (`user`, `video`).
    pub open spec fn spec_entry(self, user: Seq<char>, video: Seq<char>) -> Option<WatchEntry> {
        if self.has_entry(user, video) {
            Some(self.rows@[choose|k: int| self.entry_at(user, video, k)])
        } else {
            None
        }
    }

    pub proof fn lemma_entry_index_is(self, user: Seq<char>, video: Seq<char>, k: int)
        requires
            self.wf(),
            self.entry_at(user, video, k),
        ensures
            self.spec_entry(user, video) == Some(self.rows@[k]),
    {
        let k2 = choose|k2: int| self.entry_at(user, video, k2);
        if k2 < k {
            assert(!(self.rows@[k2].user_id@ == self.rows@[k].user_id@
                && self.rows@[k2].video_id@ == self.rows@[k].video_id@));
        } else if k < k2 {
            assert(!(self.rows@[k].user_id@ == self.rows@[k2].user_id@
                && self.rows@[k].video_id@ == self.rows@[k2].video_id@));
        }
    }

    pub fn new() -> (l: WatchLog)
        ensures
            l.wf(),
            l.rows@.len() == 0,
    {
        WatchLog { rows: Vec::new() }
    }

    fn find_entry(&self, user_id: &str, video_id: &str) -> (r: Option<usize>)
        ensures
            r matches Some(k) ==> self.entry_at(user_id@, video_id@, k as int),
            r is None ==> !self.has_entry(user_id@, video_id@),
    {
        let n = self.rows.len();
        let mut k: usize = 0;
        while k < n
            invariant
                n == self.rows@.len(),
                k <= n,
                forall|p: int|
                    0 <= p < k ==> !((#[trigger] self.rows@[p]).user_id@ == user_id@
                        && self.rows@[p].video_id@ == video_id@),
            decreases n - k,
        {
            if str_eq(self.rows[k].video_id.as_str(), video_id) && str_eq(
                self.rows[k].user_id.as_str(),
                user_id,
            ) {
                return Some(k);
            }
            k = k + 1;
        }
        None
    }

    fn find_any_of_user(&self, user_id: &str) -> (r: Option<usize>)
        ensures
            r matches Some(k) ==> 0 <= k < self.rows@.len() && self.rows@[k as int].user_id@
                == user_id@,
            r is None ==> forall|p: int|
                0 <= p < self.rows@.len() ==> (#[trigger] self.rows@[p]).user_id@ != user_id@,
    {
        let n = self.rows.len();
        let mut k: usize = 0;
        while k < n
            invariant
                n == self.rows@.len(),
                k <= n,
                forall|p: int| 0 <= p < k ==> (#[trigger] self.rows@[p]).user_id@ != user_id@,
            decreases n - k,
        {
            if str_eq(self.rows[k].user_id.as_str(), user_id) {
                return Some(k);
            }
            k = k + 1;
        }
        None
    }

    /// Record that `user_id` watched `video_id` at `now_min`: the row is
    /// created or refreshed with the new title, thumbnail and watch time;
    /// every other row stays put.
    pub fn add_watch_history(
        &mut self,
        user_id: &str,
        video_id: &str,
        title: &str,
        thumbnail: &str,
        now_min: u64,
    )
        requires
            old(self).wf(),
        ensures
            final(self).wf(),
            (final(self).spec_entry(user_id@, video_id@) matches Some(e) && {
                &&& e.user_id@ == user_id@
                &&& e.video_id@ == video_id@
                &&& e.title@ == title@
                &&& e.thumbnail@ == thumbnail@
                &&& e.watched_at_min == now_min
            }),
            forall|u: Seq<char>, v: Seq<char>|
                !(u == user_id@ && v == video_id@) ==> final(self).spec_entry(u, v) == old(
                    self,
                ).spec_entry(u, v),
    {
        let ghost pre = *self;
        let fresh = WatchEntry {
            user_id: user_id.to_owned(),
            video_id: video_id.to_owned(),
            title: title.to_owned(),
            thumbnail: thumbnail.to_owned(),
            watched_at_min: now_min,
        };
        match self.find_entry(user_id, video_id) {
            Some(k) => {
                self.rows.set(k, fresh);
                proof {
                    assert(forall|p: int|
                        0 <= p < self.rows@.len() && p != k ==> #[trigger] self.rows@[p]
                            == pre.rows@[p]);
                    assert(self.rows@[k as int].user_id@ == pre.rows@[k as int].user_id@);
                    assert(self.rows@[k as int].video_id@ == pre.rows@[k as int].video_id@);
                    assert forall|p: int, q: int|
                        0 <= p < q < self.rows@.len() implies !((
                    #[trigger] self.rows@[p]).user_id@ == (#[trigger] self.rows@[q]).user_id@
                        && self.rows@[p].video_id@ == self.rows@[q].video_id@) by {
                        assert(self.rows@[p].user_id@ == pre.rows@[p].user_id@
                            && self.rows@[p].video_id@ == pre.rows@[p].video_id@);
                        assert(self.rows@[q].user_id@ == pre.rows@[q].user_id@
                            && self.rows@[q].video_id@ == pre.rows@[q].video_id@);
                        assert(!(pre.rows@[p].user_id@ == pre.rows@[q].user_id@
                            && pre.rows@[p].video_id@ == pre.rows@[q].video_id@));
                    }
                    self.lemma_entry_index_is(user_id@, video_id@, k as int);
                    assert forall|u: Seq<char>, v: Seq<char>|
                        !(u == user_id@ && v == video_id@) implies self.spec_entry(u, v)
                        == pre.spec_entry(u, v) by {
                        if pre.has_entry(u, v) {
                            let p = choose|p: int| pre.entry_at(u, v, p);
                            assert(pre.entry_at(u, v, p));
                            assert(p != k);
                            assert(self.entry_at(u, v, p));
                            pre.lemma_entry_index_is(u, v, p);
                            self.lemma_entry_index_is(u, v, p);
                        } else {
                            if self.has_entry(u, v) {
                                let p = choose|p: int| self.entry_at(u, v, p);
                                assert(self.entry_at(u, v, p));
                                assert(pre.entry_at(u, v, p));
                                assert(false);
                            }
                            assert(!self.has_entry(u, v));
                        }
                    }
                }
            },
            None => {
                let n = self.rows.len();
                self.rows.push(fresh);
                proof {
                    assert(forall|p: int| 0 <= p < n ==> #[trigger] self.rows@[p] == pre.rows@[p]);
                    assert(self.rows@[n as int].user_id@ == user_id@);
                    assert(self.rows@[n as int].video_id@ == video_id@);
                    assert forall|p: int, q: int|
                        0 <= p < q < self.rows@.len() implies !((
                    #[trigger] self.rows@[p]).user_id@ == (#[trigger] self.rows@[q]).user_id@
                        && self.rows@[p].video_id@ == self.rows@[q].video_id@) by {
                        if q < n {
                            assert(!(pre.rows@[p].user_id@ == pre.rows@[q].user_id@
                                && pre.rows@[p].video_id@ == pre.rows@[q].video_id@));
                        } else {
                            assert(!pre.entry_at(user_id@, video_id@, p));
                        }
                    }
                    self.lemma_entry_index_is(user_id@, video_id@, n as int);
                    assert forall|u: Seq<char>, v: Seq<char>|
                        !(u == user_id@ && v == video_id@) implies self.spec_entry(u, v)
                        == pre.spec_entry(u, v) by {
                        assert(!self.entry_at(u, v, n as int));
                        if pre.has_entry(u, v) {
                            let p = choose|p: int| pre.entry_at(u, v, p);
                            assert(pre.entry_at(u, v, p));
                            assert(self.entry_at(u, v, p));
                            pre.lemma_entry_index_is(u, v, p);
                            self.lemma_entry_index_is(u, v, p);
                        } else {
                            if self.has_entry(u, v) {
                                let p = choose|p: int| self.entry_at(u, v, p);
                                assert(self.entry_at(u, v, p));
                                assert(p < n);
                                assert(pre.entry_at(u, v, p));
                                assert(false);
                            }
                            assert(!self.has_entry(u, v));
                        }
                    }
                }
            },
        }
    }

    /// `full` ranks all of `user`'s history rows, most recent first.
    pub open spec fn is_ranked_history(self, user: Seq<char>, full: Seq<WatchEntry>) -> bool {
        &&& full.to_multiset() == self.rows@.filter(
            |r: WatchEntry| r.user_id@ == user,
        ).to_multiset()
        &&& forall|p: int, q: int|
            0 <= p < q < full.len() ==> full[p].watched_at_min >= full[q].watched_at_min
    }

    /// Up to `limit` of `user_id`'s watched videos, most recently watched
    /// first: the head of the user's full ranking.
    pub fn get_watch_history(&self, user_id: &str, limit: usize) -> (out: Vec<WatchEntry>)
        requires
            self.wf(),
        ensures
            exists|full: Seq<WatchEntry>|
                #[trigger] self.is_ranked_history(user_id@, full) && out@ == full.take(
                    if limit < full.len() {
                        limit as int
                    } else {
                        full.len() as int
                    },
                ),
    {
        let n = self.rows.len();
        let mut picked: Vec<WatchEntry> = Vec::new();
        let mut k: usize = 0;
        while k < n
            invariant
                self.wf(),
                n == self.rows@.len(),
                k <= n,
                picked@ == self.rows@.take(k as int).filter(
                    |r: WatchEntry| r.user_id@ == user_id@,
                ),
            decreases n - k,
        {
            proof {
                self.rows@.lemma_take_succ_push(k as int);
                self.rows@.take(k as int).lemma_filter_push(
                    self.rows@[k as int],
                    |r: WatchEntry| r.user_id@ == user_id@,
                );
            }
            if str_eq(self.rows[k].user_id.as_str(), user_id) {
                let e = clone_entry(&self.rows[k]);
                picked.push(e);
            }
            k = k + 1;
        }
        proof {
            self.rows@.lemma_take_len();
        }
        let ghost source = picked@;
        let mut work = picked;
        let mut sorted: Vec<WatchEntry> = Vec::new();
        while work.len() > 0
            invariant
                work@.to_multiset().add(sorted@.to_multiset()) == source.to_multiset(),
                forall|p: int, q: int|
                    0 <= p < q < sorted@.len() ==> sorted@[p].watched_at_min
                        >= sorted@[q].watched_at_min,
                forall|p: int, q: int|
                    0 <= p < sorted@.len() && 0 <= q < work@.len() ==> sorted@[p].watched_at_min
                        >= work@[q].watched_at_min,
            decreases work@.len(),
        {
            let wn = work.len();
            let mut mi: usize = 0;
            let mut j: usize = 1;
            while j < wn
                invariant
                    wn == work@.len(),
                    mi < wn,
                    j <= wn,
                    forall|p: int|
                        0 <= p < j ==> work@[mi as int].watched_at_min
                            >= work@[p].watched_at_min,
                decreases wn - j,
            {
                if work[j].watched_at_min > work[mi].watched_at_min {
                    mi = j;
                }
                j = j + 1;
            }
            let ghost work_pre = work@;
            let ghost sorted_pre = sorted@;
            let e = work.remove(mi);
            sorted.push(e);
            proof {
                assert(work_pre.contains(e)) by {
                    assert(work_pre[mi as int] == e);
                }
                assert(work@.to_multiset() =~= work_pre.to_multiset().remove(e));
                assert(sorted@.to_multiset() =~= sorted_pre.to_multiset().insert(e));
                assert(work@.to_multiset().add(sorted@.to_multiset())
                    =~= work_pre.to_multiset().add(sorted_pre.to_multiset()));
                assert(forall|q: int|
                    0 <= q < work@.len() ==> e.watched_at_min >= (
                #[trigger] work@[q]).watched_at_min) by {
                    assert(forall|q: int|
                        0 <= q < work@.len() ==> work@[q] == (if q < mi {
                            work_pre[q]
                        } else {
                            work_pre[q + 1]
                        }));
                }
            }
        }
        proof {
            assert(work@.to_multiset() =~= Multiset::<WatchEntry>::empty());
            assert(sorted@.to_multiset() =~= source.to_multiset());
        }
        let ghost full = sorted@;
        proof {
            assert(self.is_ranked_history(user_id@, full));
        }
        let mut out = sorted;
        proof {
            full.lemma_take_len();
            assert(out@ == full.take(out@.len() as int));
        }
        while out.len() > limit
            invariant
                out@ == full.take(out@.len() as int),
                out@.len() <= full.len(),
                out@.len() >= limit || out@.len() == full.len(),
            decreases out@.len(),
        {
            out.pop();
            proof {
                assert(out@ =~= full.take(out@.len() as int));
            }
        }
        proof {
            assert(out@ == full.take(
                if limit < full.len() {
                    limit as int
                } else {
                    full.len() as int
                },
            ));
        }
        out
    }

    /// Forget that `user_id` watched `video_id`; removing an absent row is
    /// a no-op.
    pub fn delete_watch_history(&mut self, user_id: &str, video_id: &str)
        requires
            old(self).wf(),
        ensures
            final(self).wf(),
            !final(self).has_entry(user_id@, video_id@),
            forall|u: Seq<char>, v: Seq<char>|
                !(u == user_id@ && v == video_id@) ==> final(self).spec_entry(u, v) == old(
                    self,
                ).spec_entry(u, v),
    {
        let ghost pre = *self;
        match self.find_entry(user_id, video_id) {
            None => {},
            Some(k) => {
                self.rows.remove(k);
                proof {
                    assert(forall|p: int|
                        0 <= p < self.rows@.len() ==> #[trigger] self.rows@[p] == (if p < k {
                            pre.rows@[p]
                        } else {
                            pre.rows@[p + 1]
                        }));
                    lemma_watch_remove(pre, *self, k as int);
                }
            },
        }
    }

    /// Forget everything `user_id` watched.
    pub fn clear_watch_history(&mut self, user_id: &str)
        requires
            old(self).wf(),
        ensures
            final(self).wf(),
            forall|v: Seq<char>| !final(self).has_entry(user_id@, v),
            forall|u: Seq<char>, v: Seq<char>|
                u != user_id@ ==> final(self).spec_entry(u, v) == old(self).spec_entry(u, v),
    {
        loop
            invariant
                self.wf(),
                forall|u: Seq<char>, v: Seq<char>|
                    u != user_id@ ==> self.spec_entry(u, v) == old(self).spec_entry(u, v),
            ensures
                forall|p: int|
                    0 <= p < self.rows@.len() ==> (#[trigger] self.rows@[p]).user_id@
                        != user_id@,
            decreases self.rows@.len(),
        {
            let ghost pre = *self;
            match self.find_any_of_user(user_id) {
                None => {
                    break ;
                },
                Some(k) => {
                    self.rows.remove(k);
                    proof {
                        assert(forall|p: int|
                            0 <= p < self.rows@.len() ==> #[trigger] self.rows@[p] == (if p < k {
                                pre.rows@[p]
                            } else {
                                pre.rows@[p + 1]
                            }));
                        lemma_watch_remove(pre, *self, k as int);
                    }
                },
            }
        }
        proof {
            assert forall|v: Seq<char>| !self.has_entry(user_id@, v) by {
                if self.has_entry(user_id@, v) {
                    let p = choose|p: int| self.entry_at(user_id@, v, p);
                    assert(self.entry_at(user_id@, v, p));
                    assert(false);
                }
            }
        }
    }
}

/// Clone a watch entry; the result is the same value.
fn clone_entry(e: &WatchEntry) -> (r: WatchEntry)
    ensures
        r == *e,
{
    WatchEntry {
        user_id: e.user_id.clone(),
        video_id: e.video_id.clone(),
        title: e.title.clone(),
        thumbnail: e.thumbnail.clone(),
        watched_at_min: e.watched_at_min,
    }
}

/// Removing one row leaves every other key of the log-as-map untouched and
/// no row under the removed key.
proof fn lemma_watch_remove(pre: WatchLog, post: WatchLog, k: int)
    requires
        pre.wf(),
        0 <= k < pre.rows@.len(),
        post.rows@.len() == pre.rows@.len() - 1,
        forall|p: int|
            0 <= p < post.rows@.len() ==> #[trigger] post.rows@[p] == (if p < k {
                pre.rows@[p]
            } else {
                pre.rows@[p + 1]
            }),
    ensures
        post.wf(),
        !post.has_entry(pre.rows@[k].user_id@, pre.rows@[k].video_id@),
        forall|u: Seq<char>, v: Seq<char>|
            !(u == pre.rows@[k].user_id@ && v == pre.rows@[k].video_id@) ==> post.spec_entry(u, v)
                == pre.spec_entry(u, v),
{
    let ku = pre.rows@[k].user_id@;
    let kv = pre.rows@[k].video_id@;
    assert forall|p: int, q: int|
        0 <= p < q < post.rows@.len() implies !((#[trigger] post.rows@[p]).user_id@ == (
    #[trigger] post.rows@[q]).user_id@ && post.rows@[p].video_id@ == post.rows@[q].video_id@) by {
        let p2: int = if p < k {
            p
        } else {
            p + 1
        };
        let q2: int = if q < k {
            q
        } else {
            q + 1
        };
        assert(post.rows@[p] == pre.rows@[p2]);
        assert(post.rows@[q] == pre.rows@[q2]);
        assert(!(pre.rows@[p2].user_id@ == pre.rows@[q2].user_id@ && pre.rows@[p2].video_id@
            == pre.rows@[q2].video_id@));
    }
    assert(!post.has_entry(ku, kv)) by {
        if post.has_entry(ku, kv) {
            let p = choose|p: int| post.entry_at(ku, kv, p);
            assert(post.entry_at(ku, kv, p));
            let q: int = if p < k {
                p
            } else {
                p + 1
            };
            assert(pre.entry_at(ku, kv, q));
            assert(q != k);
            if q < k {
                assert(!(pre.rows@[q].user_id@ == pre.rows@[k].user_id@ && pre.rows@[q].video_id@
                    == pre.rows@[k].video_id@));
            } else {
                assert(!(pre.rows@[k].user_id@ == pre.rows@[q].user_id@ && pre.rows@[k].video_id@
                    == pre.rows@[q].video_id@));
            }
        }
    }
    assert forall|u: Seq<char>, v: Seq<char>|
        !(u == ku && v == kv) implies post.spec_entry(u, v) == pre.spec_entry(u, v) by {
        if pre.has_entry(u, v) {
            let q = choose|q: int| pre.entry_at(u, v, q);
            assert(pre.entry_at(u, v, q));
            pre.lemma_entry_index_is(u, v, q);
            assert(q != k);
            let p: int = if q < k {
                q
            } else {
                q - 1
            };
            assert(post.entry_at(u, v, p));
            post.lemma_entry_index_is(u, v, p);
            assert(post.rows@[p] == pre.rows@[q]);
        } else {
            if post.has_entry(u, v) {
                let p = choose|p: int| post.entry_at(u, v, p);
                assert(post.entry_at(u, v, p));
                let q: int = if p < k {
                    p
                } else {
                    p + 1
                };
                assert(pre.entry_at(u, v, q));
                assert(false);
            }
            assert(!post.has_entry(u, v));
        }
    }
}

} // verus!
