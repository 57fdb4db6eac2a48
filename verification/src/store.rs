//! The vocabulary record store.
//!
//! A shared catalog of vocabulary items plus one scheduling record per
//! (user, item) pair, held in memory and specified as a keyed map: words are
//! unique in the catalog, (user, item) pairs are unique among the records,
//! and each operation says exactly which entry it creates, resets, advances
//! or removes while every other entry stays put.

use vstd::prelude::*;
use vstd::multiset::Multiset;

use crate::schedule::MAX_NOW_MINUTES;
use crate::schedule::ScheduleState;
use crate::text::opt_string_text;
use crate::text::opt_text;
use crate::text::str_eq;

verus! {

broadcast use vstd::seq_lib::group_to_multiset_ensures;

/// A shared catalog entry, immutable once created.
#[derive(Clone, Debug, PartialEq, Eq)]
pub struct VocabularyItem {
    /// Unique key of the entry.
    pub word: String,
    pub meaning: String,
    /// Free-form difficulty tag.
    pub level: String,
    pub example: Option<String>,
}

/// One user's scheduling record for one catalog entry.
#[derive(Clone, Debug)]
pub struct UserRecord {
    pub user_id: String,
    /// 1-based identifier of the catalog entry.
    pub vocab_id: u32,
    pub state: ScheduleState,
    pub source_video_id: Option<String>,
    pub source_sentence: Option<String>,
}

/// A catalog entry joined with one user's scheduling record, as handed to
/// callers by `get_vocabulary_list`.
#[derive(Clone, Debug)]
pub struct SavedVocabulary {
    pub id: u32,
    pub word: String,
    pub meaning: String,
    pub level: String,
    pub example: Option<String>,
    pub state: ScheduleState,
    pub source_video_id: Option<String>,
    pub source_sentence: Option<String>,
}

/// Failures of store operations.
#[derive(Clone, Copy, Debug, PartialEq, Eq, Structural)]
pub enum StoreError {
    /// No record exists for the given (user, item) pair.
    NotFound,
    /// The review quality grade was outside `0..=3`.
    InvalidQuality,
}

/// The in-memory store: catalog plus per-user records.
pub struct VocabStore {
    pub catalog: Vec<VocabularyItem>,
    pub records: Vec<UserRecord>,
}

impl VocabStore {
    /// Internal invariant: words unique, record keys unique, identifiers
    /// valid, every schedule well formed.
    pub open spec fn wf(self) -> bool {
        &&& self.catalog@.len() <= 0xffff_ffff
        &&& forall|p: int, q: int|
            0 <= p < q < self.catalog@.len() ==> (#[trigger] self.catalog@[p]).word@ != (
            #[trigger] self.catalog@[q]).word@
        &&& forall|k: int|
            0 <= k < self.records@.len() ==> self.valid_id(
                (#[trigger] self.records@[k]).vocab_id,
            )
        &&& forall|k: int| 0 <= k < self.records@.len() ==> (#[trigger] self.records@[k]).state.wf()
        &&& forall|p: int, q: int|
            0 <= p < q < self.records@.len() ==> !((#[trigger] self.records@[p]).user_id@ == (
            #[trigger] self.records@[q]).user_id@ && self.records@[p].vocab_id
                == self.records@[q].vocab_id)
    }

    /// `id` names a catalog entry.
    pub open spec fn valid_id(self, id: u32) -> bool {
        1 <= id <= self.catalog@.len()
    }

    /// Some catalog entry carries `word`.
    pub open spec fn spec_has_word(self, word: Seq<char>) -> bool {
        exists|j: int| 0 <= j < self.catalog@.len() && (#[trigger] self.catalog@[j]).word@ == word
    }

    /// The record at index `k` belongs to (`user`, `id`).
    pub open spec fn is_record_at(self, user: Seq<char>, id: u32, k: int) -> bool {
        &&& 0 <= k < self.records@.len()
        &&& self.records@[k].user_id@ == user
        &&& self.records@[k].vocab_id == id
    }

    /// A record exists for (`user`, `id`).
    pub open spec fn spec_has_record(self, user: Seq<char>, id: u32) -> bool {
        exists|k: int| self.is_record_at(user, id, k)
    }

    /// Index of the record for (`user`, `id`); meaningful only when one
    /// exists (it is then unique).
    pub open spec fn spec_record_index(self, user: Seq<char>, id: u32) -> int {
        choose|k: int| self.is_record_at(user, id, k)
    }

    /// The store seen as a keyed map: the record under (`user`, `id`).
    pub open spec fn spec_record(self, user: Seq<char>, id: u32) -> Option<UserRecord> {
        if self.spec_has_record(user, id) {
            Some(self.records@[self.spec_record_index(user, id)])
        } else {
            None
        }
    }

    /// Under the invariant, a matching index is the index of the record.
    pub proof fn lemma_record_index_is(self, user: Seq<char>, id: u32, k: int)
        requires
            self.wf(),
            self.is_record_at(user, id, k),
        ensures
            self.spec_record_index(user, id) == k,
            self.spec_record(user, id) == Some(self.records@[k]),
    {
        let k2 = self.spec_record_index(user, id);
        assert(self.is_record_at(user, id, k2));
        if k2 < k {
            assert(!(self.records@[k2].user_id@ == self.records@[k].user_id@
                && self.records@[k2].vocab_id == self.records@[k].vocab_id));
        } else if k < k2 {
            assert(!(self.records@[k].user_id@ == self.records@[k2].user_id@
                && self.records@[k].vocab_id == self.records@[k2].vocab_id));
        }
    }

    pub fn new() -> (s: VocabStore)
        ensures
            s.wf(),
            s.catalog@.len() == 0,
            s.records@.len() == 0,
    {
        VocabStore { catalog: Vec::new(), records: Vec::new() }
    }

    /// 0-based catalog index of `word`, if present.
    fn find_word_index(&self, word: &str) -> (r: Option<usize>)
        ensures
            r matches Some(j) ==> j < self.catalog@.len() && self.catalog@[j as int].word@
                == word@,
            r is None ==> !self.spec_has_word(word@),
    {
        let n = self.catalog.len();
        let mut j: usize = 0;
        while j < n
            invariant
                n == self.catalog@.len(),
                j <= n,
                forall|p: int| 0 <= p < j ==> (#[trigger] self.catalog@[p]).word@ != word@,
            decreases n - j,
        {
            if str_eq(self.catalog[j].word.as_str(), word) {
                return Some(j);
            }
            j = j + 1;
        }
        None
    }

    /// Index into `records` of the record for (`user_id`, `vocab_id`).
    fn find_record_slot(&self, user_id: &str, vocab_id: u32) -> (r: Option<usize>)
        ensures
            r matches Some(k) ==> self.is_record_at(user_id@, vocab_id, k as int),
            r is None ==> !self.spec_has_record(user_id@, vocab_id),
    {
        let n = self.records.len();
        let mut k: usize = 0;
        while k < n
            invariant
                n == self.records@.len(),
                k <= n,
                forall|p: int|
                    0 <= p < k ==> !((#[trigger] self.records@[p]).user_id@ == user_id@
                        && self.records@[p].vocab_id == vocab_id),
            decreases n - k,
        {
            if self.records[k].vocab_id == vocab_id && str_eq(
                self.records[k].user_id.as_str(),
                user_id,
            ) {
                return Some(k);
            }
            k = k + 1;
        }
        None
    }

    /// Save `word` for `user_id`: create the catalog entry when the word is
    /// new (an existing entry keeps its original meaning), and (re)create
    /// the user's scheduling record at learning step 0, due 20 minutes out.
    /// Re-saving an already saved word deliberately starts it over.
    pub fn save_vocabulary(
        &mut self,
        user_id: &str,
        word: &str,
        meaning: &str,
        level: &str,
        example: Option<&str>,
        source_video_id: Option<&str>,
        source_sentence: Option<&str>,
        now_min: u64,
    ) -> (id: u32)
        requires
            old(self).wf(),
            now_min <= MAX_NOW_MINUTES,
            old(self).catalog@.len() < 0xffff_ffff,
        ensures
            final(self).wf(),
            final(self).valid_id(id),
            final(self).catalog@[id - 1].word@ == word@,
            old(self).spec_has_word(word@) ==> final(self).catalog@ == old(self).catalog@,
            !old(self).spec_has_word(word@) ==> {
                &&& id == old(self).catalog@.len() + 1
                &&& final(self).catalog@.len() == old(self).catalog@.len() + 1
                &&& final(self).catalog@.take(old(self).catalog@.len() as int) == old(
                    self,
                ).catalog@
                &&& final(self).catalog@[id - 1].meaning@ == meaning@
                &&& final(self).catalog@[id - 1].level@ == level@
                &&& opt_string_text(final(self).catalog@[id - 1].example) == opt_text(example)
            },
            (final(self).spec_record(user_id@, id) matches Some(rec) && {
                &&& rec.user_id@ == user_id@
                &&& rec.vocab_id == id
                &&& rec.state == ScheduleState::spec_initial(now_min)
                &&& opt_string_text(rec.source_video_id) == opt_text(source_video_id)
                &&& opt_string_text(rec.source_sentence) == opt_text(source_sentence)
            }),
            forall|u: Seq<char>, i: u32|
                !(u == user_id@ && i == id) ==> final(self).spec_record(u, i) == old(
                    self,
                ).spec_record(u, i),
    {
        let id: u32 = match self.find_word_index(word) {
            Some(j) => (j + 1) as u32,
            None => {
                let item = VocabularyItem {
                    word: word.to_owned(),
                    meaning: meaning.to_owned(),
                    level: level.to_owned(),
                    example: match example {
                        Some(e) => Some(e.to_owned()),
                        None => None,
                    },
                };
                self.catalog.push(item);
                self.catalog.len() as u32
            },
        };
        let ghost mid = *self;
        proof {
            assert(1 <= id && id as int <= self.catalog@.len());
            assert(mid.wf());
            lemma_same_records_same_map(mid, *old(self));
        }
        let fresh = ScheduleState::initial(now_min);
        let vid: Option<String> = match source_video_id {
            Some(s) => Some(s.to_owned()),
            None => None,
        };
        let sent: Option<String> = match source_sentence {
            Some(s) => Some(s.to_owned()),
            None => None,
        };
        match self.find_record_slot(user_id, id) {
            Some(k) => {
                let user_string = self.records[k].user_id.clone();
                let updated = UserRecord {
                    user_id: user_string,
                    vocab_id: id,
                    state: fresh,
                    source_video_id: vid,
                    source_sentence: sent,
                };
                self.records.set(k, updated);
                proof {
                    assert(self.records@[k as int].user_id@ == mid.records@[k as int].user_id@);
                    assert(self.records@[k as int].vocab_id == mid.records@[k as int].vocab_id);
                    assert(forall|p: int, q: int|
                        0 <= p < q < self.catalog@.len() ==> (#[trigger] self.catalog@[p]).word@
                            != (#[trigger] self.catalog@[q]).word@);
                    assert(forall|k2: int|
                        0 <= k2 < self.records@.len() ==> self.valid_id(
                            (#[trigger] self.records@[k2]).vocab_id,
                        )) by {
                        assert(forall|p: int|
                            0 <= p < self.records@.len() && p != k ==> #[trigger] self.records@[p]
                                == mid.records@[p]);
                    }
                    assert(forall|k2: int|
                        0 <= k2 < self.records@.len() ==> (#[trigger] self.records@[k2]).state.wf())
                        by {
                        assert(forall|p: int|
                            0 <= p < self.records@.len() && p != k ==> #[trigger] self.records@[p]
                                == mid.records@[p]);
                    }
                    assert forall|p: int, q: int|
                        0 <= p < q < self.records@.len() implies !((
                    #[trigger] self.records@[p]).user_id@ == (#[trigger] self.records@[q]).user_id@
                        && self.records@[p].vocab_id == self.records@[q].vocab_id) by {
                        assert(self.records@[p].user_id@ == mid.records@[p].user_id@
                            && self.records@[p].vocab_id == mid.records@[p].vocab_id);
                        assert(self.records@[q].user_id@ == mid.records@[q].user_id@
                            && self.records@[q].vocab_id == mid.records@[q].vocab_id);
                        assert(!(mid.records@[p].user_id@ == mid.records@[q].user_id@
                            && mid.records@[p].vocab_id == mid.records@[q].vocab_id));
                    }
                    assert(self.wf());
                    self.lemma_record_index_is(user_id@, id, k as int);
                    lemma_update_keeps_other_keys(mid, *self, k as int);
                }
            },
            None => {
                let user_string = user_id.to_owned();
                let fresh_rec = UserRecord {
                    user_id: user_string,
                    vocab_id: id,
                    state: fresh,
                    source_video_id: vid,
                    source_sentence: sent,
                };
                self.records.push(fresh_rec);
                proof {
                    let n = mid.records@.len() as int;
                    assert(forall|p: int|
                        0 <= p < n ==> #[trigger] self.records@[p] == mid.records@[p]);
                    assert(self.records@[n].user_id@ == user_id@);
                    assert(self.records@[n].vocab_id == id);
                    assert forall|p: int, q: int|
                        0 <= p < q < self.records@.len() implies !((
                    #[trigger] self.records@[p]).user_id@ == (#[trigger] self.records@[q]).user_id@
                        && self.records@[p].vocab_id == self.records@[q].vocab_id) by {
                        if q < n {
                            assert(!(mid.records@[p].user_id@ == mid.records@[q].user_id@
                                && mid.records@[p].vocab_id == mid.records@[q].vocab_id));
                        } else {
                            assert(!mid.is_record_at(user_id@, id, p));
                        }
                    }
                    assert(self.wf());
                    self.lemma_record_index_is(user_id@, id, n);
                    lemma_push_keeps_other_keys(mid, *self);
                }
            },
        }
        id
    }
}

impl VocabStore {
    /// Apply one review to the record for (`user_id`, `vocab_id`): its
    /// schedule advances by the scheduler's transition for `quality`;
    /// nothing else changes.  Fails with `NotFound` when no such record
    /// exists and with `InvalidQuality` on a grade above 3, leaving the
    /// store untouched either way.
    pub fn review_vocabulary(
        &mut self,
        user_id: &str,
        vocab_id: u32,
        quality: u8,
        now_min: u64,
    ) -> (r: Result<(), StoreError>)
        requires
            old(self).wf(),
            now_min <= MAX_NOW_MINUTES,
        ensures
            final(self).wf(),
            final(self).catalog@ == old(self).catalog@,
            r is Ok <==> (old(self).spec_has_record(user_id@, vocab_id) && quality <= 3),
            !old(self).spec_has_record(user_id@, vocab_id) ==> (r matches Err(e) && e
                == StoreError::NotFound && *final(self) == *old(self)),
            old(self).spec_has_record(user_id@, vocab_id) && quality > 3 ==> (r matches Err(e)
                && e == StoreError::InvalidQuality && *final(self) == *old(self)),
            old(self).spec_has_record(user_id@, vocab_id) && quality <= 3 ==> (final(self)
                .spec_record(user_id@, vocab_id) matches Some(rec) && old(self)
                .spec_record(user_id@, vocab_id) matches Some(prev) && {
                &&& rec.state == prev.state.spec_advance(quality, now_min)
                &&& rec.user_id@ == prev.user_id@
                &&& rec.vocab_id == vocab_id
                &&& rec.source_video_id == prev.source_video_id
                &&& rec.source_sentence == prev.source_sentence
            }),
            forall|u: Seq<char>, i: u32|
                !(u == user_id@ && i == vocab_id) ==> final(self).spec_record(u, i) == old(
                    self,
                ).spec_record(u, i),
    {
        let ghost pre = *self;
        match self.find_record_slot(user_id, vocab_id) {
            None => Err(StoreError::NotFound),
            Some(k) => {
                proof {
                    self.lemma_record_index_is(user_id@, vocab_id, k as int);
                }
                let prev_state = self.records[k].state;
                match prev_state.advance(quality, now_min) {
                    Err(_) => Err(StoreError::InvalidQuality),
                    Ok(new_state) => {
                        let user_string = self.records[k].user_id.clone();
                        let svid = clone_opt_string(&self.records[k].source_video_id);
                        let ssent = clone_opt_string(&self.records[k].source_sentence);
                        let updated = UserRecord {
                            user_id: user_string,
                            vocab_id,
                            state: new_state,
                            source_video_id: svid,
                            source_sentence: ssent,
                        };
                        self.records.set(k, updated);
                        proof {
                            assert(self.records@[k as int].user_id@
                                == pre.records@[k as int].user_id@);
                            assert(self.records@[k as int].vocab_id
                                == pre.records@[k as int].vocab_id);
                            assert(forall|p: int|
                                0 <= p < self.records@.len() && p != k
                                    ==> #[trigger] self.records@[p] == pre.records@[p]);
                            assert forall|p: int, q: int|
                                0 <= p < q < self.records@.len() implies !((
                            #[trigger] self.records@[p]).user_id@ == (
                            #[trigger] self.records@[q]).user_id@ && self.records@[p].vocab_id
                                == self.records@[q].vocab_id) by {
                                assert(self.records@[p].user_id@ == pre.records@[p].user_id@
                                    && self.records@[p].vocab_id == pre.records@[p].vocab_id);
                                assert(self.records@[q].user_id@ == pre.records@[q].user_id@
                                    && self.records@[q].vocab_id == pre.records@[q].vocab_id);
                                assert(!(pre.records@[p].user_id@ == pre.records@[q].user_id@
                                    && pre.records@[p].vocab_id == pre.records@[q].vocab_id));
                            }
                            assert(self.wf());
                            self.lemma_record_index_is(user_id@, vocab_id, k as int);
                            lemma_update_keeps_other_keys(pre, *self, k as int);
                        }
                        Ok(())
                    },
                }
            },
        }
    }

    /// Remove the record for (`user_id`, `vocab_id`); removing an absent
    /// record is a no-op (the catalog entry itself is never deleted).
    pub fn delete_vocabulary(&mut self, user_id: &str, vocab_id: u32)
        requires
            old(self).wf(),
        ensures
            final(self).wf(),
            final(self).catalog@ == old(self).catalog@,
            !final(self).spec_has_record(user_id@, vocab_id),
            forall|u: Seq<char>, i: u32|
                !(u == user_id@ && i == vocab_id) ==> final(self).spec_record(u, i) == old(
                    self,
                ).spec_record(u, i),
            !old(self).spec_has_record(user_id@, vocab_id) ==> *final(self) == *old(self),
            old(self).spec_has_record(user_id@, vocab_id) ==> final(self).records@.len() == old(
                self,
            ).records@.len() - 1,
    {
        let ghost pre = *self;
        match self.find_record_slot(user_id, vocab_id) {
            None => {},
            Some(k) => {
                self.records.remove(k);
                proof {
                    assert(forall|p: int|
                        0 <= p < self.records@.len() ==> #[trigger] self.records@[p] == (if p < k {
                            pre.records@[p]
                        } else {
                            pre.records@[p + 1]
                        }));
                    lemma_remove_keeps_other_keys(pre, *self, k as int);
                }
            },
        }
    }

    /// Whether `user_id` has a scheduling record for the word `word`.
    pub fn is_vocabulary_saved(&self, user_id: &str, word: &str) -> (r: bool)
        requires
            self.wf(),
        ensures
            r == exists|k: int|
                {
                    &&& 0 <= k < self.records@.len()
                    &&& (#[trigger] self.records@[k]).user_id@ == user_id@
                    &&& self.catalog@[self.records@[k].vocab_id - 1].word@ == word@
                },
    {
        match self.find_word_index(word) {
            None => {
                proof {
                    if exists|k: int|
                        {
                            &&& 0 <= k < self.records@.len()
                            &&& (#[trigger] self.records@[k]).user_id@ == user_id@
                            &&& self.catalog@[self.records@[k].vocab_id - 1].word@ == word@
                        } {
                        let k = choose|k: int|
                            {
                                &&& 0 <= k < self.records@.len()
                                &&& (#[trigger] self.records@[k]).user_id@ == user_id@
                                &&& self.catalog@[self.records@[k].vocab_id - 1].word@ == word@
                            };
                        assert(self.spec_has_word(word@));
                    }
                }
                false
            },
            Some(j) => {
                let id = (j + 1) as u32;
                match self.find_record_slot(user_id, id) {
                    Some(k) => {
                        proof {
                            assert(self.catalog@[self.records@[k as int].vocab_id - 1].word@
                                == word@);
                        }
                        true
                    },
                    None => {
                        proof {
                            if exists|k: int|
                                {
                                    &&& 0 <= k < self.records@.len()
                                    &&& (#[trigger] self.records@[k]).user_id@ == user_id@
                                    &&& self.catalog@[self.records@[k].vocab_id - 1].word@
                                        == word@
                                } {
                                let k = choose|k: int|
                                    {
                                        &&& 0 <= k < self.records@.len()
                                        &&& (#[trigger] self.records@[k]).user_id@ == user_id@
                                        &&& self.catalog@[self.records@[k].vocab_id - 1].word@
                                            == word@
                                    };
                                let i2 = self.records@[k].vocab_id;
                                if i2 - 1 < j {
                                    assert(self.catalog@[i2 - 1].word@ != self.catalog@[j as int].word@);
                                } else if j < i2 - 1 {
                                    assert(self.catalog@[j as int].word@ != self.catalog@[i2 - 1].word@);
                                }
                                assert(i2 == id);
                                assert(self.is_record_at(user_id@, id, k));
                            }
                        }
                        false
                    },
                }
            },
        }
    }
}

impl VocabStore {
    /// The listing entry built for record `r`: the record joined with its
    /// catalog item.
    pub open spec fn spec_entry(self, r: UserRecord) -> SavedVocabulary {
        SavedVocabulary {
            id: r.vocab_id,
            word: self.catalog@[r.vocab_id - 1].word,
            meaning: self.catalog@[r.vocab_id - 1].meaning,
            level: self.catalog@[r.vocab_id - 1].level,
            example: self.catalog@[r.vocab_id - 1].example,
            state: r.state,
            source_video_id: r.source_video_id,
            source_sentence: r.source_sentence,
        }
    }

    /// All of `user`'s records, in insertion order.
    pub open spec fn spec_user_records(self, user: Seq<char>) -> Seq<UserRecord> {
        self.records@.filter(|r: UserRecord| r.user_id@ == user)
    }

    /// `user`'s records that are due at `now_min`, in insertion order.
    pub open spec fn spec_due_records(self, user: Seq<char>, now_min: u64) -> Seq<UserRecord> {
        self.records@.filter(
            |r: UserRecord| r.user_id@ == user && r.state.due_at_min <= now_min,
        )
    }

    /// The listing entries for a sequence of records.
    pub open spec fn spec_entries(self, rs: Seq<UserRecord>) -> Seq<SavedVocabulary> {
        rs.map_values(|r: UserRecord| self.spec_entry(r))
    }

    fn entry_for(&self, k: usize) -> (e: SavedVocabulary)
        requires
            self.wf(),
            k < self.records@.len(),
        ensures
            e == self.spec_entry(self.records@[k as int]),
    {
        let rec = &self.records[k];
        let idx = (rec.vocab_id - 1) as usize;
        let item = &self.catalog[idx];
        SavedVocabulary {
            id: rec.vocab_id,
            word: item.word.clone(),
            meaning: item.meaning.clone(),
            level: item.level.clone(),
            example: clone_opt_string(&item.example),
            state: rec.state,
            source_video_id: clone_opt_string(&rec.source_video_id),
            source_sentence: clone_opt_string(&rec.source_sentence),
        }
    }

    /// List `user_id`'s saved words.  With `due_only` the result holds
    /// exactly the records due at `now_min`, ordered by due time ascending;
    /// otherwise it holds every record, most recently created first.
    pub fn get_vocabulary_list(&self, user_id: &str, due_only: bool, now_min: u64) -> (out: Vec<
        SavedVocabulary,
    >)
        requires
            self.wf(),
        ensures
            !due_only ==> out@ == self.spec_entries(self.spec_user_records(user_id@)).reverse(),
            due_only ==> out@.to_multiset() == self.spec_entries(
                self.spec_due_records(user_id@, now_min),
            ).to_multiset(),
            due_only ==> forall|p: int, q: int|
                0 <= p < q < out@.len() ==> out@[p].state.due_at_min <= out@[q].state.due_at_min,
    {
        let n = self.records.len();
        let mut asc: Vec<SavedVocabulary> = Vec::new();
        let mut k: usize = 0;
        while k < n
            invariant
                self.wf(),
                n == self.records@.len(),
                k <= n,
                !due_only ==> asc@ == self.spec_entries(
                    self.records@.take(k as int).filter(|r: UserRecord| r.user_id@ == user_id@),
                ),
                due_only ==> asc@ == self.spec_entries(
                    self.records@.take(k as int).filter(
                        |r: UserRecord| r.user_id@ == user_id@ && r.state.due_at_min <= now_min,
                    ),
                ),
            decreases n - k,
        {
            proof {
                self.records@.lemma_take_succ_push(k as int);
                self.records@.take(k as int).lemma_filter_push(
                    self.records@[k as int],
                    |r: UserRecord| r.user_id@ == user_id@,
                );
                self.records@.take(k as int).lemma_filter_push(
                    self.records@[k as int],
                    |r: UserRecord| r.user_id@ == user_id@ && r.state.due_at_min <= now_min,
                );
                assert(self.spec_entries(
                    self.records@.take(k as int).filter(
                        |r: UserRecord| r.user_id@ == user_id@,
                    ).push(self.records@[k as int]),
                ) =~= self.spec_entries(
                    self.records@.take(k as int).filter(|r: UserRecord| r.user_id@ == user_id@),
                ).push(self.spec_entry(self.records@[k as int])));
                assert(self.spec_entries(
                    self.records@.take(k as int).filter(
                        |r: UserRecord| r.user_id@ == user_id@ && r.state.due_at_min <= now_min,
                    ).push(self.records@[k as int]),
                ) =~= self.spec_entries(
                    self.records@.take(k as int).filter(
                        |r: UserRecord| r.user_id@ == user_id@ && r.state.due_at_min <= now_min,
                    ),
                ).push(self.spec_entry(self.records@[k as int])));
            }
            if str_eq(self.records[k].user_id.as_str(), user_id) {
                if !due_only || self.records[k].state.due_at_min <= now_min {
                    let e = self.entry_for(k);
                    asc.push(e);
                }
            }
            k = k + 1;
        }
        proof {
            self.records@.lemma_take_len();
        }
        if !due_only {
            let ghost source = asc@;
            let m = asc.len();
            let mut out: Vec<SavedVocabulary> = Vec::new();
            let mut i: usize = 0;
            while i < m
                invariant
                    m == source.len(),
                    i <= m,
                    asc@ == source.take((m - i) as int),
                    out@.len() == i,
                    forall|j: int| 0 <= j < i ==> out@[j] == source[m - 1 - j],
                decreases m - i,
            {
                match asc.pop() {
                    Some(e) => {
                        out.push(e);
                    },
                    None => {
                        proof {
                            assert(false);
                        }
                    },
                }
                proof {
                    assert(asc@ =~= source.take((m - i - 1) as int));
                }
                i = i + 1;
            }
            proof {
                assert(out@ =~= source.reverse());
            }
            out
        } else {
            let ghost source = asc@;
            let mut work = asc;
            let mut out: Vec<SavedVocabulary> = Vec::new();
            while work.len() > 0
                invariant
                    work@.to_multiset().add(out@.to_multiset()) == source.to_multiset(),
                    forall|p: int, q: int|
                        0 <= p < q < out@.len() ==> out@[p].state.due_at_min
                            <= out@[q].state.due_at_min,
                    forall|p: int, q: int|
                        0 <= p < out@.len() && 0 <= q < work@.len() ==> out@[p].state.due_at_min
                            <= work@[q].state.due_at_min,
                decreases work@.len(),
            {
                let wn = work.len();
                let mut mi: usize = 0;
                let mut j: usize = 1;
                while j < wn
                    invariant
                        wn == work@.len(),
                        mi < wn,
                        j <= wn,
                        forall|p: int|
                            0 <= p < j ==> work@[mi as int].state.due_at_min
                                <= work@[p].state.due_at_min,
                    decreases wn - j,
                {
                    if work[j].state.due_at_min < work[mi].state.due_at_min {
                        mi = j;
                    }
                    j = j + 1;
                }
                let ghost work_pre = work@;
                let ghost out_pre = out@;
                let e = work.remove(mi);
                out.push(e);
                proof {
                    assert(work_pre.contains(e)) by {
                        assert(work_pre[mi as int] == e);
                    }
                    assert(work@.to_multiset() =~= work_pre.to_multiset().remove(e));
                    assert(out@.to_multiset() =~= out_pre.to_multiset().insert(e));
                    assert(work@.to_multiset().add(out@.to_multiset()) =~= work_pre.to_multiset()
                        .add(out_pre.to_multiset()));
                    assert(forall|q: int|
                        0 <= q < work@.len() ==> e.state.due_at_min <= (
                        #[trigger] work@[q]).state.due_at_min) by {
                        assert(forall|q: int|
                            0 <= q < work@.len() ==> work@[q] == (if q < mi {
                                work_pre[q]
                            } else {
                                work_pre[q + 1]
                            }));
                    }
                }
            }
            proof {
                assert(work@.to_multiset() =~= Multiset::<SavedVocabulary>::empty());
                assert(out@.to_multiset() =~= source.to_multiset());
            }
            out
        }
    }
}

/// Clone an optional string; the result is the same value.
fn clone_opt_string(o: &Option<String>) -> (r: Option<String>)
    ensures
        r == *o,
{
    match o {
        Some(s) => Some(s.clone()),
        None => None,
    }
}

/// Removing one record leaves every other key of the store-as-map
/// untouched, and leaves no record under the removed record's key.
proof fn lemma_remove_keeps_other_keys(pre: VocabStore, post: VocabStore, k: int)
    requires
        pre.wf(),
        post.wf(),
        0 <= k < pre.records@.len(),
        pre.is_record_at(pre.records@[k].user_id@, pre.records@[k].vocab_id, k),
        post.records@.len() == pre.records@.len() - 1,
        forall|p: int|
            0 <= p < post.records@.len() ==> #[trigger] post.records@[p] == (if p < k {
                pre.records@[p]
            } else {
                pre.records@[p + 1]
            }),
    ensures
        !post.spec_has_record(pre.records@[k].user_id@, pre.records@[k].vocab_id),
        forall|u: Seq<char>, i: u32|
            !(u == pre.records@[k].user_id@ && i == pre.records@[k].vocab_id)
                ==> post.spec_record(u, i) == pre.spec_record(u, i),
{
    let ku = pre.records@[k].user_id@;
    let ki = pre.records@[k].vocab_id;
    assert(!post.spec_has_record(ku, ki)) by {
        if post.spec_has_record(ku, ki) {
            let p = post.spec_record_index(ku, ki);
            assert(post.is_record_at(ku, ki, p));
            let q: int = if p < k {
                p
            } else {
                p + 1
            };
            assert(pre.is_record_at(ku, ki, q));
            assert(q != k);
            if q < k {
                assert(!(pre.records@[q].user_id@ == pre.records@[k].user_id@
                    && pre.records@[q].vocab_id == pre.records@[k].vocab_id));
            } else {
                assert(!(pre.records@[k].user_id@ == pre.records@[q].user_id@
                    && pre.records@[k].vocab_id == pre.records@[q].vocab_id));
            }
        }
    }
    assert forall|u: Seq<char>, i: u32|
        !(u == ku && i == ki) implies post.spec_record(u, i) == pre.spec_record(u, i) by {
        if pre.spec_has_record(u, i) {
            let q = pre.spec_record_index(u, i);
            assert(pre.is_record_at(u, i, q));
            pre.lemma_record_index_is(u, i, q);
            assert(q != k);
            let p: int = if q < k {
                q
            } else {
                q - 1
            };
            assert(post.is_record_at(u, i, p));
            post.lemma_record_index_is(u, i, p);
            assert(post.records@[p] == pre.records@[q]);
        } else {
            if post.spec_has_record(u, i) {
                let p = post.spec_record_index(u, i);
                assert(post.is_record_at(u, i, p));
                let q: int = if p < k {
                    p
                } else {
                    p + 1
                };
                assert(pre.is_record_at(u, i, q));
                assert(false);
            }
        }
    }
}

/// Two well-formed stores with the same record sequence agree, as maps, on
/// every key.
proof fn lemma_same_records_same_map(a: VocabStore, b: VocabStore)
    requires
        a.wf(),
        b.wf(),
        a.records@ == b.records@,
    ensures
        forall|u: Seq<char>, i: u32| a.spec_record(u, i) == b.spec_record(u, i),
{
    assert forall|u: Seq<char>, i: u32| a.spec_record(u, i) == b.spec_record(u, i) by {
        assert(forall|k: int| a.is_record_at(u, i, k) == b.is_record_at(u, i, k));
        if b.spec_has_record(u, i) {
            let k = b.spec_record_index(u, i);
            assert(b.is_record_at(u, i, k));
            a.lemma_record_index_is(u, i, k);
            b.lemma_record_index_is(u, i, k);
        } else {
            assert(!a.spec_has_record(u, i));
        }
    }
}

/// Overwriting one record in place, without changing its key, leaves every
/// other key of the store-as-map untouched.
proof fn lemma_update_keeps_other_keys(pre: VocabStore, post: VocabStore, k: int)
    requires
        pre.wf(),
        post.wf(),
        0 <= k < pre.records@.len(),
        post.records@.len() == pre.records@.len(),
        forall|p: int|
            0 <= p < pre.records@.len() && p != k ==> #[trigger] post.records@[p]
                == pre.records@[p],
        post.records@[k].user_id@ == pre.records@[k].user_id@,
        post.records@[k].vocab_id == pre.records@[k].vocab_id,
    ensures
        forall|u: Seq<char>, i: u32|
            !(u == pre.records@[k].user_id@ && i == pre.records@[k].vocab_id) ==> post.spec_record(
                u,
                i,
            ) == pre.spec_record(u, i),
{
    assert forall|u: Seq<char>, i: u32|
        !(u == pre.records@[k].user_id@ && i == pre.records@[k].vocab_id) implies post.spec_record(
        u,
        i,
    ) == pre.spec_record(u, i) by {
        assert(forall|p: int| pre.is_record_at(u, i, p) == post.is_record_at(u, i, p));
        if pre.spec_has_record(u, i) {
            let p = pre.spec_record_index(u, i);
            assert(pre.is_record_at(u, i, p));
            pre.lemma_record_index_is(u, i, p);
            post.lemma_record_index_is(u, i, p);
            assert(p != k);
        } else {
            assert(!post.spec_has_record(u, i));
        }
    }
}

/// Appending a record leaves every key other than the appended one
/// untouched.
proof fn lemma_push_keeps_other_keys(pre: VocabStore, post: VocabStore)
    requires
        pre.wf(),
        post.wf(),
        post.records@.len() == pre.records@.len() + 1,
        forall|p: int|
            0 <= p < pre.records@.len() ==> #[trigger] post.records@[p] == pre.records@[p],
    ensures
        forall|u: Seq<char>, i: u32|
            !(u == post.records@.last().user_id@ && i == post.records@.last().vocab_id)
                ==> post.spec_record(u, i) == pre.spec_record(u, i),
{
    let n = pre.records@.len() as int;
    assert forall|u: Seq<char>, i: u32|
        !(u == post.records@.last().user_id@ && i == post.records@.last().vocab_id)
        implies post.spec_record(u, i) == pre.spec_record(u, i) by {
        assert(forall|p: int| 0 <= p < n ==> pre.is_record_at(u, i, p) == post.is_record_at(u, i, p));
        assert(!post.is_record_at(u, i, n));
        if pre.spec_has_record(u, i) {
            let p = pre.spec_record_index(u, i);
            assert(pre.is_record_at(u, i, p));
            pre.lemma_record_index_is(u, i, p);
            post.lemma_record_index_is(u, i, p);
        } else {
            if post.spec_has_record(u, i) {
                let p = post.spec_record_index(u, i);
                assert(post.is_record_at(u, i, p));
                assert(false);
            }
        }
    }
}

} // verus!
