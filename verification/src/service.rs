//! The study service: scheduler, store and progress tracker wired together
//! the way a caller drives them.
//!
//! Saving a word also counts it as learned for the day; grading a review
//! also records the outcome, where an answer of quality 2 or better counts
//! as correct.  Each operation states both effects: what the store does to
//! the one record involved, and what the tracker does to the day's
//! counters and the streak.

use vstd::prelude::*;

use crate::progress::DailyStats;
use crate::progress::ProgressTracker;
use crate::progress::UserProgress;
use crate::progress::spec_streak_update;
use crate::schedule::MAX_NOW_MINUTES;
use crate::schedule::ScheduleState;
use crate::schedule::spec_inc;
use crate::store::StoreError;
use crate::store::VocabStore;
use crate::text::opt_string_text;
use crate::text::opt_text;

verus! {

/// Whether a review answer counts as correct for the statistics: quality 2
/// (good) or 3 (easy).
pub open spec fn spec_is_correct(quality: u8) -> bool {
    quality >= 2
}

/// Save a word and count it as newly learned: the store (re)creates the
/// user's record at learning step 0, and the tracker bumps today's
/// learned-words counter and the streak.
pub fn save_word(
    store: &mut VocabStore,
    tracker: &mut ProgressTracker,
    user_id: &str,
    word: &str,
    meaning: &str,
    level: &str,
    example: Option<&str>,
    source_video_id: Option<&str>,
    source_sentence: Option<&str>,
    now_min: u64,
    today: u64,
) -> (id: u32)
    requires
        old(store).wf(),
        old(tracker).wf(),
        now_min <= MAX_NOW_MINUTES,
        old(store).catalog@.len() < 0xffff_ffff,
    ensures
        final(store).wf(),
        final(tracker).wf(),
        final(store).valid_id(id),
        final(store).catalog@[id - 1].word@ == word@,
        (final(store).spec_record(user_id@, id) matches Some(rec) && {
            &&& rec.user_id@ == user_id@
            &&& rec.state == ScheduleState::spec_initial(now_min)
            &&& opt_string_text(rec.source_video_id) == opt_text(source_video_id)
            &&& opt_string_text(rec.source_sentence) == opt_text(source_sentence)
        }),
        forall|u: Seq<char>, i: u32|
            !(u == user_id@ && i == id) ==> final(store).spec_record(u, i) == old(
                store,
            ).spec_record(u, i),
        final(tracker).spec_stats(user_id@, today) == Some(
            DailyStats {
                words_learned: spec_inc(
                    old(tracker).spec_stats_or_empty(user_id@, today).words_learned,
                ),
                ..old(tracker).spec_stats_or_empty(user_id@, today)
            },
        ),
        final(tracker).spec_progress(user_id@) == Some(
            spec_streak_update(
                UserProgress {
                    total_words_learned: spec_inc(
                        old(tracker).spec_progress_or_default(user_id@).total_words_learned,
                    ),
                    ..old(tracker).spec_progress_or_default(user_id@)
                },
                today,
            ),
        ),
{
    let id = store.save_vocabulary(
        user_id,
        word,
        meaning,
        level,
        example,
        source_video_id,
        source_sentence,
        now_min,
    );
    tracker.record_word_learned(user_id, today);
    id
}

/// Grade one review and record its outcome: the store advances the
/// record's schedule by the state machine, and - only when the grade was
/// accepted - the tracker counts the review, correct for quality 2 or
/// better, and updates the streak.  Errors leave both untouched.
pub fn review_word(
    store: &mut VocabStore,
    tracker: &mut ProgressTracker,
    user_id: &str,
    vocab_id: u32,
    quality: u8,
    now_min: u64,
    today: u64,
) -> (r: Result<(), StoreError>)
    requires
        old(store).wf(),
        old(tracker).wf(),
        now_min <= MAX_NOW_MINUTES,
    ensures
        final(store).wf(),
        final(tracker).wf(),
        r is Ok <==> (old(store).spec_has_record(user_id@, vocab_id) && quality <= 3),
        r is Err ==> (*final(store) == *old(store) && *final(tracker) == *old(tracker)),
        r is Ok ==> (final(store).spec_record(user_id@, vocab_id) matches Some(rec) && old(store)
            .spec_record(user_id@, vocab_id) matches Some(prev) && rec.state
            == prev.state.spec_advance(quality, now_min)),
        forall|u: Seq<char>, i: u32|
            !(u == user_id@ && i == vocab_id) ==> final(store).spec_record(u, i) == old(
                store,
            ).spec_record(u, i),
        r is Ok ==> final(tracker).spec_stats(user_id@, today) == Some(
            DailyStats {
                words_reviewed: spec_inc(
                    old(tracker).spec_stats_or_empty(user_id@, today).words_reviewed,
                ),
                correct_count: if spec_is_correct(quality) {
                    spec_inc(old(tracker).spec_stats_or_empty(user_id@, today).correct_count)
                } else {
                    old(tracker).spec_stats_or_empty(user_id@, today).correct_count
                },
                incorrect_count: if spec_is_correct(quality) {
                    old(tracker).spec_stats_or_empty(user_id@, today).incorrect_count
                } else {
                    spec_inc(old(tracker).spec_stats_or_empty(user_id@, today).incorrect_count)
                },
                ..old(tracker).spec_stats_or_empty(user_id@, today)
            },
        ),
        r is Ok ==> final(tracker).spec_progress(user_id@) == Some(
            spec_streak_update(
                UserProgress {
                    total_reviews: spec_inc(
                        old(tracker).spec_progress_or_default(user_id@).total_reviews,
                    ),
                    ..old(tracker).spec_progress_or_default(user_id@)
                },
                today,
            ),
        ),
{
    match store.review_vocabulary(user_id, vocab_id, quality, now_min) {
        Ok(()) => {
            tracker.record_review(user_id, quality >= 2, today);
            Ok(())
        },
        Err(e) => Err(e),
    }
}

} // verus!
