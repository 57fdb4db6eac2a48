use eng_learner::progress::ProgressTracker;
use eng_learner::schedule::Phase;
use eng_learner::service::review_word;
use eng_learner::service::save_word;
use eng_learner::store::StoreError;
use eng_learner::store::VocabStore;

#[test]
fn saving_counts_as_learning() {
    let mut store = VocabStore::new();
    let mut tracker = ProgressTracker::new();
    let id = save_word(
        &mut store,
        &mut tracker,
        "alice",
        "word",
        "meaning",
        "l",
        None,
        None,
        None,
        1_000,
        7,
    );
    assert_eq!(id, 1);
    assert!(store.is_vocabulary_saved("alice", "word"));
    let stats = tracker.get_today_stats("alice", 7);
    assert_eq!(stats.words_learned, 1);
    let p = tracker.get_user_progress("alice");
    assert_eq!(p.total_words_learned, 1);
    assert_eq!(p.current_streak, 1);
}

#[test]
fn good_review_advances_and_counts_correct() {
    let mut store = VocabStore::new();
    let mut tracker = ProgressTracker::new();
    let id = save_word(
        &mut store, &mut tracker, "u", "w", "m", "l", None, None, None, 100, 3,
    );
    review_word(&mut store, &mut tracker, "u", id, 2, 120, 3).unwrap();
    let list = store.get_vocabulary_list("u", false, 120);
    assert_eq!(list[0].state.phase, Phase::Learning { step: 1 });
    let stats = tracker.get_today_stats("u", 3);
    assert_eq!(stats.words_reviewed, 1);
    assert_eq!(stats.correct_count, 1);
    assert_eq!(stats.incorrect_count, 0);
}

#[test]
fn forgotten_review_counts_incorrect() {
    let mut store = VocabStore::new();
    let mut tracker = ProgressTracker::new();
    let id = save_word(
        &mut store, &mut tracker, "u", "w", "m", "l", None, None, None, 100, 3,
    );
    review_word(&mut store, &mut tracker, "u", id, 0, 120, 3).unwrap();
    let stats = tracker.get_today_stats("u", 3);
    assert_eq!(stats.correct_count, 0);
    assert_eq!(stats.incorrect_count, 1);
    let list = store.get_vocabulary_list("u", false, 120);
    assert_eq!(list[0].state.lapses, 1);
}

#[test]
fn failed_review_records_nothing() {
    let mut store = VocabStore::new();
    let mut tracker = ProgressTracker::new();
    assert_eq!(
        review_word(&mut store, &mut tracker, "u", 1, 2, 120, 3),
        Err(StoreError::NotFound)
    );
    let id = save_word(
        &mut store, &mut tracker, "u", "w", "m", "l", None, None, None, 100, 3,
    );
    assert_eq!(
        review_word(&mut store, &mut tracker, "u", id, 9, 120, 3),
        Err(StoreError::InvalidQuality)
    );
    let stats = tracker.get_today_stats("u", 3);
    assert_eq!(stats.words_reviewed, 0);
}
