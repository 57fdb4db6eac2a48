use eng_learner::schedule::Phase;
use eng_learner::store::StoreError;
use eng_learner::store::VocabStore;

#[test]
fn save_creates_catalog_entry_and_record() {
    let mut store = VocabStore::new();
    let t0: u64 = 10_000;
    let id = store.save_vocabulary(
        "alice",
        "ephemeral",
        "lasting a very short time",
        "advanced",
        Some("an ephemeral stream"),
        Some("vid-1"),
        None,
        t0,
    );
    assert_eq!(id, 1);
    let list = store.get_vocabulary_list("alice", false, t0);
    assert_eq!(list.len(), 1);
    let entry = &list[0];
    assert_eq!(entry.id, 1);
    assert_eq!(entry.word, "ephemeral");
    assert_eq!(entry.meaning, "lasting a very short time");
    assert_eq!(entry.level, "advanced");
    assert_eq!(entry.example.as_deref(), Some("an ephemeral stream"));
    assert_eq!(entry.source_video_id.as_deref(), Some("vid-1"));
    assert_eq!(entry.state.phase, Phase::Learning { step: 0 });
    assert_eq!(entry.state.due_at_min, t0 + 20);
}

#[test]
fn resave_resets_schedule_but_keeps_catalog_meaning() {
    let mut store = VocabStore::new();
    let id = store.save_vocabulary("alice", "word", "first meaning", "a", None, None, None, 100);
    store.review_vocabulary("alice", id, 2, 200).unwrap();
    store.review_vocabulary("alice", id, 2, 300).unwrap();
    // Re-saving starts the schedule over; the shared catalog entry keeps
    // its original meaning.
    let id2 = store.save_vocabulary("alice", "word", "second meaning", "b", None, None, None, 400);
    assert_eq!(id2, id);
    let list = store.get_vocabulary_list("alice", false, 400);
    assert_eq!(list.len(), 1);
    assert_eq!(list[0].meaning, "first meaning");
    assert_eq!(list[0].state.phase, Phase::Learning { step: 0 });
    assert_eq!(list[0].state.due_at_min, 400 + 20);
    assert_eq!(list[0].state.review_count, 0);
}

#[test]
fn records_are_per_user() {
    let mut store = VocabStore::new();
    let id = store.save_vocabulary("alice", "word", "m", "l", None, None, None, 100);
    store.save_vocabulary("bob", "word", "m", "l", None, None, None, 100);
    store.review_vocabulary("alice", id, 2, 150).unwrap();
    let alice = store.get_vocabulary_list("alice", false, 150);
    let bob = store.get_vocabulary_list("bob", false, 150);
    assert_eq!(alice[0].state.phase, Phase::Learning { step: 1 });
    assert_eq!(bob[0].state.phase, Phase::Learning { step: 0 });
}

#[test]
fn list_all_is_newest_first() {
    let mut store = VocabStore::new();
    store.save_vocabulary("u", "one", "m", "l", None, None, None, 100);
    store.save_vocabulary("u", "two", "m", "l", None, None, None, 200);
    store.save_vocabulary("u", "three", "m", "l", None, None, None, 300);
    let list = store.get_vocabulary_list("u", false, 1_000);
    let words: Vec<&str> = list.iter().map(|e| e.word.as_str()).collect();
    assert_eq!(words, vec!["three", "two", "one"]);
}

#[test]
fn list_due_filters_and_sorts_by_due_time() {
    let mut store = VocabStore::new();
    // Due times: saved at t, due t+20.
    store.save_vocabulary("u", "late", "m", "l", None, None, None, 300);
    store.save_vocabulary("u", "early", "m", "l", None, None, None, 100);
    store.save_vocabulary("u", "future", "m", "l", None, None, None, 10_000);
    let due = store.get_vocabulary_list("u", true, 400);
    let words: Vec<&str> = due.iter().map(|e| e.word.as_str()).collect();
    assert_eq!(words, vec!["early", "late"]);
    // At a later clock the third word is due too, after the others.
    let due_later = store.get_vocabulary_list("u", true, 20_000);
    let words_later: Vec<&str> = due_later.iter().map(|e| e.word.as_str()).collect();
    assert_eq!(words_later, vec!["early", "late", "future"]);
}

#[test]
fn review_missing_record_is_not_found() {
    let mut store = VocabStore::new();
    assert_eq!(store.review_vocabulary("u", 1, 2, 100), Err(StoreError::NotFound));
    let id = store.save_vocabulary("u", "w", "m", "l", None, None, None, 100);
    assert_eq!(store.review_vocabulary("ghost", id, 2, 100), Err(StoreError::NotFound));
    assert_eq!(store.review_vocabulary("u", id + 1, 2, 100), Err(StoreError::NotFound));
}

#[test]
fn review_invalid_quality_is_rejected() {
    let mut store = VocabStore::new();
    let id = store.save_vocabulary("u", "w", "m", "l", None, None, None, 100);
    assert_eq!(store.review_vocabulary("u", id, 4, 100), Err(StoreError::InvalidQuality));
    // The record is untouched.
    let list = store.get_vocabulary_list("u", false, 100);
    assert_eq!(list[0].state.review_count, 0);
}

#[test]
fn delete_is_idempotent() {
    let mut store = VocabStore::new();
    let id = store.save_vocabulary("u", "w", "m", "l", None, None, None, 100);
    assert!(store.is_vocabulary_saved("u", "w"));
    store.delete_vocabulary("u", id);
    assert!(!store.is_vocabulary_saved("u", "w"));
    // Deleting again is a quiet no-op.
    store.delete_vocabulary("u", id);
    assert!(!store.is_vocabulary_saved("u", "w"));
    // The catalog entry itself survives; re-saving reuses its identifier.
    let id2 = store.save_vocabulary("u", "w", "m", "l", None, None, None, 200);
    assert_eq!(id2, id);
}

#[test]
fn is_saved_distinguishes_users_and_words() {
    let mut store = VocabStore::new();
    store.save_vocabulary("alice", "apple", "m", "l", None, None, None, 100);
    assert!(store.is_vocabulary_saved("alice", "apple"));
    assert!(!store.is_vocabulary_saved("alice", "pear"));
    assert!(!store.is_vocabulary_saved("bob", "apple"));
}

#[test]
fn due_text_projections_follow_the_calendar() {
    let mut store = VocabStore::new();
    // 2024-01-01T00:00 UTC in minutes since the epoch.
    let t0: u64 = 19_723 * 24 * 60;
    store.save_vocabulary("u", "w", "m", "l", None, None, None, t0);
    let list = store.get_vocabulary_list("u", false, t0);
    let state = &list[0].state;
    assert_eq!(state.due_at_text(), "2024-01-01T00:20:00");
    assert_eq!(state.due_date_text(), "2024-01-01");
}
