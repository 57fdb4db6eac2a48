use eng_learner::progress::ProgressTracker;
use eng_learner::progress::UserProgress;
use eng_learner::progress::review_totals;
use eng_learner::progress::update_streak;

fn progress(current: u64, longest: u64, last: Option<u64>) -> UserProgress {
    UserProgress {
        total_words_learned: 0,
        total_reviews: 0,
        current_streak: current,
        longest_streak: longest,
        last_study_date: last,
    }
}

#[test]
fn streak_consecutive_days_increment() {
    let p0 = progress(0, 0, None);
    let p1 = update_streak(&p0, 10);
    assert_eq!(p1.current_streak, 1);
    assert_eq!(p1.longest_streak, 1);
    assert_eq!(p1.last_study_date, Some(10));
    let p2 = update_streak(&p1, 11);
    assert_eq!(p2.current_streak, 2);
    assert_eq!(p2.longest_streak, 2);
    let p3 = update_streak(&p2, 12);
    assert_eq!(p3.current_streak, 3);
    assert_eq!(p3.longest_streak, 3);
}

#[test]
fn streak_same_day_is_unchanged() {
    let p = progress(4, 6, Some(20));
    let q = update_streak(&p, 20);
    assert_eq!(q, p);
}

#[test]
fn streak_gap_resets_to_one() {
    let p = progress(5, 5, Some(20));
    let q = update_streak(&p, 23);
    assert_eq!(q.current_streak, 1);
    assert_eq!(q.longest_streak, 5);
    assert_eq!(q.last_study_date, Some(23));
}

#[test]
fn record_word_learned_updates_counters_and_streak() {
    let mut t = ProgressTracker::new();
    t.record_word_learned("alice", 100);
    t.record_word_learned("alice", 100);
    let today = t.get_today_stats("alice", 100);
    assert_eq!(today.words_learned, 2);
    assert_eq!(today.words_reviewed, 0);
    let p = t.get_user_progress("alice");
    assert_eq!(p.total_words_learned, 2);
    assert_eq!(p.current_streak, 1);
    assert_eq!(p.last_study_date, Some(100));
}

#[test]
fn record_review_tracks_correctness() {
    let mut t = ProgressTracker::new();
    t.record_review("bob", true, 50);
    t.record_review("bob", true, 50);
    t.record_review("bob", false, 50);
    let today = t.get_today_stats("bob", 50);
    assert_eq!(today.words_reviewed, 3);
    assert_eq!(today.correct_count, 2);
    assert_eq!(today.incorrect_count, 1);
    let p = t.get_user_progress("bob");
    assert_eq!(p.total_reviews, 3);
}

#[test]
fn streak_across_recorded_days() {
    let mut t = ProgressTracker::new();
    t.record_word_learned("u", 10);
    t.record_review("u", true, 11);
    t.record_review("u", false, 12);
    let p = t.get_user_progress("u");
    assert_eq!(p.current_streak, 3);
    assert_eq!(p.longest_streak, 3);
    // A skipped day resets the current streak but not the longest.
    let mut t2 = t;
    t2.record_review("u", true, 14);
    let p2 = t2.get_user_progress("u");
    assert_eq!(p2.current_streak, 1);
    assert_eq!(p2.longest_streak, 3);
}

#[test]
fn unknown_user_gets_zero_progress_and_stats() {
    let mut t = ProgressTracker::new();
    let p = t.get_user_progress("nobody");
    assert_eq!(p.total_words_learned, 0);
    assert_eq!(p.current_streak, 0);
    assert_eq!(p.last_study_date, None);
    let s = t.get_today_stats("nobody", 77);
    assert_eq!(s.date, 77);
    assert_eq!(s.words_learned, 0);
}

#[test]
fn review_totals_sum_the_span() {
    let mut t = ProgressTracker::new();
    t.record_review("u", true, 10);
    t.record_review("u", true, 10);
    t.record_review("u", false, 11);
    t.record_review("u", true, 12);
    let span = t.get_daily_stats("u", 0);
    let (correct, reviewed) = review_totals(&span);
    assert_eq!(correct, 3);
    assert_eq!(reviewed, 4);
    // The overview's accuracy rate, as the caller derives it.
    let accuracy = correct as f64 / reviewed as f64 * 100.0;
    assert!((accuracy - 75.0).abs() < 1e-9);
}

#[test]
fn daily_stats_are_filtered_and_newest_first() {
    let mut t = ProgressTracker::new();
    t.record_word_learned("u", 10);
    t.record_word_learned("u", 12);
    t.record_word_learned("u", 11);
    t.record_word_learned("other", 12);
    let recent = t.get_daily_stats("u", 11);
    let days: Vec<u64> = recent.iter().map(|s| s.date).collect();
    assert_eq!(days, vec![12, 11]);
    let all = t.get_daily_stats("u", 0);
    let all_days: Vec<u64> = all.iter().map(|s| s.date).collect();
    assert_eq!(all_days, vec![12, 11, 10]);
}
