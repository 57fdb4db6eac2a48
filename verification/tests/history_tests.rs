use eng_learner::history::WatchLog;

#[test]
fn history_is_most_recent_first() {
    let mut log = WatchLog::new();
    log.add_watch_history("u", "v1", "first", "t1", 100);
    log.add_watch_history("u", "v2", "second", "t2", 300);
    log.add_watch_history("u", "v3", "third", "t3", 200);
    let h = log.get_watch_history("u", 20);
    let ids: Vec<&str> = h.iter().map(|e| e.video_id.as_str()).collect();
    assert_eq!(ids, vec!["v2", "v3", "v1"]);
}

#[test]
fn rewatching_refreshes_the_row() {
    let mut log = WatchLog::new();
    log.add_watch_history("u", "v1", "old title", "t", 100);
    log.add_watch_history("u", "v2", "other", "t", 200);
    log.add_watch_history("u", "v1", "new title", "t2", 300);
    let h = log.get_watch_history("u", 20);
    assert_eq!(h.len(), 2);
    assert_eq!(h[0].video_id, "v1");
    assert_eq!(h[0].title, "new title");
    assert_eq!(h[0].watched_at_min, 300);
}

#[test]
fn history_respects_the_limit() {
    let mut log = WatchLog::new();
    for i in 0..5u64 {
        log.add_watch_history("u", &format!("v{i}"), "t", "th", 100 + i);
    }
    let h = log.get_watch_history("u", 3);
    assert_eq!(h.len(), 3);
    let ids: Vec<&str> = h.iter().map(|e| e.video_id.as_str()).collect();
    assert_eq!(ids, vec!["v4", "v3", "v2"]);
}

#[test]
fn history_is_per_user() {
    let mut log = WatchLog::new();
    log.add_watch_history("a", "v1", "t", "th", 100);
    log.add_watch_history("b", "v1", "t", "th", 200);
    assert_eq!(log.get_watch_history("a", 10).len(), 1);
    assert_eq!(log.get_watch_history("b", 10).len(), 1);
}

#[test]
fn delete_and_clear() {
    let mut log = WatchLog::new();
    log.add_watch_history("a", "v1", "t", "th", 100);
    log.add_watch_history("a", "v2", "t", "th", 200);
    log.add_watch_history("b", "v1", "t", "th", 300);
    log.delete_watch_history("a", "v1");
    // Deleting an absent row is a quiet no-op.
    log.delete_watch_history("a", "v1");
    assert_eq!(log.get_watch_history("a", 10).len(), 1);
    log.clear_watch_history("a");
    assert_eq!(log.get_watch_history("a", 10).len(), 0);
    assert_eq!(log.get_watch_history("b", 10).len(), 1);
}
