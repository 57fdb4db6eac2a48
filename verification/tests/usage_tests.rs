use eng_learner::usage::AI_CHAT_DAILY_LIMIT;
use eng_learner::usage::FREE_DAILY_BASE_LIMIT;
use eng_learner::usage::INVITE_BONUS_QUOTA;
use eng_learner::usage::UsageLedger;
use eng_learner::usage::check_can_ai_chat;
use eng_learner::usage::check_can_parse_video;
use eng_learner::usage::get_daily_usage;

#[test]
fn quota_constants() {
    assert_eq!(FREE_DAILY_BASE_LIMIT, 5);
    assert_eq!(INVITE_BONUS_QUOTA, 3);
    assert_eq!(AI_CHAT_DAILY_LIMIT, 20);
}

#[test]
fn daily_usage_combines_base_and_bonus() {
    let s = get_daily_usage(2, 5, 3);
    assert_eq!(s.video_parse.used, 2);
    assert_eq!(s.video_parse.limit, 8);
    assert_eq!(s.video_parse.remaining, 6);
    assert_eq!(s.video_parse.bonus_quota, 3);
    assert_eq!(s.ai_chat.used, 5);
    assert_eq!(s.ai_chat.limit, 20);
    assert_eq!(s.ai_chat.remaining, 15);
}

#[test]
fn daily_usage_remaining_never_negative() {
    let s = get_daily_usage(9, 25, 0);
    assert_eq!(s.video_parse.remaining, 0);
    assert_eq!(s.ai_chat.remaining, 0);
}

#[test]
fn parse_quota_decision() {
    assert_eq!(check_can_parse_video("free", 0, 0), (true, 4));
    assert_eq!(check_can_parse_video("free", 4, 0), (true, 0));
    assert_eq!(check_can_parse_video("free", 5, 0), (false, -1));
    // Bonus quota extends the day.
    assert_eq!(check_can_parse_video("free", 5, 3), (true, 2));
    // Pro users are unlimited.
    assert_eq!(check_can_parse_video("pro", 999, 0), (true, -1));
}

#[test]
fn ai_chat_quota_decision() {
    assert_eq!(check_can_ai_chat("free", 19), (true, 0));
    assert_eq!(check_can_ai_chat("free", 20), (false, -1));
    assert_eq!(check_can_ai_chat("pro", 1_000), (true, -1));
}

#[test]
fn ledger_counts_per_user_and_day() {
    let mut ledger = UsageLedger::new();
    assert_eq!(ledger.get_counts("u", 10), (0, 0));
    assert_eq!(ledger.increment_video_parse_count("u", 10), 1);
    assert_eq!(ledger.increment_video_parse_count("u", 10), 2);
    assert_eq!(ledger.increment_ai_chat_count("u", 10), 1);
    assert_eq!(ledger.get_counts("u", 10), (2, 1));
    // Another day and another user stay independent.
    assert_eq!(ledger.get_counts("u", 11), (0, 0));
    assert_eq!(ledger.increment_video_parse_count("v", 10), 1);
    assert_eq!(ledger.get_counts("u", 10), (2, 1));
}
