use eng_learner::youtube::APIFY_DAILY_LIMIT_DEFAULT;
use eng_learner::youtube::APIFY_DAILY_LIMIT_INVITED;
use eng_learner::youtube::ApifyUsage;
use eng_learner::youtube::extract_video_id;
use eng_learner::youtube::get_apify_limit;

#[test]
fn test_extract_video_id() {
    assert_eq!(
        extract_video_id("https://www.youtube.com/watch?v=dQw4w9WgXcQ"),
        Some("dQw4w9WgXcQ".to_string())
    );
    assert_eq!(
        extract_video_id("https://youtu.be/dQw4w9WgXcQ"),
        Some("dQw4w9WgXcQ".to_string())
    );
}

#[test]
fn extract_video_id_cuts_at_separators() {
    assert_eq!(
        extract_video_id("https://youtu.be/abc123?t=42"),
        Some("abc123".to_string())
    );
    assert_eq!(
        extract_video_id("https://www.youtube.com/watch?v=abc123&list=PL9"),
        Some("abc123".to_string())
    );
    assert_eq!(
        extract_video_id("https://www.youtube.com/watch?v=abc123#t=1"),
        Some("abc123".to_string())
    );
}

#[test]
fn extract_video_id_rejects_other_urls() {
    assert_eq!(extract_video_id("https://example.com/watch"), None);
    assert_eq!(extract_video_id(""), None);
}

#[test]
fn test_apify_rate_limit() {
    let mut usage = ApifyUsage::new();
    let test_user = "test_normal_user_unique_12345";
    let has_invited = false;
    let year: i32 = 2024;
    let ordinal: u32 = 200;

    // Initially the full quota (2 for non-invited users) is available.
    assert_eq!(
        usage.get_apify_remaining(test_user, has_invited, year, ordinal),
        APIFY_DAILY_LIMIT_DEFAULT
    );
    assert!(usage.check_apify_rate_limit(test_user, has_invited, year, ordinal));

    // Use up the quota.
    for _ in 0..APIFY_DAILY_LIMIT_DEFAULT {
        assert!(usage.check_apify_rate_limit(test_user, has_invited, year, ordinal));
        usage.increment_apify_usage(test_user, year, ordinal);
    }

    // At the limit now.
    assert_eq!(usage.get_apify_remaining(test_user, has_invited, year, ordinal), 0);
    assert!(!usage.check_apify_rate_limit(test_user, has_invited, year, ordinal));
}

#[test]
fn test_apify_rate_limit_with_invite() {
    let mut usage = ApifyUsage::new();
    let test_user = "test_invited_user_unique_67890";
    let has_invited = true;
    let year: i32 = 2024;
    let ordinal: u32 = 201;

    // Invited users get 3.
    assert_eq!(
        usage.get_apify_remaining(test_user, has_invited, year, ordinal),
        APIFY_DAILY_LIMIT_INVITED
    );
    assert!(usage.check_apify_rate_limit(test_user, has_invited, year, ordinal));

    // Use up the quota.
    for _ in 0..APIFY_DAILY_LIMIT_INVITED {
        assert!(usage.check_apify_rate_limit(test_user, has_invited, year, ordinal));
        usage.increment_apify_usage(test_user, year, ordinal);
    }

    // At the limit now.
    assert_eq!(usage.get_apify_remaining(test_user, has_invited, year, ordinal), 0);
    assert!(!usage.check_apify_rate_limit(test_user, has_invited, year, ordinal));
}

#[test]
fn apify_quota_resets_on_a_new_day() {
    let mut usage = ApifyUsage::new();
    usage.increment_apify_usage("u", 2024, 100);
    usage.increment_apify_usage("u", 2024, 100);
    assert!(!usage.check_apify_rate_limit("u", false, 2024, 100));
    // The next day starts fresh, and the old day's counts are gone.
    assert!(usage.check_apify_rate_limit("u", false, 2024, 101));
    usage.increment_apify_usage("u", 2024, 101);
    assert_eq!(usage.get_apify_remaining("u", false, 2024, 101), 1);
    assert_eq!(usage.get_apify_remaining("u", false, 2024, 100), APIFY_DAILY_LIMIT_DEFAULT);
}

#[test]
fn apify_limit_by_invite_status() {
    assert_eq!(get_apify_limit(false), 2);
    assert_eq!(get_apify_limit(true), 3);
}
