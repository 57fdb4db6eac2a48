use eng_learner::api::ApiResponse;
use eng_learner::auth::AuthUser;
use eng_learner::auth::Claims;
use eng_learner::auth::OptionalAuthUser;
use eng_learner::auth::TOKEN_LIFETIME_SECS;
use eng_learner::dto::DailyStatsQuery;
use eng_learner::dto::ListQuery;
use eng_learner::invite::invite_code_of;
use eng_learner::text::bearer_token;
use eng_learner::text::str_eq;

fn sample_user() -> AuthUser {
    AuthUser {
        user_id: "user-7".to_string(),
        email: "u@example.com".to_string(),
        name: "U".to_string(),
        avatar: None,
        provider: "github".to_string(),
        tier: "free".to_string(),
    }
}

#[test]
fn claims_expire_one_lifetime_after_issue() {
    let now: u64 = 1_700_000_000;
    let c = Claims::issue(
        "user-7",
        "u@example.com",
        "U",
        Some("https://example.com/a.png"),
        "github",
        "free",
        now,
    );
    assert_eq!(c.sub, "user-7");
    assert_eq!(c.iat, now);
    assert_eq!(c.exp, now + TOKEN_LIFETIME_SECS);
    assert_eq!(c.exp - c.iat, 60 * 60 * 24 * 7);
    assert_eq!(c.avatar.as_deref(), Some("https://example.com/a.png"));
}

#[test]
fn user_id_or_default() {
    let authed = OptionalAuthUser(Some(sample_user()));
    assert_eq!(authed.user_id_or_default(), "user-7");
    assert_eq!(authed.tier_or_default(), "free");
    let anon = OptionalAuthUser(None);
    assert_eq!(anon.user_id_or_default(), "default");
    assert_eq!(anon.tier_or_default(), "free");
}

#[test]
fn bearer_token_extraction() {
    assert_eq!(bearer_token("Bearer abc.def"), Some("abc.def"));
    assert_eq!(bearer_token("Bearer "), Some(""));
    assert_eq!(bearer_token("Basic abc"), None);
    assert_eq!(bearer_token("Bear"), None);
    assert_eq!(bearer_token(""), None);
}

#[test]
fn str_eq_compares_by_characters() {
    assert!(str_eq("", ""));
    assert!(str_eq("tier", "tier"));
    assert!(!str_eq("tier", "tie"));
    assert!(!str_eq("tier", "tIer"));
}

#[test]
fn api_response_success() {
    let r: ApiResponse<i32> = ApiResponse::success(42);
    assert!(r.success);
    assert_eq!(r.data, Some(42));
    assert!(r.error.is_none());
    assert!(r.code.is_none());
}

#[test]
fn api_response_error() {
    let r: ApiResponse<i32> = ApiResponse::error("boom".to_string());
    assert!(!r.success);
    assert!(r.data.is_none());
    assert_eq!(r.error.as_deref(), Some("boom"));
    assert!(r.code.is_none());
}

#[test]
fn api_response_error_with_code() {
    let r: ApiResponse<i32> =
        ApiResponse::error_with_code("RATE_LIMIT_EXCEEDED".to_string(), "slow down".to_string());
    assert!(!r.success);
    assert_eq!(r.code.as_deref(), Some("RATE_LIMIT_EXCEEDED"));
    assert_eq!(r.error.as_deref(), Some("slow down"));
}

#[test]
fn query_defaults() {
    assert!(!ListQuery { due_only: None }.due_only_or_default());
    assert!(ListQuery { due_only: Some(true) }.due_only_or_default());
    assert!(!ListQuery { due_only: Some(false) }.due_only_or_default());
    assert_eq!(DailyStatsQuery { days: None }.days_or_default(), 7);
    assert_eq!(DailyStatsQuery { days: Some(30) }.days_or_default(), 30);
}

#[test]
fn invite_code_renders_leading_hex_digits() {
    assert_eq!(invite_code_of(0x1234_5678_9ABC_DEF0), "12345678");
    assert_eq!(invite_code_of(0xABCD_EF12), "ABCDEF12");
    assert_eq!(invite_code_of(0x1000_0000), "10000000");
    assert_eq!(invite_code_of(0x10_0000_0000), "10000000");
    assert_eq!(invite_code_of(u64::MAX), "FFFFFFFF");
    assert_eq!(invite_code_of(0x1_2345_6789), "12345678");
}
