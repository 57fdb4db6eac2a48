//! Plain request, response and account types exchanged with callers.
//!
//! These are the wire shapes of the service, held here as bare data (the
//! transport layer keeps its own serialisable copies).  The few defaults a
//! query can fall back to are spelled out exactly.

use vstd::prelude::*;

verus! {

/// A registered account.
#[derive(Clone, Debug)]
pub struct User {
    pub id: String,
    pub email: String,
    pub name: String,
    pub avatar: Option<String>,
    pub provider: String,
    pub tier: String,
    pub invite_code: Option<String>,
    pub bonus_quota: i32,
    pub invited_by: Option<String>,
    pub created_at: Option<String>,
    pub last_login_at: Option<String>,
}

/// Request to save a word for the calling user.
#[derive(Clone, Debug)]
pub struct SaveVocabularyRequest {
    pub word: String,
    pub meaning: String,
    pub level: String,
    pub example: Option<String>,
    pub source_video_id: Option<String>,
    pub source_sentence: Option<String>,
}

/// The catalog identifier a save produced.
#[derive(Clone, Copy, Debug, PartialEq, Eq, Structural)]
pub struct SaveVocabularyResponse {
    pub id: i32,
}

/// Query string of the vocabulary listing.
#[derive(Clone, Copy, Debug, PartialEq, Eq, Structural)]
pub struct ListQuery {
    pub due_only: Option<bool>,
}

impl ListQuery {
    /// Whether only due words were asked for; unset means all words.
    pub fn due_only_or_default(&self) -> (r: bool)
        ensures
            r == (self.due_only == Some(true)),
    {
        match self.due_only {
            Some(b) => b,
            None => false,
        }
    }
}

/// Request to grade one review.
#[derive(Clone, Copy, Debug, PartialEq, Eq, Structural)]
pub struct ReviewRequest {
    pub vocab_id: i32,
    /// 0 = forgot, 1 = hard, 2 = good, 3 = easy.
    pub quality: i32,
}

/// Whether a word is saved for the calling user.
#[derive(Clone, Copy, Debug, PartialEq, Eq, Structural)]
pub struct CheckVocabularyResponse {
    pub saved: bool,
}

/// Request for an AI-generated memory card for one word.
#[derive(Clone, Debug)]
pub struct GenerateMemoryCardRequest {
    pub word: String,
    pub meaning: String,
    pub source_sentence: Option<String>,
}

/// Query string of the daily statistics listing.
#[derive(Clone, Copy, Debug, PartialEq, Eq, Structural)]
pub struct DailyStatsQuery {
    pub days: Option<i32>,
}

impl DailyStatsQuery {
    /// How many days back to report; unset means one week.
    pub fn days_or_default(&self) -> (r: i32)
        ensures
            self.days matches Some(d) ==> r == d,
            self.days is None ==> r == 7,
    {
        match self.days {
            Some(d) => d,
            None => 7,
        }
    }
}

/// Request to resolve a video URL.
#[derive(Clone, Debug)]
pub struct ParseRequest {
    pub url: String,
}

/// Query string of the subtitle fetch.
#[derive(Clone, Debug)]
pub struct SubtitleQuery {
    pub lang: Option<String>,
}

/// Parse quota left after a request.
#[derive(Clone, Copy, Debug, PartialEq, Eq, Structural)]
pub struct UsageInfo {
    pub remaining: i32,
}

/// A user's invite code and the link to share.
#[derive(Clone, Debug)]
pub struct InviteCodeResponse {
    pub invite_code: String,
    pub invite_link: String,
}

/// A user's invitation statistics.
#[derive(Clone, Copy, Debug, PartialEq, Eq, Structural)]
pub struct InviteStatsResponse {
    pub invite_count: i32,
    pub bonus_quota: i32,
    pub bonus_per_invite: i32,
}

/// One watched video.
#[derive(Clone, Debug)]
pub struct WatchHistoryItem {
    pub video_id: String,
    pub title: String,
    pub thumbnail: String,
    pub watched_at: String,
}

/// Request to record a watched video.
#[derive(Clone, Debug)]
pub struct AddHistoryRequest {
    pub video_id: String,
    pub title: String,
    pub thumbnail: String,
}

/// The watch history handed back to the caller.
#[derive(Clone, Debug)]
pub struct HistoryResponse {
    pub history: Vec<WatchHistoryItem>,
}

/// Request to remove one video from the watch history.
#[derive(Clone, Debug)]
pub struct DeleteHistoryRequest {
    pub video_id: String,
}

} // verus!
