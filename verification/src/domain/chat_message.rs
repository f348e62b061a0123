//! The state of a chat-history sync as stored and shown.
use vstd::prelude::*;

use crate::text::text_eq;

verus! {

/// One chat message stored locally. `fetched_at` is unix milliseconds;
/// `timestamp` is Kindroid's message time.
#[derive(Debug, Clone)]
pub struct ChatMessage {
    pub id: uuid::Uuid,
    pub ai_id: String,
    pub kindroid_msg_id: String,
    pub sender: String,
    pub display_name: Option<String>,
    pub timestamp: i64,
    pub message: String,
    pub image_urls: Vec<String>,
    pub image_description: Option<String>,
    pub video_description: Option<String>,
    pub internet_response: Option<String>,
    pub link_url: Option<String>,
    pub link_description: Option<String>,
    pub fetched_at: i64,
    pub favourite: bool,
}

/// The sync bookkeeping of one chat. Times are unix milliseconds.
#[derive(Debug, Clone)]
pub struct ChatSyncState {
    pub ai_id: String,
    pub last_synced_at: i64,
    pub last_timestamp: i64,
    pub full_sync_done: bool,
    pub is_syncing: bool,
    pub status_kind: SyncStatusKind,
    pub status_message: Option<String>,
    pub backoff_until: Option<i64>,
    pub total: u64,
}

/// What a chat-history sync is doing.
#[derive(Debug, Clone, Copy, PartialEq, Eq, Structural)]
pub enum SyncStatusKind {
    Idle,
    Running,
    Backoff,
    Cancelled,
    Error,
}

/// The stored text of a sync status.
pub open spec fn sync_status_text(s: SyncStatusKind) -> Seq<char> {
    match s {
        SyncStatusKind::Idle => "idle"@,
        SyncStatusKind::Running => "running"@,
        SyncStatusKind::Backoff => "backoff"@,
        SyncStatusKind::Cancelled => "cancelled"@,
        SyncStatusKind::Error => "error"@,
    }
}

/// The status a stored text names; unknown text is idle.
pub open spec fn parse_sync_status(s: Seq<char>) -> SyncStatusKind {
    if s == "running"@ {
        SyncStatusKind::Running
    } else if s == "backoff"@ {
        SyncStatusKind::Backoff
    } else if s == "cancelled"@ {
        SyncStatusKind::Cancelled
    } else if s == "error"@ {
        SyncStatusKind::Error
    } else {
        SyncStatusKind::Idle
    }
}

impl SyncStatusKind {
    /// The stored text of the status.
    pub fn as_str(&self) -> (res: &'static str)
        ensures
            res@ == sync_status_text(*self),
    {
        match self {
            SyncStatusKind::Idle => "idle",
            SyncStatusKind::Running => "running",
            SyncStatusKind::Backoff => "backoff",
            SyncStatusKind::Cancelled => "cancelled",
            SyncStatusKind::Error => "error",
        }
    }

    /// Read a stored status; unknown text is idle.
    pub fn parse(s: &str) -> (res: Self)
        ensures
            res == parse_sync_status(s@),
    {
        if text_eq(s, "running") {
            SyncStatusKind::Running
        } else if text_eq(s, "backoff") {
            SyncStatusKind::Backoff
        } else if text_eq(s, "cancelled") {
            SyncStatusKind::Cancelled
        } else if text_eq(s, "error") {
            SyncStatusKind::Error
        } else {
            SyncStatusKind::Idle
        }
    }
}

/// Reading back the stored text of a sync status gives the status.
pub proof fn sync_status_round_trip(s: SyncStatusKind)
    ensures
        parse_sync_status(sync_status_text(s)) == s,
{
    reveal_strlit("idle");
    reveal_strlit("running");
    reveal_strlit("backoff");
    reveal_strlit("cancelled");
    reveal_strlit("error");
    assert("idle"@[0] != "running"@[0]);
    assert("idle"@[0] != "backoff"@[0]);
    assert("idle"@[0] != "cancelled"@[0]);
    assert("idle"@[0] != "error"@[0]);
    assert("running"@[0] != "backoff"@[0]);
    assert("running"@[0] != "cancelled"@[0]);
    assert("running"@[0] != "error"@[0]);
    assert("backoff"@[0] != "cancelled"@[0]);
    assert("backoff"@[0] != "error"@[0]);
    assert("cancelled"@[0] != "error"@[0]);
}

} // verus!
