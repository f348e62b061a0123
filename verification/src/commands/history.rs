//! Chat history, journal entries and targets: the checks and records of
//! their commands, and the single slot of the background sync.
use vstd::prelude::*;

use crate::domain::character::opt_view;
use crate::domain::chat_message::{ChatMessage, ChatSyncState, SyncStatusKind};
use crate::domain::journal_entry::{entry_problem, normalized_keyphrases, views, JournalEntry, JournalEntryInput};
use crate::domain::target::{Target, TargetKind};
use crate::error::{is_invalid_with, AppError};
use crate::storage::StorageError;
use crate::text::{chars_of, concat2, push_str, str_trim, string_of, text_eq, to_owned_string, trim};

verus! {

/// A message to send in chat mode.
#[derive(Debug, Clone)]
pub struct SendChatMessageInput {
    pub ai_id: String,
    pub message: String,
}

/// Rewind the last `count` messages of a chat.
#[derive(Debug, Clone)]
pub struct RewindChatInput {
    pub ai_id: String,
    pub count: u32,
}

/// Ask Kindroid to suggest the user's next message.
#[derive(Debug, Clone)]
pub struct SuggestChatUserMessageInput {
    pub ai_id: String,
    pub existing_message: String,
}

/// A required text field, trimmed; blank is refused as `<what> is required`.
pub fn require_text(value: &str, what: &str) -> (res: Result<String, AppError>)
    ensures
        trim(value@).len() == 0 ==> (res matches Err(e) && is_invalid_with(
            e,
            what@ + " is required"@,
        )),
        trim(value@).len() > 0 ==> (res matches Ok(v) && v@ == trim(value@)),
{
    let t = str_trim(value);
    if t.is_empty() {
        let m = concat2(what, " is required");
        Err(AppError::invalid(m.as_str()))
    } else {
        Ok(to_owned_string(t))
    }
}

/// Chat mode only works with a single AI that is a known target.
pub fn require_chat_target(found: bool, ai_id: &str) -> (res: Result<(), AppError>)
    ensures
        found ==> res is Ok,
        !found ==> (res matches Err(e) && is_invalid_with(
            e,
            "chat-mode is only available for AI targets, not groups or unknown ids (ai_id='"@
                + ai_id@ + "')"@,
        )),
{
    if found {
        return Ok(());
    }
    let mut m = chars_of(
        "chat-mode is only available for AI targets, not groups or unknown ids (ai_id='",
    );
    push_str(&mut m, ai_id);
    push_str(&mut m, "')");
    let text = string_of(m.as_slice());
    Err(AppError::invalid(text.as_str()))
}

/// Kindroid rewinds whole user/AI pairs: the count must be positive and
/// even.
pub fn validate_rewind_count(count: u32) -> (res: Result<(), AppError>)
    ensures
        count == 0 ==> (res matches Err(e) && is_invalid_with(
            e,
            "count must be greater than zero"@,
        )),
        count > 0 && count % 2 != 0 ==> (res matches Err(e) && is_invalid_with(
            e,
            "count must be even — Kindroid rewinds in user/AI pairs"@,
        )),
        count > 0 && count % 2 == 0 ==> res is Ok,
{
    if count == 0 {
        return Err(AppError::invalid("count must be greater than zero"));
    }
    if count % 2 != 0 {
        return Err(AppError::invalid("count must be even — Kindroid rewinds in user/AI pairs"));
    }
    Ok(())
}

/// A local chat bubble, until the next sync brings the server's copy: a
/// `local:` message id, no media, not a favourite.
pub fn local_bubble(
    id: uuid::Uuid,
    ai_id: &str,
    local_id: &str,
    sender: &str,
    timestamp: i64,
    message: String,
    now: i64,
) -> (res: ChatMessage)
    ensures
        res.id == id,
        res.ai_id@ == ai_id@,
        res.kindroid_msg_id@ == "local:"@ + local_id@,
        res.sender@ == sender@,
        res.timestamp == timestamp,
        res.message@ == message@,
        res.display_name is None,
        res.image_urls@.len() == 0,
        res.fetched_at == now,
        !res.favourite,
{
    ChatMessage {
        id,
        ai_id: to_owned_string(ai_id),
        kindroid_msg_id: concat2("local:", local_id),
        sender: to_owned_string(sender),
        display_name: None,
        timestamp,
        message,
        image_urls: Vec::new(),
        image_description: None,
        video_description: None,
        internet_response: None,
        link_url: None,
        link_description: None,
        fetched_at: now,
        favourite: false,
    }
}

/// The AI's bubble comes one millisecond after the user's, so it sorts
/// below it (a user time at the very end of the `i64` range is kept).
pub fn ai_bubble_timestamp(user_ts: i64) -> (res: i64)
    ensures
        user_ts < i64::MAX ==> res == user_ts + 1,
        user_ts == i64::MAX ==> res == i64::MAX,
{
    if user_ts < i64::MAX {
        user_ts + 1
    } else {
        i64::MAX
    }
}

/// Is the sync in the registry the one of this chat?
pub fn is_active_sync(current: &Option<ActiveSync>, ai_id: &str, kind: TargetKind) -> (res: bool)
    ensures
        res == (match current {
            Some(a) => a.ai_id@ == ai_id@ && a.kind == kind,
            None => false,
        }),
{
    match current {
        Some(a) => text_eq(a.ai_id.as_str(), ai_id) && a.kind == kind,
        None => false,
    }
}

/// A stored sync state that says a sync is running while none runs for
/// this chat (the app was closed mid-sync) is shown, and stored, as idle.
pub fn settle_stale_sync(state: &mut ChatSyncState, active: bool) -> (changed: bool)
    ensures
        changed == (!active && (old(state).is_syncing || old(state).status_kind
            == SyncStatusKind::Running || old(state).status_kind == SyncStatusKind::Backoff)),
        changed ==> {
            &&& !final(state).is_syncing
            &&& final(state).status_kind == SyncStatusKind::Idle
            &&& final(state).backoff_until is None
            &&& final(state).status_message is None
        },
        !changed ==> *final(state) == *old(state),
        final(state).last_timestamp == old(state).last_timestamp,
        final(state).total == old(state).total,
        final(state).full_sync_done == old(state).full_sync_done,
{
    let busy = state.is_syncing || state.status_kind == SyncStatusKind::Running
        || state.status_kind == SyncStatusKind::Backoff;
    if !active && busy {
        state.is_syncing = false;
        state.status_kind = SyncStatusKind::Idle;
        state.backoff_until = None;
        state.status_message = None;
        true
    } else {
        false
    }
}

/// The chat whose history is being synced.
#[derive(Debug, Clone)]
pub struct ActiveSync {
    pub ai_id: String,
    pub kind: TargetKind,
}

/// The single sync slot: at most one chat syncs at a time, because the
/// chat-history endpoint has a small daily request budget per token.
pub struct SyncSlot {
    current: Option<ActiveSync>,
}

/// The view of an active sync.
pub open spec fn active_view(a: Option<ActiveSync>) -> Option<(Seq<char>, TargetKind)> {
    match a {
        Some(x) => Some((x.ai_id@, x.kind)),
        None => None,
    }
}

impl SyncSlot {
    /// The chat holding the slot.
    pub closed spec fn holder(&self) -> Option<(Seq<char>, TargetKind)> {
        active_view(self.current)
    }

    /// A free slot.
    pub fn new() -> (res: Self)
        ensures
            res.holder() is None,
    {
        SyncSlot { current: None }
    }

    /// Take the slot for a chat. When another sync holds it, nothing
    /// changes and the holder is returned.
    pub fn start(&mut self, ai_id: &str, kind: TargetKind) -> (res: Result<(), ActiveSync>)
        ensures
            old(self).holder() is None ==> res is Ok && final(self).holder() == Some(
                (ai_id@, kind),
            ),
            old(self).holder() is Some ==> (res matches Err(a) && Some((a.ai_id@, a.kind))
                == old(self).holder()) && final(self).holder() == old(self).holder(),
    {
        match &self.current {
            Some(a) => Err(ActiveSync { ai_id: a.ai_id.clone(), kind: a.kind }),
            None => {
                self.current = Some(ActiveSync { ai_id: to_owned_string(ai_id), kind });
                Ok(())
            },
        }
    }

    /// The chat holding the slot, if any.
    pub fn current(&self) -> (res: Option<ActiveSync>)
        ensures
            active_view(res) == self.holder(),
    {
        match &self.current {
            Some(a) => Some(ActiveSync { ai_id: a.ai_id.clone(), kind: a.kind }),
            None => None,
        }
    }

    /// Free the slot when the sync ends; returns who held it.
    pub fn release(&mut self) -> (res: Option<ActiveSync>)
        ensures
            active_view(res) == old(self).holder(),
            final(self).holder() is None,
    {
        self.current.take()
    }
}

/// A journal entry as saved: the input validated, the body trimmed and
/// the keyphrases normalised. An edit keeps the entry's id and creation
/// time (`existing` is the stored entry's creation time, `None` when the
/// id is not one of the character's entries); a new entry gets `new_id`.
pub fn saved_journal_entry(
    input: &JournalEntryInput,
    character_id: uuid::Uuid,
    existing_created_at: Option<i64>,
    new_id: String,
    now: i64,
) -> (res: Result<JournalEntry, AppError>)
    ensures
        match entry_problem(input.entry@, views(input.keyphrases@)) {
            Some(m) => res matches Err(e) && is_invalid_with(e, m),
            None => match input.id {
                Some(id) => match existing_created_at {
                    None => res matches Err(e) && is_invalid_with(
                        e,
                        "entry does not belong to character"@,
                    ),
                    Some(c) => res matches Ok(j) && j.id@ == id@ && j.created_at == c
                        && j.updated_at == now && j.character_id == character_id && j.entry@
                        == trim(input.entry@) && views(j.keyphrases@) == normalized_keyphrases(
                        views(input.keyphrases@),
                    ),
                },
                None => res matches Ok(j) && j.id@ == new_id@ && j.created_at == now
                    && j.updated_at == now && j.character_id == character_id && j.entry@ == trim(
                    input.entry@,
                ) && views(j.keyphrases@) == normalized_keyphrases(views(input.keyphrases@)),
            },
        },
{
    match JournalEntry::validate(input.entry.as_str(), input.keyphrases.as_slice()) {
        Err(m) => {
            return Err(AppError::invalid(m.as_str()));
        },
        Ok(()) => {},
    }
    let keyphrases = JournalEntry::normalize_keyphrases(input.keyphrases.as_slice());
    let entry = to_owned_string(str_trim(input.entry.as_str()));
    match &input.id {
        Some(id) => match existing_created_at {
            None => Err(AppError::invalid("entry does not belong to character")),
            Some(c) => Ok(
                JournalEntry {
                    id: id.clone(),
                    character_id,
                    entry,
                    keyphrases,
                    created_at: c,
                    updated_at: now,
                },
            ),
        },
        None => Ok(
            JournalEntry { id: new_id, character_id, entry, keyphrases, created_at: now, updated_at: now },
        ),
    }
}

/// How a failed deletion of a journal entry is reported: a missing entry
/// does not belong to the character; other failures are database errors.
pub fn journal_delete_error(e: StorageError) -> (res: AppError)
    ensures
        e is NotFound ==> is_invalid_with(res, "entry does not belong to character"@),
        !(e is NotFound) ==> (res matches AppError::Database { message } && message@
            == crate::storage::storage_error_text(e)),
{
    match e {
        StorageError::NotFound => AppError::invalid("entry does not belong to character"),
        other => {
            let m = other.message();
            AppError::database(m.as_str())
        },
    }
}

/// A new or edited target.
#[derive(Debug, Clone)]
pub struct TargetInput {
    pub id: Option<uuid::Uuid>,
    pub ai_id: String,
    pub kind: TargetKind,
    pub label: String,
}

/// Check a target before saving: `ai_id` and label trimmed and not blank,
/// and an existing target keeps its kind (`existing_kind` is the stored
/// target's kind, when there is one). Returns the trimmed `ai_id` and
/// label.
pub fn validate_target(input: &TargetInput, existing_kind: Option<TargetKind>) -> (res: Result<(String, String), AppError>)
    ensures
        trim(input.ai_id@).len() == 0 ==> (res matches Err(e) && is_invalid_with(
            e,
            "ai_id is required"@,
        )),
        trim(input.ai_id@).len() > 0 && trim(input.label@).len() == 0 ==> (res matches Err(e)
            && is_invalid_with(e, "label is required"@)),
        trim(input.ai_id@).len() > 0 && trim(input.label@).len() > 0 ==> match existing_kind {
            Some(k) if k != input.kind => res matches Err(e) && is_invalid_with(
                e,
                "target kind cannot be changed"@,
            ),
            _ => res matches Ok((a, l)) && a@ == trim(input.ai_id@) && l@ == trim(input.label@),
        },
{
    let ai_id = str_trim(input.ai_id.as_str());
    let label = str_trim(input.label.as_str());
    if ai_id.is_empty() {
        return Err(AppError::invalid("ai_id is required"));
    }
    if label.is_empty() {
        return Err(AppError::invalid("label is required"));
    }
    match existing_kind {
        Some(k) => if k != input.kind {
            return Err(AppError::invalid("target kind cannot be changed"));
        },
        None => {},
    }
    Ok((to_owned_string(ai_id), to_owned_string(label)))
}

} // verus!
