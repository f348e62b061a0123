//! The background chat-history sync: one sync at a time, pages drained
//! until the server is caught up, rate limits honoured with a capped
//! backoff, and the sync state kept as the UI shows it.
use vstd::prelude::*;

use crate::domain::character::opt_view;
use crate::domain::chat_message::{sync_status_text, ChatMessage, ChatSyncState, SyncStatusKind};
use crate::kindroid::{kindroid_error_text, KindroidError, ListChatMessagesRequest, RawChatMessage};
use crate::text::{chars_of, decimal, push_str, string_of, to_owned_string, u64_to_string};

verus! {

/// Seconds between two drains once the server is caught up.
pub const SYNC_INTERVAL_SECS: u64 = 120;

/// The longest backoff after a rate limit, in milliseconds (one hour).
pub const BACKOFF_CAP_MS: u64 = 3600000;

/// The backoff when the server gives no `Retry-After`, in milliseconds
/// (one hour).
pub const DEFAULT_BACKOFF_MS: u64 = 3600000;

/// Pages fetched at most in one drain; the rest waits for the next one.
pub const MAX_PAGES_PER_CYCLE: u64 = 200;

/// Messages asked for per page.
pub const PAGE_LIMIT: u32 = 100;

/// How many recent messages a local rewind looks back over.
pub const REWIND_MESSAGE_COUNT: u32 = 12;

/// Progress of a running sync, as sent to the UI.
#[derive(Debug, Clone)]
pub struct SyncProgress {
    pub ai_id: String,
    pub total: u64,
    pub last_timestamp: i64,
    pub full_sync_done: bool,
    pub status_kind: String,
    pub status_message: Option<String>,
    pub requests: u64,
    pub last_batch_size: u64,
    pub last_batch_had_messages: bool,
}

/// The end of a sync, as sent to the UI.
#[derive(Debug, Clone)]
pub struct SyncComplete {
    pub ai_id: String,
    pub total: u64,
    pub status_kind: String,
    pub status_message: Option<String>,
    pub requests: u64,
}

/// Counters of one sync run.
#[derive(Debug, Clone, Copy, PartialEq, Eq, Structural)]
pub struct SyncLoopStats {
    pub requests: u64,
    pub last_batch_size: u64,
}

/// The cursor a page is fetched after: the last timestamp seen, once
/// there is one.
pub open spec fn start_after(last_timestamp: i64) -> Option<i64> {
    if last_timestamp > 0 {
        Some(last_timestamp)
    } else {
        None
    }
}

/// The cursor a page is fetched after.
pub fn compute_start_after_timestamp(last_timestamp: i64, full_sync_done: bool) -> (res: Option<i64>)
    ensures
        res == start_after(last_timestamp),
{
    if last_timestamp > 0 {
        Some(last_timestamp)
    } else {
        None
    }
}

/// The request of the next page for `ai_id`.
pub fn next_page_request(ai_id: &str, state: &ChatSyncState) -> (res: ListChatMessagesRequest)
    ensures
        res.ai_id@ == ai_id@,
        res.limit == PAGE_LIMIT,
        res.start_after_timestamp == start_after(state.last_timestamp),
{
    ListChatMessagesRequest {
        ai_id: to_owned_string(ai_id),
        limit: PAGE_LIMIT,
        start_after_timestamp: compute_start_after_timestamp(state.last_timestamp, state.full_sync_done),
    }
}

/// How long to wait after a rate limit, in milliseconds: the server's
/// `Retry-After`, or the default, and never more than the cap.
pub open spec fn backoff_of(retry_after: Option<u64>) -> u64 {
    let d = match retry_after {
        Some(ms) => ms,
        None => DEFAULT_BACKOFF_MS,
    };
    if d < BACKOFF_CAP_MS {
        d
    } else {
        BACKOFF_CAP_MS
    }
}

/// How long to wait after a rate limit, in milliseconds.
pub fn backoff_ms(retry_after: Option<u64>) -> (res: u64)
    ensures
        res == backoff_of(retry_after),
        res <= BACKOFF_CAP_MS,
{
    let d = match retry_after {
        Some(ms) => ms,
        None => DEFAULT_BACKOFF_MS,
    };
    if d < BACKOFF_CAP_MS {
        d
    } else {
        BACKOFF_CAP_MS
    }
}

/// What a drain does when fetching a page failed.
#[derive(Debug, Clone, PartialEq, Eq)]
pub enum FetchFailure {
    /// Rate limited: wait this many milliseconds, then fetch the same page.
    Backoff(u64),
    /// Stop the sync with this error message; the cursor is kept.
    Stop(String),
}

/// A rate limit backs off for `backoff_of` its `Retry-After`; any other
/// error stops the sync with the error's text.
pub fn fetch_failure(e: &KindroidError) -> (res: FetchFailure)
    ensures
        match e {
            KindroidError::RateLimited { retry_after, .. } => res == FetchFailure::Backoff(
                backoff_of(*retry_after),
            ),
            _ => res matches FetchFailure::Stop(m) && m@ == kindroid_error_text(*e),
        },
{
    match e {
        KindroidError::RateLimited { retry_after, .. } => FetchFailure::Backoff(backoff_ms(*retry_after)),
        _ => FetchFailure::Stop(e.message()),
    }
}

/// The message a sync stops with when the API token can no longer be
/// read from the keychain.
pub fn token_cleared_message() -> (res: String)
    ensures
        res@ == "API token cleared"@,
{
    to_owned_string("API token cleared")
}

/// The end of a backoff of `wait_ms` milliseconds started at `now`
/// (unix milliseconds); the latest time an `i64` holds if it lies beyond.
pub open spec fn backoff_end(now: i64, wait_ms: u64) -> i64 {
    if now + wait_ms <= i64::MAX {
        (now + wait_ms) as i64
    } else {
        i64::MAX
    }
}

/// A number with at least two digits, as `{:02}` writes it.
pub open spec fn two_digits(n: nat) -> Seq<char> {
    if n < 10 {
        seq!['0'] + decimal(n)
    } else {
        decimal(n)
    }
}

/// A countdown of `secs` seconds (none when negative): `Mm SSs` from a
/// minute on, `Ss` below.
pub open spec fn countdown_text(secs: i64) -> Seq<char> {
    let d: nat = if secs < 0 {
        0
    } else {
        secs as nat
    };
    if d / 60 > 0 {
        decimal(d / 60) + "m "@ + two_digits(d % 60) + "s"@
    } else {
        decimal(d % 60) + "s"@
    }
}

/// Write the countdown to the end of a backoff `secs` seconds away.
pub fn format_countdown(secs: i64) -> (res: String)
    ensures
        res@ == countdown_text(secs),
{
    let d: u64 = if secs < 0 {
        0
    } else {
        secs as u64
    };
    let m = d / 60;
    let s = d % 60;
    let mut out: Vec<char> = Vec::new();
    if m > 0 {
        let ms = u64_to_string(m);
        push_str(&mut out, ms.as_str());
        push_str(&mut out, "m ");
        if s < 10 {
            out.push('0');
        }
        let ss = u64_to_string(s);
        push_str(&mut out, ss.as_str());
        push_str(&mut out, "s");
    } else {
        let ss = u64_to_string(s);
        push_str(&mut out, ss.as_str());
        push_str(&mut out, "s");
    }
    proof {
        if m > 0 {
            assert(out@ =~= countdown_text(secs));
        } else {
            assert(out@ =~= countdown_text(secs));
        }
    }
    string_of(out.as_slice())
}

/// The status message while backing off.
pub fn backoff_message(secs: i64) -> (res: String)
    ensures
        res@ == "Rate-limited; retrying in "@ + countdown_text(secs),
{
    let c = format_countdown(secs);
    crate::text::concat2("Rate-limited; retrying in ", c.as_str())
}

/// What a drain does before fetching a page.
#[derive(Debug, Clone, Copy, PartialEq, Eq, Structural)]
pub enum DrainGate {
    /// Cancellation was asked for.
    Cancelled,
    /// The page cap of this drain is reached: wait for the next cycle.
    Pause,
    /// Fetch the next page.
    Fetch,
}

/// Decide what a drain does next.
pub fn drain_gate(cancelled: bool, pages_this_cycle: u64) -> (res: DrainGate)
    ensures
        cancelled ==> res == DrainGate::Cancelled,
        !cancelled && pages_this_cycle >= MAX_PAGES_PER_CYCLE ==> res == DrainGate::Pause,
        !cancelled && pages_this_cycle < MAX_PAGES_PER_CYCLE ==> res == DrainGate::Fetch,
{
    if cancelled {
        DrainGate::Cancelled
    } else if pages_this_cycle >= MAX_PAGES_PER_CYCLE {
        DrainGate::Pause
    } else {
        DrainGate::Fetch
    }
}

/// What a fetched page means for the drain.
#[derive(Debug, Clone, Copy, PartialEq, Eq, Structural)]
pub enum PageOutcome {
    /// Nothing new at this cursor: caught up.
    CaughtUp,
    /// Messages stored, and the server says there is no more.
    Done,
    /// Messages stored; fetch the next page.
    More,
}

/// Classify a fetched page.
pub fn page_outcome(count: usize, has_more: bool) -> (res: PageOutcome)
    ensures
        count == 0 ==> res == PageOutcome::CaughtUp,
        count > 0 && !has_more ==> res == PageOutcome::Done,
        count > 0 && has_more ==> res == PageOutcome::More,
{
    if count == 0 {
        PageOutcome::CaughtUp
    } else if !has_more {
        PageOutcome::Done
    } else {
        PageOutcome::More
    }
}

/// The largest of some timestamps.
pub open spec fn max_timestamp(ts: Seq<i64>) -> Option<i64>
    decreases ts.len(),
{
    if ts.len() == 0 {
        None
    } else {
        match max_timestamp(ts.drop_last()) {
            Some(m) => if m >= ts.last() {
                Some(m)
            } else {
                Some(ts.last())
            },
            None => Some(ts.last()),
        }
    }
}

/// Where the cursor moves after a page: the server's cursor when it sent
/// a positive one, else the newest message's timestamp.
pub open spec fn next_cursor_of(api_cursor: Option<i64>, timestamps: Seq<i64>) -> Option<i64> {
    match api_cursor {
        Some(c) if c > 0 => Some(c),
        _ => max_timestamp(timestamps),
    }
}

/// Where the cursor moves after a page.
pub fn next_cursor(api_cursor: Option<i64>, timestamps: &[i64]) -> (res: Option<i64>)
    ensures
        res == next_cursor_of(api_cursor, timestamps@),
{
    match api_cursor {
        Some(c) => if c > 0 {
            return Some(c);
        },
        None => {},
    }
    let mut best: Option<i64> = None;
    let mut i: usize = 0;
    while i < timestamps.len()
        invariant
            i <= timestamps.len(),
            best == max_timestamp(timestamps@.take(i as int)),
        decreases timestamps.len() - i,
    {
        let t = timestamps[i];
        proof {
            let s = timestamps@.take(i + 1);
            assert(s.drop_last() == timestamps@.take(i as int));
            assert(s.last() == t);
        }
        best = match best {
            Some(m) => if m >= t {
                Some(m)
            } else {
                Some(t)
            },
            None => Some(t),
        };
        i = i + 1;
    }
    proof {
        assert(timestamps@.take(timestamps@.len() as int) == timestamps@);
    }
    best
}

/// The sync state after storing a page at time `now`: the cursor moves
/// when there is a new one, the total is the stored count, the first
/// sync is done once the server has no more, and the sync is running
/// without message or backoff.
pub fn apply_page(state: &mut ChatSyncState, cursor: Option<i64>, has_more: bool, total: u64, now: i64)
    ensures
        final(state).last_timestamp == (match cursor {
            Some(c) => c,
            None => old(state).last_timestamp,
        }),
        final(state).total == total,
        final(state).last_synced_at == now,
        final(state).full_sync_done == (old(state).full_sync_done || !has_more),
        final(state).status_kind == SyncStatusKind::Running,
        final(state).status_message is None,
        final(state).backoff_until is None,
        final(state).is_syncing == old(state).is_syncing,
        final(state).ai_id@ == old(state).ai_id@,
{
    match cursor {
        Some(c) => {
            state.last_timestamp = c;
        },
        None => {},
    }
    state.total = total;
    state.last_synced_at = now;
    if !state.full_sync_done && !has_more {
        state.full_sync_done = true;
    }
    state.status_kind = SyncStatusKind::Running;
    state.status_message = None;
    state.backoff_until = None;
}

/// The state of a chat seen for the first time at `now`, holding `total`
/// stored messages: running, from no cursor, and already fully synced
/// when messages are stored.
pub fn initial_sync_state(ai_id: &str, total: u64, now: i64) -> (res: ChatSyncState)
    ensures
        res.ai_id@ == ai_id@,
        res.last_synced_at == now,
        res.last_timestamp == 0,
        res.full_sync_done == (total > 0),
        res.is_syncing,
        res.status_kind == SyncStatusKind::Running,
        res.status_message is None,
        res.backoff_until is None,
        res.total == total,
{
    ChatSyncState {
        ai_id: to_owned_string(ai_id),
        last_synced_at: now,
        last_timestamp: 0,
        full_sync_done: total > 0,
        is_syncing: true,
        status_kind: SyncStatusKind::Running,
        status_message: None,
        backoff_until: None,
        total,
    }
}

/// A new status written over `prev` at `now`; cursor, total and first
/// sync flag are kept.
pub fn with_status(
    prev: &ChatSyncState,
    kind: SyncStatusKind,
    message: Option<String>,
    backoff_until: Option<i64>,
    is_syncing: bool,
    now: i64,
) -> (res: ChatSyncState)
    ensures
        res.ai_id@ == prev.ai_id@,
        res.last_synced_at == now,
        res.last_timestamp == prev.last_timestamp,
        res.full_sync_done == prev.full_sync_done,
        res.is_syncing == is_syncing,
        res.status_kind == kind,
        opt_view(res.status_message) == opt_view(message),
        res.backoff_until == backoff_until,
        res.total == prev.total,
{
    ChatSyncState {
        ai_id: prev.ai_id.clone(),
        last_synced_at: now,
        last_timestamp: prev.last_timestamp,
        full_sync_done: prev.full_sync_done,
        is_syncing,
        status_kind: kind,
        status_message: message,
        backoff_until,
        total: prev.total,
    }
}

/// The state while backing off `wait_ms` milliseconds from `now` after a
/// rate limit: the backoff status, a countdown of the whole seconds to
/// wait, and the time the backoff ends; cursor, total and first sync flag
/// are kept.
pub fn backoff_state(prev: &ChatSyncState, wait_ms: u64, now: i64) -> (res: ChatSyncState)
    ensures
        res.ai_id@ == prev.ai_id@,
        res.last_synced_at == now,
        res.last_timestamp == prev.last_timestamp,
        res.full_sync_done == prev.full_sync_done,
        res.is_syncing == prev.is_syncing,
        res.status_kind == SyncStatusKind::Backoff,
        opt_view(res.status_message) == Some(
            "Rate-limited; retrying in "@ + countdown_text((wait_ms / 1000) as i64),
        ),
        res.backoff_until == Some(backoff_end(now, wait_ms)),
        res.total == prev.total,
{
    let sum: i128 = now as i128 + wait_ms as i128;
    let until: i64 = if sum <= i64::MAX as i128 {
        sum as i64
    } else {
        i64::MAX
    };
    let secs: u64 = wait_ms / 1000;
    let message = backoff_message(secs as i64);
    with_status(prev, SyncStatusKind::Backoff, Some(message), Some(until), prev.is_syncing, now)
}

/// The state after a cancelled sync: not syncing, cancelled, no message
/// or backoff; the cursor is kept so a new sync resumes from it.
pub fn cancelled_state(prev: &ChatSyncState, now: i64) -> (res: ChatSyncState)
    ensures
        !res.is_syncing,
        res.status_kind == SyncStatusKind::Cancelled,
        res.status_message is None,
        res.backoff_until is None,
        res.last_timestamp == prev.last_timestamp,
        res.full_sync_done == prev.full_sync_done,
        res.total == prev.total,
        res.last_synced_at == now,
{
    with_status(prev, SyncStatusKind::Cancelled, None, None, false, now)
}

/// The state after a failed sync: not syncing, an error with `message`;
/// the stored cursor and first-sync flag are kept (none when nothing is
/// stored) so the user can resume.
pub fn error_state(ai_id: &str, existing: &Option<ChatSyncState>, message: &str, total: u64, now: i64) -> (res: ChatSyncState)
    ensures
        res.ai_id@ == ai_id@,
        !res.is_syncing,
        res.status_kind == SyncStatusKind::Error,
        opt_view(res.status_message) == Some(message@),
        res.backoff_until is None,
        res.last_timestamp == (match existing {
            Some(s) => s.last_timestamp,
            None => 0,
        }),
        res.full_sync_done == (match existing {
            Some(s) => s.full_sync_done,
            None => false,
        }),
        res.total == total,
        res.last_synced_at == now,
{
    let (last_timestamp, full_sync_done) = match existing {
        Some(s) => (s.last_timestamp, s.full_sync_done),
        None => (0, false),
    };
    ChatSyncState {
        ai_id: to_owned_string(ai_id),
        last_synced_at: now,
        last_timestamp,
        full_sync_done,
        is_syncing: false,
        status_kind: SyncStatusKind::Error,
        status_message: Some(to_owned_string(message)),
        backoff_until: None,
        total,
    }
}

/// The progress event of a sync.
pub fn progress_event(ai_id: &str, state: &ChatSyncState, stats: SyncLoopStats) -> (res: SyncProgress)
    ensures
        res.ai_id@ == ai_id@,
        res.total == state.total,
        res.last_timestamp == state.last_timestamp,
        res.full_sync_done == state.full_sync_done,
        res.status_kind@ == sync_status_text(state.status_kind),
        opt_view(res.status_message) == opt_view(state.status_message),
        res.requests == stats.requests,
        res.last_batch_size == stats.last_batch_size,
        res.last_batch_had_messages == (stats.last_batch_size > 0),
{
    SyncProgress {
        ai_id: to_owned_string(ai_id),
        total: state.total,
        last_timestamp: state.last_timestamp,
        full_sync_done: state.full_sync_done,
        status_kind: to_owned_string(state.status_kind.as_str()),
        status_message: crate::domain::character::clone_opt(&state.status_message),
        requests: stats.requests,
        last_batch_size: stats.last_batch_size,
        last_batch_had_messages: stats.last_batch_size > 0,
    }
}

/// The completion event of a sync.
pub fn complete_event(ai_id: &str, state: &ChatSyncState, requests: u64) -> (res: SyncComplete)
    ensures
        res.ai_id@ == ai_id@,
        res.total == state.total,
        res.status_kind@ == sync_status_text(state.status_kind),
        opt_view(res.status_message) == opt_view(state.status_message),
        res.requests == requests,
{
    SyncComplete {
        ai_id: to_owned_string(ai_id),
        total: state.total,
        status_kind: to_owned_string(state.status_kind.as_str()),
        status_message: crate::domain::character::clone_opt(&state.status_message),
        requests,
    }
}

/// A fetched message as stored for `ai_id`: an absent text or image list
/// is stored empty; `id` and `now` are the new row's id and fetch time.
pub fn chat_message_from_raw(m: RawChatMessage, ai_id: &str, id: uuid::Uuid, now: i64) -> (res: ChatMessage)
    ensures
        res.id == id,
        res.ai_id@ == ai_id@,
        res.kindroid_msg_id@ == m.id@,
        res.sender@ == m.sender@,
        res.timestamp == m.timestamp,
        res.message@ == (match m.message {
            Some(t) => t@,
            None => Seq::<char>::empty(),
        }),
        res.fetched_at == now,
        !res.favourite,
{
    let message = match m.message {
        Some(t) => t,
        None => String::new(),
    };
    let image_urls = match m.image_urls {
        Some(v) => v,
        None => Vec::new(),
    };
    ChatMessage {
        id,
        ai_id: to_owned_string(ai_id),
        kindroid_msg_id: m.id,
        sender: m.sender,
        display_name: m.display_name,
        timestamp: m.timestamp,
        message,
        image_urls,
        image_description: m.image_description,
        video_description: m.video_description,
        internet_response: m.internet_response,
        link_url: m.link_url,
        link_description: m.link_description,
        fetched_at: now,
        favourite: false,
    }
}

/// Where a local rewind starts: nothing before any sync; the saved cursor
/// during the first sync; afterwards one millisecond before the oldest of
/// the most recent messages (never below zero), or nothing without
/// messages. `oldest_recent` is the timestamp of the oldest of the last
/// `REWIND_MESSAGE_COUNT` stored messages.
pub open spec fn local_rewind(full_sync_done: bool, last_timestamp: i64, oldest_recent: Option<i64>) -> Option<i64> {
    if last_timestamp <= 0 && !full_sync_done {
        None
    } else if !full_sync_done {
        Some(last_timestamp)
    } else {
        match oldest_recent {
            Some(t) => if t - 1 > 0 {
                Some((t - 1) as i64)
            } else {
                Some(0)
            },
            None => None,
        }
    }
}

/// Does a local rewind need the recent stored messages?
pub fn rewind_needs_messages(full_sync_done: bool, last_timestamp: i64) -> (res: bool)
    ensures
        res == full_sync_done,
{
    full_sync_done
}

/// Where a local rewind starts.
pub fn compute_local_rewind(full_sync_done: bool, last_timestamp: i64, oldest_recent: Option<i64>) -> (res: Option<i64>)
    ensures
        res == local_rewind(full_sync_done, last_timestamp, oldest_recent),
{
    if last_timestamp <= 0 && !full_sync_done {
        return None;
    }
    if !full_sync_done {
        return Some(last_timestamp);
    }
    match oldest_recent {
        Some(t) => {
            let b: i64 = if t > i64::MIN {
                t - 1
            } else {
                0
            };
            if b > 0 {
                Some(b)
            } else {
                Some(0)
            }
        },
        None => None,
    }
}

/// A page without messages and without a server cursor never moves the
/// cursor, so an empty page cannot rewind a sync.
pub proof fn empty_page_keeps_cursor(api_cursor: Option<i64>)
    requires
        api_cursor is None || api_cursor->0 <= 0,
    ensures
        next_cursor_of(api_cursor, Seq::<i64>::empty()) is None,
{
}

/// Without a server cursor, the cursor moves to a timestamp no older than
/// any message of the page.
pub proof fn page_cursor_covers_page(timestamps: Seq<i64>)
    requires
        timestamps.len() > 0,
    ensures
        max_timestamp(timestamps) matches Some(m) && forall|k: int|
            0 <= k < timestamps.len() ==> #[trigger] timestamps[k] <= m,
    decreases timestamps.len(),
{
    if timestamps.len() > 1 {
        page_cursor_covers_page(timestamps.drop_last());
        let m0 = max_timestamp(timestamps.drop_last())->0;
        assert forall|k: int| 0 <= k < timestamps.len() implies #[trigger] timestamps[k]
            <= max_timestamp(timestamps)->0 by {
            if k < timestamps.len() - 1 {
                assert(timestamps[k] == timestamps.drop_last()[k]);
            }
        }
    }
}

proof fn lemma_max_timestamp_is_member(timestamps: Seq<i64>)
    requires
        timestamps.len() > 0,
    ensures
        max_timestamp(timestamps) matches Some(m) && exists|k: int|
            0 <= k < timestamps.len() && #[trigger] timestamps[k] == m,
    decreases timestamps.len(),
{
    if timestamps.len() > 1 {
        let init = timestamps.drop_last();
        lemma_max_timestamp_is_member(init);
        let m0 = max_timestamp(init)->0;
        let k0 = choose|k: int| 0 <= k < init.len() && #[trigger] init[k] == m0;
        assert(timestamps[k0] == init[k0]);
        let last = timestamps.len() - 1;
        assert(timestamps[last] == timestamps.last());
        if m0 >= timestamps.last() {
            assert(max_timestamp(timestamps) == Some(m0));
            assert(timestamps[k0] == m0);
        } else {
            assert(max_timestamp(timestamps) == Some(timestamps.last()));
            assert(timestamps[last] == timestamps.last());
        }
    } else {
        assert(timestamps.drop_last().len() == 0);
        assert(max_timestamp(timestamps.drop_last()) is None);
        assert(max_timestamp(timestamps) == Some(timestamps.last()));
        assert(timestamps[0] == timestamps.last());
    }
}

/// A page with messages always moves the cursor: to the server's cursor
/// when it sent a positive one, otherwise to the newest timestamp of the
/// page, which is one of the page's messages and no older than any of
/// them.
pub proof fn page_with_messages_moves_cursor(api_cursor: Option<i64>, timestamps: Seq<i64>)
    requires
        timestamps.len() > 0,
    ensures
        next_cursor_of(api_cursor, timestamps) is Some,
        api_cursor matches Some(a) ==> (a > 0 ==> next_cursor_of(api_cursor, timestamps) == Some(a)),
        (api_cursor is None || api_cursor->0 <= 0) ==> {
            let c = next_cursor_of(api_cursor, timestamps)->0;
            &&& forall|k: int| 0 <= k < timestamps.len() ==> #[trigger] timestamps[k] <= c
            &&& exists|k: int| 0 <= k < timestamps.len() && #[trigger] timestamps[k] == c
        },
{
    page_cursor_covers_page(timestamps);
    lemma_max_timestamp_is_member(timestamps);
}

} // verus!
