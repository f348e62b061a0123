//! One automation cycle of a chat: when a journal run or a summary is
//! due, which messages it reads, how each delivery is recorded, and the
//! set of chats whose cycle is running.
use vstd::prelude::*;

use crate::commands::prompts::SummaryMode;
use crate::commands::automation::prepend_date;
use crate::domain::character::opt_view;
use crate::domain::chat_automation::{
    backend_limit, cursor_less, AutoJournalEntry, AutoJournalEntryStatus, AutoJournalRun,
    AutoJournalRunStatus, ChatAutomationState, StableMessageCursor, SummaryBackend,
    SummaryBootstrapMode, before_cursor,
};
use crate::domain::chat_message::ChatMessage;
use crate::domain::journal_entry::{indexed_problem, problem_of, views, JournalEntry};
use crate::error::{is_invalid_with, AppError};
use crate::kindroid::{kindroid_error_status, kindroid_error_text, HttpResponse, KindroidError};
use crate::text::{chars_of, decimal, push_str, string_of, text_eq, to_owned_string, u64_to_string};

verus! {

/// What a journal cycle does first.
#[derive(Debug, Clone, Copy, PartialEq, Eq, Structural)]
pub enum JournalGate {
    /// Automatic journaling is off for this chat.
    Disabled,
    /// First cycle: only remember where the stable history ends now.
    Initialise,
    /// Look for a pending run or new messages.
    Proceed,
}

/// The first decision of a journal cycle.
pub fn journal_gate(auto_journal_enabled: bool, journal_initialised: bool) -> (res: JournalGate)
    ensures
        !auto_journal_enabled ==> res == JournalGate::Disabled,
        auto_journal_enabled && !journal_initialised ==> res == JournalGate::Initialise,
        auto_journal_enabled && journal_initialised ==> res == JournalGate::Proceed,
{
    if !auto_journal_enabled {
        JournalGate::Disabled
    } else if !journal_initialised {
        JournalGate::Initialise
    } else {
        JournalGate::Proceed
    }
}

/// A cycle only runs once `interval` new stable messages have arrived.
pub fn enough_new_messages(count: usize, interval: u32) -> (res: bool)
    ensures
        res == (count >= interval),
{
    count >= interval as usize
}

/// The cursor of a message.
pub fn cursor_of(m: &ChatMessage) -> (res: StableMessageCursor)
    ensures
        res.timestamp == m.timestamp,
        res.kindroid_msg_id@ == m.kindroid_msg_id@,
{
    StableMessageCursor { timestamp: m.timestamp, kindroid_msg_id: m.kindroid_msg_id.clone() }
}

/// Is message `m` before position `c`?
pub open spec fn message_before(m: ChatMessage, c: StableMessageCursor) -> bool {
    m.timestamp < c.timestamp || (m.timestamp == c.timestamp && crate::domain::chat_automation::text_less(
        m.kindroid_msg_id@,
        c.kindroid_msg_id@,
    ))
}

/// The positions, below `n`, of stored messages before `first` (all of
/// them when there is no `first`), ascending.
pub open spec fn positions_before(all: Seq<ChatMessage>, first: Option<StableMessageCursor>, n: nat) -> Seq<int>
    decreases n,
{
    if n == 0 || n > all.len() {
        Seq::empty()
    } else {
        let before = positions_before(all, first, (n - 1) as nat);
        let keep = match first {
            Some(c) => message_before(all[n - 1], c),
            None => true,
        };
        if keep {
            before.push(n - 1)
        } else {
            before
        }
    }
}

/// The earlier messages a journal prompt shows for context: the last
/// `interval` stored messages before the first new one, in order.
pub open spec fn context_positions(all: Seq<ChatMessage>, first: Option<StableMessageCursor>, interval: nat) -> Seq<int> {
    let p = positions_before(all, first, all.len());
    if p.len() <= interval {
        p
    } else {
        p.skip(p.len() - interval)
    }
}

/// Positions as integers.
pub open spec fn as_ints(v: Seq<usize>) -> Seq<int> {
    v.map_values(|i: usize| i as int)
}

/// Pick the context messages of a journal prompt, as positions in `all`.
pub fn journal_context_positions(all: &[ChatMessage], first: &Option<StableMessageCursor>, interval: u32) -> (res: Vec<usize>)
    ensures
        as_ints(res@) == context_positions(all@, *first, interval as nat),
        forall|k: int| 0 <= k < res@.len() ==> #[trigger] res@[k] < all@.len(),
{
    let mut keep: Vec<usize> = Vec::new();
    let mut i: usize = 0;
    while i < all.len()
        invariant
            i <= all.len(),
            as_ints(keep@) == positions_before(all@, *first, i as nat),
            forall|k: int| 0 <= k < keep@.len() ==> #[trigger] keep@[k] < i,
        decreases all.len() - i,
    {
        let take = match first {
            Some(c) => {
                let mc = cursor_of(&all[i]);
                before_cursor(&mc, c)
            },
            None => true,
        };
        proof {
            assert(positions_before(all@, *first, (i + 1) as nat) == (if take {
                positions_before(all@, *first, i as nat).push(i as int)
            } else {
                positions_before(all@, *first, i as nat)
            }));
        }
        if take {
            let ghost before = keep@;
            keep.push(i);
            proof {
                assert(as_ints(keep@) == as_ints(before).push(i as int));
            }
        }
        i = i + 1;
    }
    let n = keep.len();
    let want = interval as usize;
    if n <= want {
        return keep;
    }
    let mut out: Vec<usize> = Vec::new();
    let mut j = n - want;
    while j < n
        invariant
            n == keep@.len(),
            n - want <= j <= n,
            want <= n,
            as_ints(out@) == as_ints(keep@).subrange((n - want) as int, j as int),
            forall|k: int| 0 <= k < keep@.len() ==> #[trigger] keep@[k] < all@.len(),
            forall|k: int| 0 <= k < out@.len() ==> #[trigger] out@[k] < all@.len(),
        decreases n - j,
    {
        out.push(keep[j]);
        proof {
            assert(as_ints(keep@).subrange((n - want) as int, j + 1) == as_ints(keep@).subrange(
                (n - want) as int,
                j as int,
            ).push(keep@[j as int] as int));
        }
        j = j + 1;
    }
    proof {
        assert(as_ints(keep@).subrange((n - want) as int, n as int) == as_ints(keep@).skip(
            (n - want) as int,
        ));
    }
    out
}

/// A journal entry as the AI wrote it.
#[derive(Debug, Clone)]
pub struct GeneratedJournalEntry {
    pub entry: String,
    pub keyphrases: Vec<String>,
}

/// The first generated entry, from `i` on, that fails validation, with
/// its position.
pub open spec fn first_generated_problem(es: Seq<GeneratedJournalEntry>, i: nat) -> Option<Seq<char>>
    decreases es.len() - i,
{
    if i >= es.len() {
        None
    } else {
        match indexed_problem(i, es[i as int].entry@, views(es[i as int].keyphrases@)) {
            Some(m) => Some(m),
            None => first_generated_problem(es, i + 1),
        }
    }
}

/// What is wrong with the AI's journal reply: more entries than the cap,
/// or an entry that fails validation.
pub open spec fn journal_payload_problem(es: Seq<GeneratedJournalEntry>, cap: u32) -> Option<Seq<char>> {
    if es.len() > cap {
        Some("AI returned too many journal entries"@)
    } else {
        first_generated_problem(es, 0)
    }
}

/// Check the entries of the AI's journal reply.
pub fn check_journal_payload(entries: &[GeneratedJournalEntry], cap: u32) -> (res: Result<(), AppError>)
    ensures
        match journal_payload_problem(entries@, cap) {
            Some(m) => res matches Err(e) && is_invalid_with(e, m),
            None => res is Ok,
        },
{
    if entries.len() > cap as usize {
        return Err(AppError::invalid("AI returned too many journal entries"));
    }
    let mut i: usize = 0;
    while i < entries.len()
        invariant
            i <= entries.len(),
            entries@.len() <= cap,
            first_generated_problem(entries@, 0) == first_generated_problem(entries@, i as nat),
        decreases entries.len() - i,
    {
        match JournalEntry::validate_indexed(i, entries[i].entry.as_str(), entries[i].keyphrases.as_slice()) {
            Ok(()) => {},
            Err(m) => {
                return Err(AppError::invalid(m.as_str()));
            },
        }
        i = i + 1;
    }
    Ok(())
}

/// Start automatic journaling of a chat without writing about its past:
/// the journal cursor is set to the newest stable message (`latest`) and
/// the chat is marked initialised. Nothing else changes.
pub fn initialise_journal(state: &mut ChatAutomationState, latest: Option<StableMessageCursor>)
    ensures
        *final(state) == (ChatAutomationState {
            journal_cursor: latest,
            journal_initialised: true,
            ..*old(state)
        }),
{
    state.journal_cursor = latest;
    state.journal_initialised = true;
}

/// A new run over the messages after `start_cursor` up to `end_cursor`,
/// created at `now`: it is running its first attempt.
pub fn new_journal_run(
    id: String,
    ai_id: String,
    start_cursor: Option<StableMessageCursor>,
    end_cursor: Option<StableMessageCursor>,
    now: i64,
) -> (res: AutoJournalRun)
    ensures
        res == (AutoJournalRun {
            id,
            ai_id,
            start_cursor,
            end_cursor,
            status: AutoJournalRunStatus::Running,
            attempts: 1,
            completed_at: None,
            last_error: None,
            created_at: now,
        }),
{
    AutoJournalRun {
        id,
        ai_id,
        start_cursor,
        end_cursor,
        status: AutoJournalRunStatus::Running,
        attempts: 1,
        completed_at: None,
        last_error: None,
        created_at: now,
    }
}

/// A generated entry stored for run `run_id` at `now`: its text gets the
/// date line `prefix` in front (`prepend_date`), its keyphrases are kept,
/// it covers the messages from `source_start` to `source_end`, and it is
/// pending delivery with no answer yet.
pub fn new_journal_entry(
    id: String,
    run_id: String,
    ai_id: String,
    generated: GeneratedJournalEntry,
    prefix: &str,
    source_start: Option<StableMessageCursor>,
    source_end: Option<StableMessageCursor>,
    now: i64,
) -> (res: AutoJournalEntry)
    ensures
        res.id == id,
        res.run_id == run_id,
        res.ai_id == ai_id,
        res.entry@ == prefix@ + crate::text::trim_start(generated.entry@),
        res.keyphrases == generated.keyphrases,
        res.source_start == source_start,
        res.source_end == source_end,
        res.status == AutoJournalEntryStatus::Pending,
        res.response_status is None,
        res.response_message is None,
        res.created_at == now,
        res.updated_at == now,
{
    let GeneratedJournalEntry { entry, keyphrases } = generated;
    AutoJournalEntry {
        id,
        run_id,
        ai_id,
        entry: prepend_date(entry, prefix),
        keyphrases,
        source_start,
        source_end,
        status: AutoJournalEntryStatus::Pending,
        response_status: None,
        response_message: None,
        created_at: now,
        updated_at: now,
    }
}

/// Which unfinished run a journal cycle resumes, as a position in the
/// unfinished runs listed oldest first: the oldest, before any new entry
/// is written; `None` when every run has completed.
pub fn run_to_resume(pending: &[AutoJournalRun]) -> (res: Option<usize>)
    ensures
        pending@.len() > 0 ==> res == Some(0usize),
        pending@.len() == 0 ==> res is None,
{
    if pending.len() > 0 {
        Some(0)
    } else {
        None
    }
}

/// A run is attempted again: it is running, and one more attempt is
/// counted (the count stops at its maximum).
pub fn begin_run_attempt(run: &mut AutoJournalRun)
    ensures
        final(run).status == AutoJournalRunStatus::Running,
        final(run).attempts == (if old(run).attempts == u32::MAX {
            u32::MAX
        } else {
            (old(run).attempts + 1) as u32
        }),
        final(run).id@ == old(run).id@,
        final(run).end_cursor == old(run).end_cursor,
{
    run.status = AutoJournalRunStatus::Running;
    run.attempts = run.attempts.saturating_add(1);
}

/// Entries not yet delivered are sent: pending ones, and ones whose
/// delivery failed before, which are retried. A delivered entry is never
/// sent again.
pub fn needs_delivery(entry: &AutoJournalEntry) -> (res: bool)
    ensures
        res == (entry.status != AutoJournalEntryStatus::Sent),
{
    entry.status != AutoJournalEntryStatus::Sent
}

/// Every entry of a run has been delivered.
pub open spec fn all_delivered(entries: Seq<AutoJournalEntry>) -> bool {
    forall|i: int| 0 <= i < entries.len() ==> #[trigger] entries[i].status == AutoJournalEntryStatus::Sent
}

/// Has every entry been delivered?
pub fn all_entries_sent(entries: &[AutoJournalEntry]) -> (res: bool)
    ensures
        res == all_delivered(entries@),
{
    let mut i: usize = 0;
    while i < entries.len()
        invariant
            i <= entries.len(),
            forall|j: int| 0 <= j < i ==> #[trigger] entries@[j].status == AutoJournalEntryStatus::Sent,
        decreases entries.len() - i,
    {
        if entries[i].status != AutoJournalEntryStatus::Sent {
            return false;
        }
        i = i + 1;
    }
    true
}

/// Record Kindroid's answer for one entry at time `now`. A success marks
/// it sent with the status and `OK`; a failure marks it refused with the
/// error's status and text, which is also returned so the run stops.
pub fn record_delivery(entry: &mut AutoJournalEntry, r: Result<HttpResponse, KindroidError>, now: i64) -> (res: Option<String>)
    ensures
        final(entry).updated_at == now,
        final(entry).id@ == old(entry).id@,
        final(entry).entry@ == old(entry).entry@,
        match r {
            Ok(h) => {
                &&& final(entry).status == AutoJournalEntryStatus::Sent
                &&& final(entry).response_status == Some(h.status)
                &&& opt_view(final(entry).response_message) == Some("OK"@)
                &&& res is None
            },
            Err(e) => {
                &&& final(entry).status == AutoJournalEntryStatus::Error
                &&& final(entry).response_status == Some(kindroid_error_status(e))
                &&& opt_view(final(entry).response_message) == Some(kindroid_error_text(e))
                &&& res matches Some(m) && m@ == kindroid_error_text(e)
            },
        },
{
    let out = match r {
        Ok(h) => {
            entry.status = AutoJournalEntryStatus::Sent;
            entry.response_status = Some(h.status);
            entry.response_message = Some(to_owned_string("OK"));
            None
        },
        Err(e) => {
            entry.status = AutoJournalEntryStatus::Error;
            entry.response_status = Some(e.status());
            entry.response_message = Some(e.message());
            Some(e.message())
        },
    };
    entry.updated_at = now;
    out
}

/// The view of an optional cursor.
pub open spec fn cursor_view(c: Option<StableMessageCursor>) -> Option<(i64, Seq<char>)> {
    match c {
        Some(x) => Some((x.timestamp, x.kindroid_msg_id@)),
        None => None,
    }
}

/// A copy of an optional cursor.
pub fn clone_cursor(c: &Option<StableMessageCursor>) -> (res: Option<StableMessageCursor>)
    ensures
        cursor_view(res) == cursor_view(*c),
{
    match c {
        Some(x) => Some(StableMessageCursor { timestamp: x.timestamp, kindroid_msg_id: x.kindroid_msg_id.clone() }),
        None => None,
    }
}

/// The error a run is closed with when no delivery failed in this attempt
/// but some entry is still undelivered.
pub open spec fn undelivered_message() -> Seq<char> {
    "journal entries remain undelivered"@
}

/// The error that closes a run, if it does not complete: the failure of
/// this attempt, or, without one, the undelivered entries.
pub open spec fn run_error(entries: Seq<AutoJournalEntry>, last_error: Option<Seq<char>>) -> Option<
    Seq<char>,
> {
    match last_error {
        Some(e) => Some(e),
        None => if all_delivered(entries) {
            None
        } else {
            Some(undelivered_message())
        },
    }
}

/// Close a run at time `now`, given its entries as stored after this
/// attempt and the failure of this attempt, if any. The run completes
/// only when no delivery failed and every entry has been delivered: the
/// cursor then moves to the run's end, the chat's error is cleared and
/// the run time recorded. Otherwise it failed: the error is kept on the
/// run and on the chat, and the journal cursor does not move, so the
/// next completed sync retries the undelivered entries.
pub fn finish_journal_run(
    run: &mut AutoJournalRun,
    state: &mut ChatAutomationState,
    entries: &[AutoJournalEntry],
    last_error: Option<String>,
    now: i64,
)
    ensures
        match run_error(entries@, opt_view(last_error)) {
            Some(err) => {
                &&& final(run).status == AutoJournalRunStatus::Failed
                &&& opt_view(final(run).last_error) == Some(err)
                &&& final(run).completed_at is None
                &&& opt_view(final(state).journal_last_error) == Some(err)
                &&& cursor_view(final(state).journal_cursor) == cursor_view(old(state).journal_cursor)
                &&& final(state).journal_last_run_at == old(state).journal_last_run_at
            },
            None => {
                &&& final(run).status == AutoJournalRunStatus::Completed
                &&& final(run).last_error is None
                &&& final(run).completed_at == Some(now)
                &&& cursor_view(final(state).journal_cursor) == cursor_view(old(run).end_cursor)
                &&& final(state).journal_last_error is None
                &&& final(state).journal_last_run_at == Some(now)
            },
        },
        final(run).status == AutoJournalRunStatus::Completed ==> all_delivered(entries@),
        final(state).ai_id@ == old(state).ai_id@,
        cursor_view(final(state).summary_cursor) == cursor_view(old(state).summary_cursor),
{
    let error = match last_error {
        Some(err) => Some(err),
        None => if all_entries_sent(entries) {
            None
        } else {
            Some(to_owned_string("journal entries remain undelivered"))
        },
    };
    match error {
        Some(err) => {
            run.status = AutoJournalRunStatus::Failed;
            run.last_error = Some(err.clone());
            run.completed_at = None;
            state.journal_last_error = Some(err);
        },
        None => {
            run.status = AutoJournalRunStatus::Completed;
            run.completed_at = Some(now);
            run.last_error = None;
            state.journal_cursor = clone_cursor(&run.end_cursor);
            state.journal_last_error = None;
            state.journal_last_run_at = Some(now);
        },
    }
}

/// What a summary cycle does.
#[derive(Debug, Clone, Copy, PartialEq, Eq, Structural)]
pub enum SummaryGate {
    /// Nothing to do now.
    Skip,
    /// A manual run that cannot start: no summary exists yet and the chat
    /// only summarises incrementally.
    WaitForMessages,
    /// Deliver the summary that was written before but not delivered.
    SendPending,
    /// Write a summary in this mode.
    Run(SummaryMode),
}

/// The message of a manual run that must wait for messages.
pub open spec fn wait_message() -> Seq<char> {
    "No summary exists yet and bootstrap mode is incremental-only — wait for N new messages"@
}

/// How a summary cycle starts: an automatic cycle of a chat without
/// automatic summaries does nothing; an undelivered summary is delivered
/// first; a pending rewrite comes next; without a summary, the first one
/// is bootstrapped from the whole history unless the chat only
/// summarises incrementally; otherwise the summary is extended.
pub open spec fn summary_gate_of(
    manual: bool,
    auto_summary_enabled: bool,
    has_pending_candidate: bool,
    pending_reformat: bool,
    summary: Option<Seq<char>>,
    bootstrap_mode: SummaryBootstrapMode,
) -> SummaryGate {
    if !manual && !auto_summary_enabled {
        SummaryGate::Skip
    } else if has_pending_candidate {
        SummaryGate::SendPending
    } else if pending_reformat {
        SummaryGate::Run(SummaryMode::Reformat)
    } else if summary is None || summary->0.len() == 0 {
        if bootstrap_mode == SummaryBootstrapMode::IncrementalOnly {
            if manual {
                SummaryGate::WaitForMessages
            } else {
                SummaryGate::Skip
            }
        } else {
            SummaryGate::Run(SummaryMode::Bootstrap)
        }
    } else {
        SummaryGate::Run(SummaryMode::Incremental)
    }
}

/// Is there a summary to extend: one that is present and not empty?
pub open spec fn has_summary(summary: Option<Seq<char>>) -> bool {
    summary matches Some(t) && t.len() > 0
}

/// How a summary cycle starts, case by case: an automatic cycle of a chat
/// without automatic summaries does nothing; otherwise an undelivered
/// summary is delivered, then a pending rewrite runs; without a summary a
/// first one is written from the whole history, unless the chat only
/// summarises incrementally (then a manual run waits for messages and an
/// automatic one does nothing); with a summary it is extended.
pub proof fn summary_gate_cases(
    manual: bool,
    auto_summary_enabled: bool,
    has_pending_candidate: bool,
    pending_reformat: bool,
    summary: Option<Seq<char>>,
    bootstrap_mode: SummaryBootstrapMode,
)
    ensures
        ({
            let g = summary_gate_of(
                manual,
                auto_summary_enabled,
                has_pending_candidate,
                pending_reformat,
                summary,
                bootstrap_mode,
            );
            &&& !manual && !auto_summary_enabled ==> g == SummaryGate::Skip
            &&& (manual || auto_summary_enabled) && has_pending_candidate ==> g
                == SummaryGate::SendPending
            &&& (manual || auto_summary_enabled) && !has_pending_candidate && pending_reformat ==> g
                == SummaryGate::Run(SummaryMode::Reformat)
            &&& (manual || auto_summary_enabled) && !has_pending_candidate && !pending_reformat
                && !has_summary(summary) && bootstrap_mode != SummaryBootstrapMode::IncrementalOnly
                ==> g == SummaryGate::Run(SummaryMode::Bootstrap)
            &&& (manual || auto_summary_enabled) && !has_pending_candidate && !pending_reformat
                && !has_summary(summary) && bootstrap_mode == SummaryBootstrapMode::IncrementalOnly
                ==> g == (if manual {
                SummaryGate::WaitForMessages
            } else {
                SummaryGate::Skip
            })
            &&& (manual || auto_summary_enabled) && !has_pending_candidate && !pending_reformat
                && has_summary(summary) ==> g == SummaryGate::Run(SummaryMode::Incremental)
        }),
{
}

/// Decide how a summary cycle starts.
pub fn summary_gate(state: &ChatAutomationState, manual: bool) -> (res: SummaryGate)
    ensures
        res == summary_gate_of(
            manual,
            state.auto_summary_enabled,
            state.pending_summary_candidate is Some,
            state.pending_reformat,
            opt_view(state.summary),
            state.bootstrap_mode,
        ),
        !manual && !state.auto_summary_enabled ==> res == SummaryGate::Skip,
        (manual || state.auto_summary_enabled) && state.pending_summary_candidate is Some ==> res
            == SummaryGate::SendPending,
        (manual || state.auto_summary_enabled) && state.pending_summary_candidate is None
            && state.pending_reformat ==> res == SummaryGate::Run(SummaryMode::Reformat),
        (manual || state.auto_summary_enabled) && state.pending_summary_candidate is None
            && !state.pending_reformat && !has_summary(opt_view(state.summary))
            && state.bootstrap_mode != SummaryBootstrapMode::IncrementalOnly ==> res
            == SummaryGate::Run(SummaryMode::Bootstrap),
        (manual || state.auto_summary_enabled) && state.pending_summary_candidate is None
            && !state.pending_reformat && !has_summary(opt_view(state.summary))
            && state.bootstrap_mode == SummaryBootstrapMode::IncrementalOnly ==> res == (if manual {
            SummaryGate::WaitForMessages
        } else {
            SummaryGate::Skip
        }),
        (manual || state.auto_summary_enabled) && state.pending_summary_candidate is None
            && !state.pending_reformat && has_summary(opt_view(state.summary)) ==> res
            == SummaryGate::Run(SummaryMode::Incremental),
{
    proof {
        summary_gate_cases(
            manual,
            state.auto_summary_enabled,
            state.pending_summary_candidate is Some,
            state.pending_reformat,
            opt_view(state.summary),
            state.bootstrap_mode,
        );
    }
    if !manual && !state.auto_summary_enabled {
        return SummaryGate::Skip;
    }
    if state.pending_summary_candidate.is_some() {
        return SummaryGate::SendPending;
    }
    if state.pending_reformat {
        return SummaryGate::Run(SummaryMode::Reformat);
    }
    let empty = match &state.summary {
        Some(s) => s.as_str().is_empty(),
        None => true,
    };
    if empty {
        if state.bootstrap_mode == SummaryBootstrapMode::IncrementalOnly {
            if manual {
                SummaryGate::WaitForMessages
            } else {
                SummaryGate::Skip
            }
        } else {
            SummaryGate::Run(SummaryMode::Bootstrap)
        }
    } else {
        SummaryGate::Run(SummaryMode::Incremental)
    }
}

/// Are the messages read for a summary enough to write one? A bootstrap or
/// an extension needs messages, an extension at least `interval`; a
/// rewrite needs none.
pub fn summary_messages_ready(mode: SummaryMode, count: usize, interval: u32) -> (res: bool)
    ensures
        res == match mode {
            SummaryMode::Bootstrap => count > 0,
            SummaryMode::Incremental => count > 0 && count >= interval,
            SummaryMode::Reformat => true,
        },
{
    match mode {
        SummaryMode::Bootstrap => count > 0,
        SummaryMode::Incremental => count > 0 && count >= interval as usize,
        SummaryMode::Reformat => true,
    }
}

/// A written summary must fit the field: at most `limit` characters.
pub fn check_summary_length(summary: &str, limit: usize) -> (res: Result<(), AppError>)
    ensures
        summary@.len() <= limit ==> res is Ok,
        summary@.len() > limit ==> (res matches Err(e) && is_invalid_with(
            e,
            "summary exceeds "@ + decimal(limit as nat) + " characters (got "@ + decimal(
                summary@.len(),
            ) + ")"@,
        )),
{
    let n = crate::text::char_len(summary);
    if n <= limit {
        return Ok(());
    }
    let mut msg = chars_of("summary exceeds ");
    let l = u64_to_string(limit as u64);
    push_str(&mut msg, l.as_str());
    push_str(&mut msg, " characters (got ");
    let c = u64_to_string(n as u64);
    push_str(&mut msg, c.as_str());
    push_str(&mut msg, ")");
    let text = string_of(msg.as_slice());
    Err(AppError::invalid(text.as_str()))
}

/// Hold a freshly written summary as the chat's pending candidate, with
/// the cursor it covers (for a rewrite, the current summary's cursor;
/// otherwise the last message read). The pending rewrite is done.
pub fn stage_summary_candidate(
    state: &mut ChatAutomationState,
    text: String,
    created_at: i64,
    mode: SummaryMode,
    last_message: Option<StableMessageCursor>,
)
    ensures
        opt_view(final(state).pending_summary_candidate) == Some(text@),
        final(state).pending_summary_backend == Some(old(state).summary_backend),
        final(state).pending_summary_created_at == Some(created_at),
        cursor_view(final(state).pending_summary_cursor) == (if mode == SummaryMode::Reformat {
            cursor_view(old(state).summary_cursor)
        } else {
            cursor_view(last_message)
        }),
        !final(state).pending_reformat,
        opt_view(final(state).summary) == opt_view(old(state).summary),
        final(state).summary_backend == old(state).summary_backend,
        cursor_view(final(state).summary_cursor) == cursor_view(old(state).summary_cursor),
{
    let cursor = if mode == SummaryMode::Reformat {
        clone_cursor(&state.summary_cursor)
    } else {
        last_message
    };
    state.pending_summary_candidate = Some(text);
    state.pending_summary_backend = Some(state.summary_backend);
    state.pending_summary_created_at = Some(created_at);
    state.pending_summary_cursor = cursor;
    state.pending_reformat = false;
}

/// The persona field a summary is written to.
pub open spec fn summary_field(b: SummaryBackend) -> Seq<char> {
    match b {
        SummaryBackend::AdditionalContext => "ai_additional_context"@,
        SummaryBackend::KeyMemories => "ai_memory"@,
    }
}

/// The persona field a summary is written to.
pub fn summary_update_field(b: SummaryBackend) -> (res: &'static str)
    ensures
        res@ == summary_field(b),
{
    match b {
        SummaryBackend::AdditionalContext => "ai_additional_context",
        SummaryBackend::KeyMemories => "ai_memory",
    }
}

/// A delivery that Kindroid did not accept is an error quoting its body.
pub fn summary_delivery_outcome(response: &HttpResponse) -> (res: Result<(), AppError>)
    ensures
        response.ok ==> res is Ok,
        !response.ok ==> (res matches Err(e) && is_invalid_with(
            e,
            "summary update failed: "@ + response.body@,
        )),
{
    if response.ok {
        Ok(())
    } else {
        let text = crate::text::concat2("summary update failed: ", response.body.as_str());
        Err(AppError::invalid(text.as_str()))
    }
}

/// After a delivered summary, at time `now`: it becomes the chat's
/// summary, with the backend it was written for and the candidate's
/// cursor; nothing is pending any more, the error is cleared and the run
/// time recorded.
pub fn commit_summary(state: &mut ChatAutomationState, text: String, backend: SummaryBackend, now: i64)
    ensures
        opt_view(final(state).summary) == Some(text@),
        final(state).summary_backend_stored == backend,
        cursor_view(final(state).summary_cursor) == cursor_view(old(state).pending_summary_cursor),
        final(state).pending_summary_candidate is None,
        final(state).pending_summary_backend is None,
        final(state).pending_summary_created_at is None,
        final(state).pending_summary_cursor is None,
        !final(state).pending_reformat,
        final(state).summary_last_error is None,
        final(state).summary_last_run_at == Some(now),
        final(state).summary_backend == old(state).summary_backend,
{
    let cursor = clone_cursor(&state.pending_summary_cursor);
    state.summary = Some(text);
    state.summary_backend_stored = backend;
    state.summary_cursor = cursor;
    state.pending_summary_candidate = None;
    state.pending_summary_backend = None;
    state.pending_summary_created_at = None;
    state.pending_summary_cursor = None;
    state.pending_reformat = false;
    state.summary_last_error = None;
    state.summary_last_run_at = Some(now);
}

/// A manual summary run of a chat that never had a summary and only
/// summarises incrementally cannot start.
pub fn manual_summary_must_wait(state: &ChatAutomationState) -> (res: bool)
    ensures
        res == (state.summary is None && state.bootstrap_mode == SummaryBootstrapMode::IncrementalOnly),
{
    state.summary.is_none() && state.bootstrap_mode == SummaryBootstrapMode::IncrementalOnly
}

/// The message of a manual run that must wait for messages.
pub fn wait_for_messages_message() -> (res: String)
    ensures
        res@ == wait_message(),
{
    to_owned_string(
        "No summary exists yet and bootstrap mode is incremental-only — wait for N new messages",
    )
}

/// The message of a delivered summary.
pub fn summary_updated_message() -> (res: String)
    ensures
        res@ == "Summary updated"@,
{
    to_owned_string("Summary updated")
}

/// The refusal of a change while the chat's automation cycle runs.
pub fn automation_busy_error() -> (res: AppError)
    ensures
        is_invalid_with(res, "automation is currently running"@),
{
    AppError::invalid("automation is currently running")
}

/// What a manual summary run reports: a delivered summary's message, or
/// that nothing was ready; an error is passed on.
pub fn run_summary_now_result(r: Result<Option<String>, AppError>) -> (res: Result<crate::commands::automation::RunSummaryNowResult, AppError>)
    ensures
        match r {
            Ok(Some(m)) => res matches Ok(x) && x.ran && x.message@ == m@,
            Ok(None) => res matches Ok(x) && !x.ran && x.message@ == "No summary update is ready yet"@,
            Err(e) => res == Err::<crate::commands::automation::RunSummaryNowResult, AppError>(e),
        },
{
    match r {
        Ok(Some(message)) => Ok(crate::commands::automation::RunSummaryNowResult { ran: true, message }),
        Ok(None) => Ok(
            crate::commands::automation::RunSummaryNowResult {
                ran: false,
                message: to_owned_string("No summary update is ready yet"),
            },
        ),
        Err(e) => Err(e),
    }
}

/// The chats whose automation cycle is running. No chat is in it twice.
pub struct ProgressSet {
    ids: Vec<String>,
}

impl ProgressSet {
    /// Is the chat `ai_id` in the set?
    pub closed spec fn running(&self, ai_id: Seq<char>) -> bool {
        views(self.ids@).contains(ai_id)
    }

    /// No chat is listed twice.
    pub closed spec fn wf(&self) -> bool {
        views(self.ids@).no_duplicates()
    }

    /// An empty set.
    pub fn new() -> (res: Self)
        ensures
            res.wf(),
            forall|x: Seq<char>| !res.running(x),
    {
        let res = ProgressSet { ids: Vec::new() };
        proof {
            assert(views(res.ids@) =~= Seq::<Seq<char>>::empty());
        }
        res
    }

    fn position(&self, ai_id: &str) -> (res: Option<usize>)
        ensures
            match res {
                Some(i) => i < self.ids@.len() && views(self.ids@)[i as int] == ai_id@,
                None => !views(self.ids@).contains(ai_id@),
            },
    {
        let mut i: usize = 0;
        while i < self.ids.len()
            invariant
                i <= self.ids.len(),
                forall|k: int| 0 <= k < i ==> #[trigger] self.ids@[k]@ != ai_id@,
            decreases self.ids.len() - i,
        {
            if text_eq(self.ids[i].as_str(), ai_id) {
                return Some(i);
            }
            i = i + 1;
        }
        proof {
            assert forall|k: int| 0 <= k < views(self.ids@).len() implies #[trigger] views(self.ids@)[k] != ai_id@ by {
                assert(views(self.ids@)[k] == self.ids@[k]@);
            }
        }
        None
    }

    /// Is the chat's cycle running?
    pub fn contains(&self, ai_id: &str) -> (res: bool)
        ensures
            res == self.running(ai_id@),
    {
        let p = self.position(ai_id);
        p.is_some()
    }

    /// Mark the chat's cycle as running. Returns false, changing nothing,
    /// when it already was.
    pub fn begin(&mut self, ai_id: &str) -> (res: bool)
        requires
            old(self).wf(),
        ensures
            final(self).wf(),
            res == !old(self).running(ai_id@),
            forall|x: Seq<char>| #[trigger] final(self).running(x) == (old(self).running(x) || x == ai_id@),
    {
        let p = self.position(ai_id);
        match p {
            Some(i) => false,
            None => {
                let ghost before = views(self.ids@);
                self.ids.push(to_owned_string(ai_id));
                proof {
                    assert(views(self.ids@) =~= before.push(ai_id@));
                    assert forall|x: Seq<char>| #[trigger] views(self.ids@).contains(x) == (before.contains(x) || x == ai_id@) by {
                        if views(self.ids@).contains(x) {
                            let k = choose|k: int| 0 <= k < views(self.ids@).len() && views(self.ids@)[k] == x;
                            if k < before.len() {
                                assert(before[k] == x);
                            }
                        }
                        if before.contains(x) {
                            let k = choose|k: int| 0 <= k < before.len() && before[k] == x;
                            assert(views(self.ids@)[k] == x);
                        }
                        if x == ai_id@ {
                            assert(views(self.ids@)[before.len() as int] == x);
                        }
                    }
                }
                true
            },
        }
    }

    /// Mark the chat's cycle as finished.
    pub fn end(&mut self, ai_id: &str)
        requires
            old(self).wf(),
        ensures
            final(self).wf(),
            forall|x: Seq<char>| #[trigger] final(self).running(x) == (old(self).running(x) && x != ai_id@),
    {
        let p = self.position(ai_id);
        match p {
            Some(i) => {
                let ghost before = views(self.ids@);
                self.ids.remove(i);
                proof {
                    let after = views(self.ids@);
                    assert(after =~= before.remove(i as int));
                    assert forall|x: Seq<char>| #[trigger] after.contains(x) == (before.contains(x) && x != ai_id@) by {
                        if after.contains(x) {
                            let k = choose|k: int| 0 <= k < after.len() && after[k] == x;
                            let k2 = if k < i { k } else { k + 1 };
                            assert(before[k2] == x);
                            assert(k2 != i);
                            if x == ai_id@ {
                                assert(before[k2] == before[i as int]);
                            }
                        }
                        if before.contains(x) && x != ai_id@ {
                            let k = choose|k: int| 0 <= k < before.len() && before[k] == x;
                            if k < i {
                                assert(after[k] == x);
                            } else {
                                assert(k != i);
                                assert(after[k - 1] == x);
                            }
                        }
                    }
                    assert forall|a: int, b: int| 0 <= a < after.len() && 0 <= b < after.len() && a != b implies after[a] != after[b] by {
                        let a2 = if a < i { a } else { a + 1 };
                        let b2 = if b < i { b } else { b + 1 };
                        assert(before[a2] == after[a]);
                        assert(before[b2] == after[b]);
                    }
                }
            },
            None => {},
        }
    }
}

} // verus!
