//! Chat automation: where a rolling summary is written on the Kindroid
//! side, how the first summary is bootstrapped, the cursor over stable
//! chat messages, and the states of automatic journal runs.
use vstd::prelude::*;

use crate::text::{chars_of, text_eq};

verus! {

/// The persona field that holds the rolling summary.
#[derive(Debug, Clone, Copy, PartialEq, Eq, Structural)]
pub enum SummaryBackend {
    AdditionalContext,
    KeyMemories,
}

/// The stored text of a summary backend.
pub open spec fn backend_text(b: SummaryBackend) -> Seq<char> {
    match b {
        SummaryBackend::AdditionalContext => "additional_context"@,
        SummaryBackend::KeyMemories => "key_memories"@,
    }
}

/// The character limit of the field a backend writes to.
pub open spec fn backend_limit(b: SummaryBackend) -> nat {
    match b {
        SummaryBackend::AdditionalContext => 2500,
        SummaryBackend::KeyMemories => 1000,
    }
}

/// The backend a stored text names: `key_memories`, or the default for
/// anything else.
pub open spec fn parse_backend(s: Seq<char>) -> SummaryBackend {
    if s == "key_memories"@ {
        SummaryBackend::KeyMemories
    } else {
        SummaryBackend::AdditionalContext
    }
}

impl SummaryBackend {
    /// The stored text of the backend.
    pub fn as_str(&self) -> (res: &'static str)
        ensures
            res@ == backend_text(*self),
    {
        match self {
            SummaryBackend::AdditionalContext => "additional_context",
            SummaryBackend::KeyMemories => "key_memories",
        }
    }

    /// The character limit of the backend's field.
    pub fn limit(&self) -> (res: usize)
        ensures
            res == backend_limit(*self),
    {
        match self {
            SummaryBackend::AdditionalContext => 2500,
            SummaryBackend::KeyMemories => 1000,
        }
    }

    /// Read a stored backend; unknown text is the default.
    pub fn parse(value: &str) -> (res: Self)
        ensures
            res == parse_backend(value@),
    {
        if text_eq(value, "key_memories") {
            SummaryBackend::KeyMemories
        } else {
            SummaryBackend::AdditionalContext
        }
    }
}

impl Default for SummaryBackend {
    fn default() -> (res: Self)
        ensures
            res == SummaryBackend::AdditionalContext,
    {
        SummaryBackend::AdditionalContext
    }
}

/// Reading back the stored text of a backend gives the backend.
pub proof fn summary_backend_round_trip(b: SummaryBackend)
    ensures
        parse_backend(backend_text(b)) == b,
{
    reveal_strlit("additional_context");
    reveal_strlit("key_memories");
    assert("additional_context"@.len() != "key_memories"@.len());
}

/// How the first summary is produced when none exists yet.
#[derive(Debug, Clone, Copy, PartialEq, Eq, Structural)]
pub enum SummaryBootstrapMode {
    FullHistory,
    IncrementalOnly,
}

/// The stored text of a bootstrap mode.
pub open spec fn bootstrap_text(m: SummaryBootstrapMode) -> Seq<char> {
    match m {
        SummaryBootstrapMode::FullHistory => "full_history"@,
        SummaryBootstrapMode::IncrementalOnly => "incremental_only"@,
    }
}

/// The mode a stored text names: `incremental_only`, or full history for
/// anything else.
pub open spec fn parse_bootstrap(s: Seq<char>) -> SummaryBootstrapMode {
    if s == "incremental_only"@ {
        SummaryBootstrapMode::IncrementalOnly
    } else {
        SummaryBootstrapMode::FullHistory
    }
}

impl SummaryBootstrapMode {
    /// The stored text of the mode.
    pub fn as_str(&self) -> (res: &'static str)
        ensures
            res@ == bootstrap_text(*self),
    {
        match self {
            SummaryBootstrapMode::FullHistory => "full_history",
            SummaryBootstrapMode::IncrementalOnly => "incremental_only",
        }
    }

    /// Read a stored mode; unknown text is full history.
    pub fn parse(value: &str) -> (res: Self)
        ensures
            res == parse_bootstrap(value@),
    {
        if text_eq(value, "incremental_only") {
            SummaryBootstrapMode::IncrementalOnly
        } else {
            SummaryBootstrapMode::FullHistory
        }
    }
}

impl Default for SummaryBootstrapMode {
    fn default() -> (res: Self)
        ensures
            res == SummaryBootstrapMode::FullHistory,
    {
        SummaryBootstrapMode::FullHistory
    }
}

/// Reading back the stored text of a bootstrap mode gives the mode.
pub proof fn bootstrap_mode_round_trip(m: SummaryBootstrapMode)
    ensures
        parse_bootstrap(bootstrap_text(m)) == m,
{
    reveal_strlit("full_history");
    reveal_strlit("incremental_only");
    assert("full_history"@.len() != "incremental_only"@.len());
}

/// A position in the stable chat history: messages are ordered by
/// timestamp, then by Kindroid message id.
#[derive(Debug, Clone, PartialEq, Eq)]
pub struct StableMessageCursor {
    pub timestamp: i64,
    pub kindroid_msg_id: String,
}

/// Lexicographic order of character sequences, which is the byte order
/// of their UTF-8 encodings and so the order of `String`.
pub open spec fn text_less(a: Seq<char>, b: Seq<char>) -> bool
    decreases a.len(),
{
    if a.len() == 0 {
        b.len() > 0
    } else if b.len() == 0 {
        false
    } else if a[0] != b[0] {
        a[0] < b[0]
    } else {
        text_less(a.drop_first(), b.drop_first())
    }
}

/// Does position `a` come strictly before position `b`?
pub open spec fn cursor_less(a: StableMessageCursor, b: StableMessageCursor) -> bool {
    a.timestamp < b.timestamp || (a.timestamp == b.timestamp && text_less(
        a.kindroid_msg_id@,
        b.kindroid_msg_id@,
    ))
}

fn chars_less(a: &Vec<char>, b: &Vec<char>) -> (res: bool)
    ensures
        res == text_less(a@, b@),
{
    let mut i: usize = 0;
    proof {
        assert(a@.skip(0) == a@);
        assert(b@.skip(0) == b@);
    }
    while i < a.len() && i < b.len() && a[i] == b[i]
        invariant
            i <= a.len(),
            i <= b.len(),
            text_less(a@, b@) == text_less(a@.skip(i as int), b@.skip(i as int)),
        decreases a.len() - i,
    {
        proof {
            assert(a@.skip(i as int).drop_first() == a@.skip(i + 1));
            assert(b@.skip(i as int).drop_first() == b@.skip(i + 1));
        }
        i = i + 1;
    }
    if i == a.len() {
        i < b.len()
    } else if i == b.len() {
        false
    } else {
        a[i] < b[i]
    }
}

/// Does `a` come strictly before `b` in the stable history?
pub fn before_cursor(a: &StableMessageCursor, b: &StableMessageCursor) -> (res: bool)
    ensures
        res == cursor_less(*a, *b),
{
    if a.timestamp < b.timestamp {
        true
    } else if a.timestamp > b.timestamp {
        false
    } else {
        let x = chars_of(a.kindroid_msg_id.as_str());
        let y = chars_of(b.kindroid_msg_id.as_str());
        chars_less(&x, &y)
    }
}

/// The state of an automatic journal run.
#[derive(Debug, Clone, Copy, PartialEq, Eq, Structural)]
pub enum AutoJournalRunStatus {
    Pending,
    Running,
    Completed,
    Failed,
}

/// The stored text of a run status.
pub open spec fn run_status_text(s: AutoJournalRunStatus) -> Seq<char> {
    match s {
        AutoJournalRunStatus::Pending => "pending"@,
        AutoJournalRunStatus::Running => "running"@,
        AutoJournalRunStatus::Completed => "completed"@,
        AutoJournalRunStatus::Failed => "failed"@,
    }
}

/// The run status a stored text names; unknown text is pending.
pub open spec fn parse_run_status_spec(s: Seq<char>) -> AutoJournalRunStatus {
    if s == "running"@ {
        AutoJournalRunStatus::Running
    } else if s == "completed"@ {
        AutoJournalRunStatus::Completed
    } else if s == "failed"@ {
        AutoJournalRunStatus::Failed
    } else {
        AutoJournalRunStatus::Pending
    }
}

/// The stored text of a run status.
pub fn run_status_str(s: AutoJournalRunStatus) -> (res: &'static str)
    ensures
        res@ == run_status_text(s),
{
    match s {
        AutoJournalRunStatus::Pending => "pending",
        AutoJournalRunStatus::Running => "running",
        AutoJournalRunStatus::Completed => "completed",
        AutoJournalRunStatus::Failed => "failed",
    }
}

/// Read a stored run status.
pub fn parse_run_status(s: &str) -> (res: AutoJournalRunStatus)
    ensures
        res == parse_run_status_spec(s@),
{
    if text_eq(s, "running") {
        AutoJournalRunStatus::Running
    } else if text_eq(s, "completed") {
        AutoJournalRunStatus::Completed
    } else if text_eq(s, "failed") {
        AutoJournalRunStatus::Failed
    } else {
        AutoJournalRunStatus::Pending
    }
}

/// Reading back the stored text of a run status gives the status.
pub proof fn run_status_round_trip(s: AutoJournalRunStatus)
    ensures
        parse_run_status_spec(run_status_text(s)) == s,
{
    reveal_strlit("pending");
    reveal_strlit("running");
    reveal_strlit("completed");
    reveal_strlit("failed");
    assert("pending"@[0] != "running"@[0]);
    assert("pending"@[0] != "completed"@[0]);
    assert("pending"@[0] != "failed"@[0]);
    assert("running"@[0] != "completed"@[0]);
    assert("running"@[0] != "failed"@[0]);
    assert("completed"@[0] != "failed"@[0]);
}

/// The delivery state of one automatic journal entry.
#[derive(Debug, Clone, Copy, PartialEq, Eq, Structural)]
pub enum AutoJournalEntryStatus {
    Pending,
    Sent,
    Error,
}

/// The stored text of an entry status.
pub open spec fn entry_status_text(s: AutoJournalEntryStatus) -> Seq<char> {
    match s {
        AutoJournalEntryStatus::Pending => "pending"@,
        AutoJournalEntryStatus::Sent => "sent"@,
        AutoJournalEntryStatus::Error => "error"@,
    }
}

/// The entry status a stored text names; unknown text is pending.
pub open spec fn parse_entry_status_spec(s: Seq<char>) -> AutoJournalEntryStatus {
    if s == "sent"@ {
        AutoJournalEntryStatus::Sent
    } else if s == "error"@ {
        AutoJournalEntryStatus::Error
    } else {
        AutoJournalEntryStatus::Pending
    }
}

/// The stored text of an entry status.
pub fn entry_status_str(s: AutoJournalEntryStatus) -> (res: &'static str)
    ensures
        res@ == entry_status_text(s),
{
    match s {
        AutoJournalEntryStatus::Pending => "pending",
        AutoJournalEntryStatus::Sent => "sent",
        AutoJournalEntryStatus::Error => "error",
    }
}

/// Read a stored entry status.
pub fn parse_entry_status(s: &str) -> (res: AutoJournalEntryStatus)
    ensures
        res == parse_entry_status_spec(s@),
{
    if text_eq(s, "sent") {
        AutoJournalEntryStatus::Sent
    } else if text_eq(s, "error") {
        AutoJournalEntryStatus::Error
    } else {
        AutoJournalEntryStatus::Pending
    }
}

/// Reading back the stored text of an entry status gives the status.
pub proof fn entry_status_round_trip(s: AutoJournalEntryStatus)
    ensures
        parse_entry_status_spec(entry_status_text(s)) == s,
{
    reveal_strlit("pending");
    reveal_strlit("sent");
    reveal_strlit("error");
    assert("pending"@[0] != "sent"@[0]);
    assert("pending"@[0] != "error"@[0]);
    assert("sent"@[0] != "error"@[0]);
}

/// The automation settings and progress of one chat. Times are unix
/// milliseconds.
#[derive(Debug, Clone)]
pub struct ChatAutomationState {
    pub ai_id: String,
    pub auto_journal_enabled: bool,
    pub auto_summary_enabled: bool,
    pub interval: u32,
    pub journal_cap: u32,
    pub summary_backend: SummaryBackend,
    pub bootstrap_mode: SummaryBootstrapMode,
    pub journal_instructions_override: Option<String>,
    pub summary_instructions_override: Option<String>,
    pub journal_cursor: Option<StableMessageCursor>,
    pub summary_cursor: Option<StableMessageCursor>,
    pub journal_initialised: bool,
    pub summary: Option<String>,
    pub summary_backend_stored: SummaryBackend,
    pub pending_summary_candidate: Option<String>,
    pub pending_summary_backend: Option<SummaryBackend>,
    pub pending_summary_created_at: Option<i64>,
    pub pending_summary_cursor: Option<StableMessageCursor>,
    pub pending_reformat: bool,
    pub journal_last_error: Option<String>,
    pub summary_last_error: Option<String>,
    pub journal_last_run_at: Option<i64>,
    pub summary_last_run_at: Option<i64>,
}

impl ChatAutomationState {
    /// The state of a chat that was never configured: automation off,
    /// an interval of 10 messages, one journal entry per cycle, default
    /// backend and bootstrap mode, nothing summarised or pending.
    pub fn new(ai_id: String) -> (res: Self)
        ensures
            res.ai_id@ == ai_id@,
            !res.auto_journal_enabled,
            !res.auto_summary_enabled,
            res.interval == 10,
            res.journal_cap == 1,
            res.summary_backend == SummaryBackend::AdditionalContext,
            res.bootstrap_mode == SummaryBootstrapMode::FullHistory,
            res.journal_instructions_override is None,
            res.summary_instructions_override is None,
            res.journal_cursor is None,
            res.summary_cursor is None,
            !res.journal_initialised,
            res.summary is None,
            res.summary_backend_stored == SummaryBackend::AdditionalContext,
            res.pending_summary_candidate is None,
            res.pending_summary_backend is None,
            res.pending_summary_created_at is None,
            res.pending_summary_cursor is None,
            !res.pending_reformat,
            res.journal_last_error is None,
            res.summary_last_error is None,
            res.journal_last_run_at is None,
            res.summary_last_run_at is None,
    {
        ChatAutomationState {
            ai_id,
            auto_journal_enabled: false,
            auto_summary_enabled: false,
            interval: 10,
            journal_cap: 1,
            summary_backend: SummaryBackend::AdditionalContext,
            bootstrap_mode: SummaryBootstrapMode::FullHistory,
            journal_instructions_override: None,
            summary_instructions_override: None,
            journal_cursor: None,
            summary_cursor: None,
            journal_initialised: false,
            summary: None,
            summary_backend_stored: SummaryBackend::AdditionalContext,
            pending_summary_candidate: None,
            pending_summary_backend: None,
            pending_summary_created_at: None,
            pending_summary_cursor: None,
            pending_reformat: false,
            journal_last_error: None,
            summary_last_error: None,
            journal_last_run_at: None,
            summary_last_run_at: None,
        }
    }
}

/// One automatic journal run over a range of stable messages. Times are
/// unix milliseconds.
#[derive(Debug, Clone)]
pub struct AutoJournalRun {
    pub id: String,
    pub ai_id: String,
    pub start_cursor: Option<StableMessageCursor>,
    pub end_cursor: Option<StableMessageCursor>,
    pub status: AutoJournalRunStatus,
    pub attempts: u32,
    pub completed_at: Option<i64>,
    pub last_error: Option<String>,
    pub created_at: i64,
}

/// One journal entry generated by an automatic run. Times are unix
/// milliseconds.
#[derive(Debug, Clone)]
pub struct AutoJournalEntry {
    pub id: String,
    pub run_id: String,
    pub ai_id: String,
    pub entry: String,
    pub keyphrases: Vec<String>,
    pub source_start: Option<StableMessageCursor>,
    pub source_end: Option<StableMessageCursor>,
    pub status: AutoJournalEntryStatus,
    pub response_status: Option<u16>,
    pub response_message: Option<String>,
    pub created_at: i64,
    pub updated_at: i64,
}

/// A summary written by the AI and not yet delivered. `created_at` is unix
/// milliseconds.
#[derive(Debug, Clone)]
pub struct SummaryCandidate {
    pub text: String,
    pub backend: SummaryBackend,
    pub created_at: i64,
}

} // verus!
