use kindroid_manager::commands::cycle::{
    automation_busy_error, manual_summary_must_wait, summary_updated_message,
    wait_for_messages_message,
};
use kindroid_manager::commands::cycle::{
    begin_run_attempt, check_journal_payload, initialise_journal, new_journal_entry, new_journal_run, check_summary_length, commit_summary,
    enough_new_messages, finish_journal_run, journal_context_positions, journal_gate,
    needs_delivery, record_delivery, run_summary_now_result, stage_summary_candidate,
    summary_delivery_outcome, summary_gate, summary_messages_ready, summary_update_field,
    GeneratedJournalEntry, JournalGate, ProgressSet, SummaryGate,
};
use kindroid_manager::commands::prompts::SummaryMode;
use kindroid_manager::commands::sync::{
    apply_page, backoff_message, backoff_ms, backoff_state, cancelled_state, compute_local_rewind,
    compute_start_after_timestamp, drain_gate, error_state, format_countdown,
    initial_sync_state, next_cursor, next_page_request, page_outcome, DrainGate, PageOutcome,
    BACKOFF_CAP_MS, MAX_PAGES_PER_CYCLE, PAGE_LIMIT,
};
use kindroid_manager::domain::chat_automation::{
    before_cursor, AutoJournalEntry, AutoJournalEntryStatus, AutoJournalRun,
    AutoJournalRunStatus, ChatAutomationState, StableMessageCursor, SummaryBackend,
    SummaryBootstrapMode,
};
use kindroid_manager::domain::chat_message::{ChatMessage, SyncStatusKind};
use kindroid_manager::error::AppError;
use kindroid_manager::kindroid::{HttpResponse, KindroidError};

fn msg(id: &str, ts: i64) -> ChatMessage {
    ChatMessage {
        id: uuid::Uuid::nil(),
        ai_id: "ai".into(),
        kindroid_msg_id: id.into(),
        sender: "user".into(),
        display_name: None,
        timestamp: ts,
        message: format!("m{ts}"),
        image_urls: vec![],
        image_description: None,
        video_description: None,
        internet_response: None,
        link_url: None,
        link_description: None,
        fetched_at: 0,
        favourite: false,
    }
}

fn cursor(ts: i64, id: &str) -> StableMessageCursor {
    StableMessageCursor {
        timestamp: ts,
        kindroid_msg_id: id.into(),
    }
}

fn run() -> AutoJournalRun {
    AutoJournalRun {
        id: "r1".into(),
        ai_id: "ai".into(),
        start_cursor: None,
        end_cursor: Some(cursor(50, "m")),
        status: AutoJournalRunStatus::Pending,
        attempts: 0,
        completed_at: None,
        last_error: None,
        created_at: 1,
    }
}

fn journal_entry() -> AutoJournalEntry {
    AutoJournalEntry {
        id: "e1".into(),
        run_id: "r1".into(),
        ai_id: "ai".into(),
        entry: "text".into(),
        keyphrases: vec![],
        source_start: None,
        source_end: None,
        status: AutoJournalEntryStatus::Pending,
        response_status: None,
        response_message: None,
        created_at: 1,
        updated_at: 1,
    }
}

#[test]
fn start_after_is_the_last_timestamp_once_known() {
    assert_eq!(compute_start_after_timestamp(0, false), None);
    assert_eq!(compute_start_after_timestamp(0, true), None);
    assert_eq!(compute_start_after_timestamp(1234, true), Some(1234));
    let state = initial_sync_state("ai", 0, 10);
    let req = next_page_request("ai", &state);
    assert_eq!(req.limit, PAGE_LIMIT);
    assert_eq!(req.start_after_timestamp, None);
}

#[test]
fn backoff_uses_retry_after_capped() {
    assert_eq!(backoff_ms(Some(30_000)), 30_000);
    assert_eq!(backoff_ms(Some(1_500)), 1_500);
    assert_eq!(backoff_ms(None), 3_600_000);
    assert_eq!(backoff_ms(Some(999_999_999)), BACKOFF_CAP_MS);
}

#[test]
fn countdown_formats_minutes_and_seconds() {
    assert_eq!(format_countdown(125), "2m 05s");
    assert_eq!(format_countdown(59), "59s");
    assert_eq!(format_countdown(-3), "0s");
    assert_eq!(format_countdown(600), "10m 00s");
    assert_eq!(backoff_message(61), "Rate-limited; retrying in 1m 01s");
}

#[test]
fn drain_stops_on_cancel_and_pauses_at_page_cap() {
    assert_eq!(drain_gate(true, 0), DrainGate::Cancelled);
    assert_eq!(drain_gate(false, MAX_PAGES_PER_CYCLE), DrainGate::Pause);
    assert_eq!(drain_gate(false, 3), DrainGate::Fetch);
    assert_eq!(page_outcome(0, true), PageOutcome::CaughtUp);
    assert_eq!(page_outcome(5, false), PageOutcome::Done);
    assert_eq!(page_outcome(5, true), PageOutcome::More);
}

#[test]
fn cursor_moves_to_server_cursor_or_newest_message() {
    assert_eq!(next_cursor(Some(99), &[1, 2]), Some(99));
    assert_eq!(next_cursor(Some(0), &[5, 9, 7]), Some(9));
    assert_eq!(next_cursor(None, &[]), None);
    assert_eq!(next_cursor(Some(-1), &[]), None);
}

#[test]
fn applying_a_page_records_progress() {
    let mut s = initial_sync_state("ai", 0, 1);
    assert!(!s.full_sync_done);
    apply_page(&mut s, Some(500), true, 100, 2);
    assert_eq!(s.last_timestamp, 500);
    assert!(!s.full_sync_done);
    apply_page(&mut s, None, false, 150, 3);
    assert_eq!(s.last_timestamp, 500);
    assert!(s.full_sync_done);
    assert_eq!(s.total, 150);
    assert_eq!(s.status_kind, SyncStatusKind::Running);
}

#[test]
fn cancel_and_error_keep_the_cursor() {
    let mut s = initial_sync_state("ai", 3, 1);
    apply_page(&mut s, Some(77), false, 3, 2);
    let c = cancelled_state(&s, 5);
    assert_eq!(c.status_kind, SyncStatusKind::Cancelled);
    assert_eq!(c.last_timestamp, 77);
    assert!(!c.is_syncing);
    let e = error_state("ai", &Some(s), "boom", 3, 6);
    assert_eq!(e.status_kind, SyncStatusKind::Error);
    assert_eq!(e.status_message.as_deref(), Some("boom"));
    assert_eq!(e.last_timestamp, 77);
    let fresh = error_state("ai", &None, "boom", 0, 6);
    assert_eq!(fresh.last_timestamp, 0);
    assert!(!fresh.full_sync_done);
}

#[test]
fn local_rewind_starts_before_the_oldest_recent_message() {
    assert_eq!(compute_local_rewind(false, 0, None), None);
    assert_eq!(compute_local_rewind(false, 42, None), Some(42));
    assert_eq!(compute_local_rewind(true, 42, Some(10)), Some(9));
    assert_eq!(compute_local_rewind(true, 42, Some(1)), Some(0));
    assert_eq!(compute_local_rewind(true, 42, None), None);
}

#[test]
fn sync_status_round_trips_through_text() {
    for k in [
        SyncStatusKind::Idle,
        SyncStatusKind::Running,
        SyncStatusKind::Backoff,
        SyncStatusKind::Cancelled,
        SyncStatusKind::Error,
    ] {
        assert_eq!(SyncStatusKind::parse(k.as_str()), k);
    }
    assert_eq!(SyncStatusKind::parse("???"), SyncStatusKind::Idle);
}

#[test]
fn journal_gate_and_interval() {
    assert_eq!(journal_gate(false, true), JournalGate::Disabled);
    assert_eq!(journal_gate(true, false), JournalGate::Initialise);
    assert_eq!(journal_gate(true, true), JournalGate::Proceed);
    assert!(enough_new_messages(10, 10));
    assert!(!enough_new_messages(9, 10));
}

#[test]
fn context_is_the_last_interval_messages_before_the_first_new_one() {
    let all = vec![msg("a", 1), msg("b", 2), msg("c", 3), msg("d", 4), msg("e", 5)];
    let first = Some(cursor(4, "d"));
    assert_eq!(journal_context_positions(&all, &first, 2), vec![1, 2]);
    assert_eq!(journal_context_positions(&all, &None, 10), vec![0, 1, 2, 3, 4]);
    assert!(before_cursor(&cursor(4, "a"), &cursor(4, "b")));
    assert!(!before_cursor(&cursor(5, "a"), &cursor(4, "b")));
}

#[test]
fn journal_payload_is_capped_and_validated() {
    let ok = GeneratedJournalEntry {
        entry: "fine".into(),
        keyphrases: vec!["k".into()],
    };
    let bad = GeneratedJournalEntry {
        entry: " ".into(),
        keyphrases: vec![],
    };
    assert!(check_journal_payload(&[ok.clone()], 1).is_ok());
    match check_journal_payload(&[ok.clone(), ok.clone()], 1) {
        Err(AppError::Invalid { message }) => {
            assert_eq!(message, "AI returned too many journal entries")
        }
        other => panic!("{other:?}"),
    }
    match check_journal_payload(&[ok, bad], 2) {
        Err(AppError::Invalid { message }) => {
            assert_eq!(message, "entry #1: entry must not be empty")
        }
        other => panic!("{other:?}"),
    }
}

#[test]
fn a_delivery_outcome_is_recorded() {
    let mut e = journal_entry();
    assert!(needs_delivery(&e));
    let r = record_delivery(
        &mut e,
        Ok(HttpResponse {
            status: 200,
            ok: true,
            body: String::new(),
        }),
        9,
    );
    assert_eq!(r, None);
    assert_eq!(e.status, AutoJournalEntryStatus::Sent);
    assert_eq!(e.response_message.as_deref(), Some("OK"));
    assert!(!needs_delivery(&e));
    let mut f = journal_entry();
    let r = record_delivery(
        &mut f,
        Err(KindroidError::NotFound {
            status: 404,
            body: String::new(),
        }),
        9,
    );
    assert_eq!(r.as_deref(), Some("not found"));
    assert_eq!(f.status, AutoJournalEntryStatus::Error);
    assert_eq!(f.response_status, Some(404));
    assert!(needs_delivery(&f));
}

#[test]
fn finishing_a_run_moves_the_cursor_only_on_success() {
    let mut r = run();
    begin_run_attempt(&mut r);
    assert_eq!(r.status, AutoJournalRunStatus::Running);
    assert_eq!(r.attempts, 1);
    let mut st = ChatAutomationState::new("ai".into());
    let mut failed = journal_entry();
    failed.status = AutoJournalEntryStatus::Error;
    finish_journal_run(&mut r, &mut st, &[failed], Some("boom".into()), 7);
    assert_eq!(r.status, AutoJournalRunStatus::Failed);
    assert!(st.journal_cursor.is_none());
    assert_eq!(st.journal_last_error.as_deref(), Some("boom"));
    let mut r2 = run();
    let mut sent = journal_entry();
    sent.status = AutoJournalEntryStatus::Sent;
    finish_journal_run(&mut r2, &mut st, &[sent], None, 8);
    assert_eq!(r2.status, AutoJournalRunStatus::Completed);
    assert_eq!(st.journal_cursor, Some(cursor(50, "m")));
    assert_eq!(st.journal_last_error, None);
    assert_eq!(st.journal_last_run_at, Some(8));
}

#[test]
fn a_failed_entry_is_retried_and_the_run_completes_once_all_are_sent() {
    // A run failed last time: its first entry was sent, its second refused.
    let mut r = run();
    let mut st = ChatAutomationState::new("ai".into());
    let mut e1 = journal_entry();
    e1.status = AutoJournalEntryStatus::Sent;
    let mut e2 = journal_entry();
    let failure = record_delivery(
        &mut e2,
        Err(KindroidError::NotFound {
            status: 404,
            body: String::new(),
        }),
        3,
    );
    finish_journal_run(&mut r, &mut st, &[e1.clone(), e2.clone()], failure, 4);
    assert_eq!(r.status, AutoJournalRunStatus::Failed);
    assert!(st.journal_cursor.is_none());
    // The next sync sends only the refused entry, never the delivered one.
    begin_run_attempt(&mut r);
    assert_eq!(r.attempts, 1);
    assert!(!needs_delivery(&e1));
    assert!(needs_delivery(&e2));
    let again = record_delivery(
        &mut e2,
        Ok(HttpResponse {
            status: 200,
            ok: true,
            body: String::new(),
        }),
        5,
    );
    assert_eq!(again, None);
    finish_journal_run(&mut r, &mut st, &[e1, e2], again, 6);
    assert_eq!(r.status, AutoJournalRunStatus::Completed);
    assert_eq!(st.journal_cursor, Some(cursor(50, "m")));
}

#[test]
fn a_run_with_an_undelivered_entry_does_not_complete() {
    let mut r = run();
    let mut st = ChatAutomationState::new("ai".into());
    let pending = journal_entry();
    finish_journal_run(&mut r, &mut st, &[pending], None, 8);
    assert_eq!(r.status, AutoJournalRunStatus::Failed);
    assert_eq!(r.last_error.as_deref(), Some("journal entries remain undelivered"));
    assert!(st.journal_cursor.is_none());
}

#[test]
fn summary_gate_order() {
    let mut st = ChatAutomationState::new("ai".into());
    assert_eq!(summary_gate(&st, false), SummaryGate::Skip);
    assert_eq!(summary_gate(&st, true), SummaryGate::Run(SummaryMode::Bootstrap));
    st.bootstrap_mode = SummaryBootstrapMode::IncrementalOnly;
    assert_eq!(summary_gate(&st, true), SummaryGate::WaitForMessages);
    st.auto_summary_enabled = true;
    assert_eq!(summary_gate(&st, false), SummaryGate::Skip);
    st.summary = Some("sum".into());
    assert_eq!(summary_gate(&st, false), SummaryGate::Run(SummaryMode::Incremental));
    st.pending_reformat = true;
    assert_eq!(summary_gate(&st, false), SummaryGate::Run(SummaryMode::Reformat));
    st.pending_summary_candidate = Some("c".into());
    assert_eq!(summary_gate(&st, false), SummaryGate::SendPending);
}

#[test]
fn summary_readiness_and_length() {
    assert!(summary_messages_ready(SummaryMode::Reformat, 0, 10));
    assert!(!summary_messages_ready(SummaryMode::Bootstrap, 0, 10));
    assert!(summary_messages_ready(SummaryMode::Bootstrap, 1, 10));
    assert!(!summary_messages_ready(SummaryMode::Incremental, 9, 10));
    assert!(check_summary_length("abc", 3).is_ok());
    match check_summary_length("abcd", 3) {
        Err(AppError::Invalid { message }) => {
            assert_eq!(message, "summary exceeds 3 characters (got 4)")
        }
        other => panic!("{other:?}"),
    }
}

#[test]
fn staged_summary_is_committed_after_delivery() {
    let mut st = ChatAutomationState::new("ai".into());
    st.summary_backend = SummaryBackend::KeyMemories;
    st.pending_reformat = true;
    stage_summary_candidate(
        &mut st,
        "new".into(),
        5,
        SummaryMode::Incremental,
        Some(cursor(9, "z")),
    );
    assert_eq!(st.pending_summary_candidate.as_deref(), Some("new"));
    assert!(!st.pending_reformat);
    assert_eq!(summary_update_field(st.summary_backend), "ai_memory");
    let ok = HttpResponse {
        status: 200,
        ok: true,
        body: String::new(),
    };
    assert!(summary_delivery_outcome(&ok).is_ok());
    commit_summary(&mut st, "new".into(), SummaryBackend::KeyMemories, 6);
    assert_eq!(st.summary.as_deref(), Some("new"));
    assert_eq!(st.summary_cursor, Some(cursor(9, "z")));
    assert!(st.pending_summary_candidate.is_none());
    assert!(st.pending_summary_cursor.is_none());
    assert_eq!(st.summary_last_run_at, Some(6));
}

#[test]
fn refused_summary_delivery_quotes_the_body() {
    let bad = HttpResponse {
        status: 400,
        ok: false,
        body: "nope".into(),
    };
    match summary_delivery_outcome(&bad) {
        Err(AppError::Invalid { message }) => assert_eq!(message, "summary update failed: nope"),
        other => panic!("{other:?}"),
    }
    let none = run_summary_now_result(Ok(None)).unwrap();
    assert!(!none.ran);
    assert_eq!(none.message, "No summary update is ready yet");
}

#[test]
fn progress_set_admits_a_chat_once() {
    let mut set = ProgressSet::new();
    assert!(set.begin("a"));
    assert!(!set.begin("a"));
    assert!(set.begin("b"));
    assert!(set.contains("a"));
    set.end("a");
    assert!(!set.contains("a"));
    assert!(set.contains("b"));
    assert!(set.begin("a"));
}

#[test]
fn manual_summary_waits_only_without_summary_in_incremental_mode() {
    let mut st = ChatAutomationState::new("ai".into());
    assert!(!manual_summary_must_wait(&st));
    st.bootstrap_mode = SummaryBootstrapMode::IncrementalOnly;
    assert!(manual_summary_must_wait(&st));
    st.summary = Some(String::new());
    assert!(!manual_summary_must_wait(&st));
    assert_eq!(
        wait_for_messages_message(),
        "No summary exists yet and bootstrap mode is incremental-only — wait for N new messages"
    );
    assert_eq!(summary_updated_message(), "Summary updated");
    assert_eq!(
        automation_busy_error(),
        AppError::Invalid {
            message: "automation is currently running".into()
        }
    );
}

#[test]
fn journal_initialisation_sets_only_the_cursor_and_the_flag() {
    let mut st = ChatAutomationState::new("ai".into());
    st.auto_journal_enabled = true;
    initialise_journal(&mut st, Some(cursor(40, "m40")));
    assert!(st.journal_initialised);
    assert!(st.auto_journal_enabled);
    assert_eq!(st.journal_cursor, Some(cursor(40, "m40")));
    assert_eq!(st.summary_cursor, None);
}

#[test]
fn new_runs_and_entries_start_pending_delivery() {
    let r = new_journal_run("r9".into(), "ai".into(), None, Some(cursor(50, "m")), 77);
    assert_eq!(r.status, AutoJournalRunStatus::Running);
    assert_eq!(r.attempts, 1);
    assert_eq!(r.created_at, 77);
    assert_eq!(r.end_cursor, Some(cursor(50, "m")));
    let e = new_journal_entry(
        "e1".into(),
        "r9".into(),
        "ai".into(),
        GeneratedJournalEntry {
            entry: "  Kira met the dragon.".into(),
            keyphrases: vec!["dragon".into()],
        },
        "[2024-01-02] ",
        Some(cursor(10, "a")),
        Some(cursor(50, "m")),
        77,
    );
    assert_eq!(e.entry, "[2024-01-02] Kira met the dragon.");
    assert_eq!(e.keyphrases, vec!["dragon".to_string()]);
    assert_eq!(e.status, AutoJournalEntryStatus::Pending);
    assert_eq!(e.run_id, "r9");
    assert_eq!(e.updated_at, 77);
    assert!(needs_delivery(&e));
}

#[test]
fn backing_off_records_the_end_and_a_countdown() {
    let st = initial_sync_state("ai", 3, 10);
    let b = backoff_state(&st, 61_500, 1_000);
    assert_eq!(b.status_kind, SyncStatusKind::Backoff);
    assert_eq!(b.backoff_until, Some(62_500));
    assert_eq!(b.status_message.as_deref(), Some("Rate-limited; retrying in 1m 01s"));
    assert_eq!(b.total, st.total);
    assert_eq!(b.last_synced_at, 1_000);
    let far = backoff_state(&st, u64::MAX, i64::MAX - 5);
    assert_eq!(far.backoff_until, Some(i64::MAX));
}
