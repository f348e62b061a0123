use kindroid_manager::commands::automation::{apply_automation_settings, SetChatAutomationSettingsInput};
use kindroid_manager::commands::cycle::run_to_resume;
use kindroid_manager::commands::push::{failed_kin_result, next_push_call, PushCall};
use kindroid_manager::commands::settings::token_status_of;
use kindroid_manager::commands::sync::{fetch_failure, token_cleared_message, FetchFailure};
use kindroid_manager::domain::chat_automation::{
    AutoJournalRun, AutoJournalRunStatus, ChatAutomationState, SummaryBootstrapMode,
};
use kindroid_manager::domain::target::TargetKind;
use kindroid_manager::kindroid::KindroidError;
use kindroid_manager::security::{found, SecretStoreError};

fn calls(journals: usize, chat_break: bool, update_ok: bool) -> Vec<PushCall> {
    let mut out = vec![PushCall::UpdateInfo];
    let mut call = PushCall::UpdateInfo;
    loop {
        call = next_push_call(call, journals, chat_break, update_ok);
        if call == PushCall::Finish {
            return out;
        }
        out.push(call);
    }
}

#[test]
fn push_calls_go_update_then_journals_in_order_then_chat_break() {
    assert_eq!(
        calls(2, true, true),
        vec![PushCall::UpdateInfo, PushCall::Journal(0), PushCall::Journal(1), PushCall::ChatBreak]
    );
    assert_eq!(calls(0, true, true), vec![PushCall::UpdateInfo, PushCall::ChatBreak]);
    assert_eq!(calls(3, false, false), vec![PushCall::UpdateInfo]);
    assert_eq!(calls(1, false, true), vec![PushCall::UpdateInfo, PushCall::Journal(0)]);
}

#[test]
fn a_keychain_read_counts_as_found_only_when_it_succeeded() {
    assert!(found(&Ok("tok".to_string())));
    assert!(!found(&Err(SecretStoreError::NotFound)));
    assert!(!found(&Err(SecretStoreError::Unavailable)));
    assert!(token_status_of(true).configured);
    assert!(!token_status_of(false).configured);
}

#[test]
fn sync_fetch_failures_back_off_or_stop() {
    let rl = KindroidError::RateLimited { status: 429, body: String::new(), retry_after: Some(2_500) };
    assert_eq!(fetch_failure(&rl), FetchFailure::Backoff(2_500));
    let rl = KindroidError::RateLimited { status: 429, body: String::new(), retry_after: None };
    assert_eq!(fetch_failure(&rl), FetchFailure::Backoff(3_600_000));
    let auth = KindroidError::Auth { status: 401, body: String::new() };
    assert_eq!(fetch_failure(&auth), FetchFailure::Stop("invalid or missing API key".to_string()));
    assert_eq!(token_cleared_message(), "API token cleared");
}

#[test]
fn the_oldest_unfinished_run_is_resumed_first() {
    assert_eq!(run_to_resume(&[]), None);
    let run = AutoJournalRun {
        id: "r".into(),
        ai_id: "ai".into(),
        start_cursor: None,
        end_cursor: None,
        status: AutoJournalRunStatus::Failed,
        attempts: 1,
        completed_at: None,
        last_error: Some("boom".into()),
        created_at: 1,
    };
    assert_eq!(run_to_resume(&[run.clone(), run]), Some(0));
}

#[test]
fn a_failed_create_reports_no_target_and_no_log() {
    let e = KindroidError::Server { status: 503, body: "down".into() };
    let r = failed_kin_result(&e, uuid::Uuid::nil(), 42);
    assert!(!r.create_new_ai.ok);
    assert_eq!(r.create_new_ai.status, 503);
    assert!(r.update_info.is_none());
    assert!(r.journal_entries.is_empty());
    assert_eq!(r.log_id, uuid::Uuid::nil());
    assert_eq!(r.target.id, uuid::Uuid::nil());
    assert_eq!(r.target.kind, TargetKind::Ai);
    assert!(r.target.ai_id.is_empty() && r.target.label.is_empty());
    assert_eq!(r.target.created_at, 42);
}

#[test]
fn new_settings_keep_the_automation_progress() {
    let mut st = ChatAutomationState::new("ai".into());
    st.journal_initialised = true;
    st.pending_summary_candidate = Some("draft".into());
    st.journal_last_error = Some("boom".into());
    st.summary_last_run_at = Some(9);
    let input = SetChatAutomationSettingsInput {
        ai_id: "ai".into(),
        auto_journal_enabled: true,
        auto_summary_enabled: false,
        interval: 5,
        journal_cap: 2,
        summary_backend: st.summary_backend,
        bootstrap_mode: SummaryBootstrapMode::IncrementalOnly,
        journal_instructions_override: None,
        summary_instructions_override: None,
    };
    let s = apply_automation_settings(st, "ai".into(), input).unwrap();
    assert!(s.journal_initialised);
    assert_eq!(s.pending_summary_candidate.as_deref(), Some("draft"));
    assert_eq!(s.journal_last_error.as_deref(), Some("boom"));
    assert_eq!(s.summary_last_run_at, Some(9));
    assert_eq!(s.interval, 5);
}
