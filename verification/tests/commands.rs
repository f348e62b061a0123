use kindroid_manager::commands::history::{
    ai_bubble_timestamp, is_active_sync, journal_delete_error, local_bubble, require_chat_target,
    require_text, saved_journal_entry, settle_stale_sync, validate_rewind_count, validate_target,
    ActiveSync, SyncSlot, TargetInput,
};
use kindroid_manager::commands::push::{
    journal_ids_sent, journal_selection, new_ai_id, pushed_label, require_something_to_push,
    resolve_chat_break, select_journal_positions, update_info_fields, validate_push_fields,
    ChatBreakInput, JournalEntryStep,
};
use kindroid_manager::commands::settings::{
    debug_flag_value, normalize_base_url, parse_debug_flag, settings_dto, test_token_result,
    SetSettingsInput, token_to_store,
};
use kindroid_manager::commands::share::{
    default_name_from_partial, image_share_err_to_app, partial_to_character,
    require_cover_image, take_stashed_share_image, ShareImageStash,
};
use kindroid_manager::commands::sync::initial_sync_state;
use kindroid_manager::domain::character::Character;
use kindroid_manager::domain::chat_message::SyncStatusKind;
use kindroid_manager::domain::image_share::ImageShareError;
use kindroid_manager::domain::journal_entry::{JournalEntry, JournalEntryInput};
use kindroid_manager::domain::share_code::PartialCharacter;
use kindroid_manager::domain::target::TargetKind;
use kindroid_manager::error::AppError;
use kindroid_manager::kindroid::{HttpResponse, KindroidError};
use kindroid_manager::storage::StorageError;

fn strings(v: &[&str]) -> Vec<String> {
    v.iter().map(|s| s.to_string()).collect()
}

fn character() -> Character {
    Character {
        id: uuid::Uuid::nil(),
        name: "C".into(),
        ai_name: Some("Aria".into()),
        ai_gender: None,
        ai_backstory: Some("Back".into()),
        ai_memory: None,
        ai_directive: None,
        ai_example_message: None,
        ai_additional_context: None,
        current_scene: None,
        user_name: None,
        user_gender: None,
        greeting: Some("Hi".into()),
        notes: None,
        ai_avatar_description: None,
        cover_image: None,
        created_at: 0,
        updated_at: 0,
    }
}

fn journal(id: &str, entry: &str) -> JournalEntry {
    JournalEntry {
        id: id.into(),
        character_id: uuid::Uuid::nil(),
        entry: entry.into(),
        keyphrases: vec![],
        created_at: 0,
        updated_at: 0,
    }
}

fn invalid_message(r: Result<impl std::fmt::Debug, AppError>) -> String {
    match r {
        Err(AppError::Invalid { message }) => message,
        other => panic!("expected Invalid, got {other:?}"),
    }
}

#[test]
fn only_persona_fields_can_be_pushed() {
    assert!(validate_push_fields(&strings(&["ai_name", "current_scene"])).is_ok());
    assert_eq!(
        invalid_message(validate_push_fields(&strings(&["ai_name", "greeting", "x"]))),
        "unknown field: greeting"
    );
}

#[test]
fn chat_break_needs_a_greeting() {
    assert!(matches!(resolve_chat_break(&None), Ok(None)));
    let blank = Some(ChatBreakInput {
        greeting: "  ".into(),
        wipe_cascaded: true,
    });
    assert!(matches!(resolve_chat_break(&blank), Err(AppError::MissingGreeting)));
    let ok = Some(ChatBreakInput {
        greeting: " hello ".into(),
        wipe_cascaded: true,
    });
    assert_eq!(resolve_chat_break(&ok).unwrap(), Some(("hello".to_string(), true)));
}

#[test]
fn journal_entries_are_pushed_in_request_order() {
    let all = vec![journal("a", "A"), journal("b", "B"), journal("c", "C")];
    assert_eq!(
        select_journal_positions(&strings(&["c", "a", "c", "zz"]), &all),
        vec![2, 0]
    );
    assert_eq!(journal_selection(&strings(&["b"]), &all).unwrap(), vec![1]);
    assert_eq!(journal_selection(&[], &all).unwrap(), Vec::<usize>::new());
    assert_eq!(
        invalid_message(journal_selection(&strings(&["zz"]), &all)),
        "no matching journal entries"
    );
    let bad = vec![journal("a", "   ")];
    assert_eq!(
        invalid_message(journal_selection(&strings(&["a"]), &bad)),
        "entry must not be empty"
    );
}

#[test]
fn a_push_must_carry_something() {
    assert!(matches!(
        require_something_to_push(0, false, 0),
        Err(AppError::NothingToPush)
    ));
    assert!(require_something_to_push(0, true, 0).is_ok());
    assert!(require_something_to_push(0, false, 1).is_ok());
}

#[test]
fn update_sends_only_fields_with_values() {
    let pairs = update_info_fields(&character(), &strings(&["ai_backstory", "ai_memory", "ai_name"]));
    assert_eq!(
        pairs,
        vec![
            ("ai_backstory".to_string(), "Back".to_string()),
            ("ai_name".to_string(), "Aria".to_string())
        ]
    );
}

#[test]
fn label_follows_a_pushed_ai_name() {
    let name = Some("Aria".to_string());
    assert_eq!(pushed_label(&strings(&["ai_name"]), &name, "old".into()), "Aria");
    assert_eq!(pushed_label(&strings(&["ai_memory"]), &name, "old".into()), "old");
    assert_eq!(pushed_label(&strings(&["ai_name"]), &Some(String::new()), "old".into()), "old");
    assert_eq!(pushed_label(&strings(&["ai_name"]), &None, "old".into()), "old");
}

#[test]
fn sent_journal_ids_are_listed() {
    assert_eq!(journal_ids_sent(&[]), None);
    let steps = vec![
        JournalEntryStep {
            id: "x".into(),
            status: 200,
            ok: true,
            message: String::new(),
        },
        JournalEntryStep {
            id: "y".into(),
            status: 500,
            ok: false,
            message: String::new(),
        },
    ];
    assert_eq!(journal_ids_sent(&steps), Some(strings(&["x", "y"])));
}

#[test]
fn new_kin_id_is_the_trimmed_body() {
    assert_eq!(new_ai_id(" abc \n").unwrap(), "abc");
    assert_eq!(
        invalid_message(new_ai_id("  ")),
        "create-new-ai returned an empty ai_id"
    );
}

#[test]
fn share_stash_is_emptied_by_taking() {
    let mut stash = ShareImageStash::new();
    assert_eq!(take_stashed_share_image(&mut stash), None);
    stash.put(vec![1, 2, 3]);
    stash.put(vec![4]);
    assert_eq!(take_stashed_share_image(&mut stash), Some(vec![4]));
    assert_eq!(take_stashed_share_image(&mut stash), None);
}

#[test]
fn imported_share_becomes_a_character() {
    let mut p = PartialCharacter::default();
    assert_eq!(default_name_from_partial(&p), "Imported character");
    p.ai_name = Some("  ".into());
    assert_eq!(default_name_from_partial(&p), "Imported character");
    p.ai_name = Some("Aria".into());
    p.greeting = Some("Hello".into());
    let c = partial_to_character(&p, uuid::Uuid::nil(), 42);
    assert_eq!(c.name, "Aria");
    assert_eq!(c.greeting.as_deref(), Some("Hello"));
    assert_eq!(c.created_at, 42);
    assert_eq!(c.notes, None);
    match image_share_err_to_app(ImageShareError::NoPayload) {
        AppError::ShareCode { message } => assert_eq!(message, "no kindroid metadata in image"),
        other => panic!("{other:?}"),
    }
    assert!(require_cover_image(None).is_err());
    assert_eq!(require_cover_image(Some(vec![1])).unwrap(), vec![1]);
}

#[test]
fn history_inputs_are_checked() {
    assert_eq!(require_text(" hi ", "message").unwrap(), "hi");
    assert_eq!(invalid_message(require_text(" ", "message")), "message is required");
    assert!(require_chat_target(true, "a").is_ok());
    assert_eq!(
        invalid_message(require_chat_target(false, "a")),
        "chat-mode is only available for AI targets, not groups or unknown ids (ai_id='a')"
    );
    assert!(validate_rewind_count(2).is_ok());
    assert_eq!(
        invalid_message(validate_rewind_count(0)),
        "count must be greater than zero"
    );
    assert_eq!(
        invalid_message(validate_rewind_count(3)),
        "count must be even — Kindroid rewinds in user/AI pairs"
    );
}

#[test]
fn local_bubbles_sort_user_then_ai() {
    let b = local_bubble(uuid::Uuid::nil(), "ai", "7", "user", 100, "hi".into(), 5);
    assert_eq!(b.kindroid_msg_id, "local:7");
    assert_eq!(ai_bubble_timestamp(b.timestamp), 101);
    assert_eq!(ai_bubble_timestamp(i64::MAX), i64::MAX);
}

#[test]
fn stale_running_sync_is_settled_as_idle() {
    let mut s = initial_sync_state("ai", 0, 1);
    assert!(s.is_syncing);
    assert!(!settle_stale_sync(&mut s, true));
    assert!(s.is_syncing);
    assert!(settle_stale_sync(&mut s, false));
    assert!(!s.is_syncing);
    assert_eq!(s.status_kind, SyncStatusKind::Idle);
    assert!(!settle_stale_sync(&mut s, false));
}

#[test]
fn only_one_chat_syncs_at_a_time() {
    let mut slot = SyncSlot::new();
    assert!(slot.start("a", TargetKind::Ai).is_ok());
    let busy = slot.start("b", TargetKind::Ai).unwrap_err();
    assert_eq!(busy.ai_id, "a");
    assert!(is_active_sync(&slot.current(), "a", TargetKind::Ai));
    assert!(!is_active_sync(&slot.current(), "a", TargetKind::Group));
    let released = slot.release().unwrap();
    assert_eq!(released.ai_id, "a");
    assert!(slot.current().is_none());
    assert!(slot.start("b", TargetKind::Ai).is_ok());
    let none: Option<ActiveSync> = None;
    assert!(!is_active_sync(&none, "b", TargetKind::Ai));
}

#[test]
fn saved_journal_entries_are_normalised() {
    let input = JournalEntryInput {
        id: None,
        entry: "  text ".into(),
        keyphrases: strings(&[" K ", "k"]),
    };
    let j = saved_journal_entry(&input, uuid::Uuid::nil(), None, "new".into(), 9).unwrap();
    assert_eq!(j.id, "new");
    assert_eq!(j.entry, "text");
    assert_eq!(j.keyphrases, strings(&["K"]));
    assert_eq!(j.created_at, 9);
    let edit = JournalEntryInput {
        id: Some("old".into()),
        entry: "x".into(),
        keyphrases: vec![],
    };
    assert_eq!(
        invalid_message(saved_journal_entry(&edit, uuid::Uuid::nil(), None, "new".into(), 9)),
        "entry does not belong to character"
    );
    let kept = saved_journal_entry(&edit, uuid::Uuid::nil(), Some(3), "new".into(), 9).unwrap();
    assert_eq!(kept.id, "old");
    assert_eq!(kept.created_at, 3);
    assert_eq!(kept.updated_at, 9);
    assert_eq!(
        invalid_message(Err::<(), AppError>(journal_delete_error(StorageError::NotFound))),
        "entry does not belong to character"
    );
}

#[test]
fn targets_are_checked_before_saving() {
    let input = TargetInput {
        id: None,
        ai_id: " a1 ".into(),
        kind: TargetKind::Ai,
        label: " L ".into(),
    };
    assert_eq!(
        validate_target(&input, None).unwrap(),
        ("a1".to_string(), "L".to_string())
    );
    assert_eq!(
        invalid_message(validate_target(&input, Some(TargetKind::Group))),
        "target kind cannot be changed"
    );
    let blank = TargetInput {
        label: " ".into(),
        ..input
    };
    assert_eq!(invalid_message(validate_target(&blank, None)), "label is required");
}

#[test]
fn debug_flag_accepts_common_spellings() {
    for v in ["1", "true", " YES ", "On"] {
        assert!(parse_debug_flag(Some(v)), "{v}");
    }
    for v in ["0", "false", "", "enabled"] {
        assert!(!parse_debug_flag(Some(v)), "{v}");
    }
    assert!(!parse_debug_flag(None));
    assert!(parse_debug_flag(Some(debug_flag_value(true))));
    assert!(!parse_debug_flag(Some(debug_flag_value(false))));
}

#[test]
fn settings_default_and_base_url_normalisation() {
    let dto = settings_dto(None, true, Some("yes"));
    assert_eq!(dto.base_url, "https://api.kindroid.ai/v1");
    assert!(dto.debug_show_automation_response);
    let u = normalize_base_url(&SetSettingsInput {
        base_url: "  https://h/v1// ".into(),
    })
    .unwrap();
    assert_eq!(u, "https://h/v1");
    assert_eq!(
        invalid_message(normalize_base_url(&SetSettingsInput {
            base_url: " / ".into()
        })),
        "base_url is required"
    );
}

#[test]
fn token_test_reports_by_outcome() {
    let ok = test_token_result(Ok(HttpResponse {
        status: 200,
        ok: true,
        body: String::new(),
    }));
    assert!(ok.ok);
    assert_eq!(ok.message, "OK (status 200)");
    let rl = test_token_result(Err(KindroidError::RateLimited {
        status: 429,
        body: String::new(),
        retry_after: Some(30_400),
    }));
    assert!(rl.ok && rl.rate_limited);
    assert_eq!(rl.message, "Rate limited; auth reached (status 429, retry in 30s)");
    let auth = test_token_result(Err(KindroidError::Auth {
        status: 401,
        body: String::new(),
    }));
    assert!(!auth.ok);
    assert_eq!(auth.message, "Invalid token (status 401)");
    let bad = test_token_result(Err(KindroidError::BadRequest {
        status: 400,
        body: String::new(),
    }));
    assert!(bad.ok);
    assert_eq!(bad.message, "OK (status 400, auth reached)");
    let net = test_token_result(Err(KindroidError::Network {
        message: "down".into(),
    }));
    assert_eq!(net.status, 0);
    assert_eq!(net.message, "(network) down");
}

#[test]
fn the_stored_token_is_the_trimmed_token() {
    assert_eq!(token_to_store("  secret-token \n").unwrap(), "secret-token");
    for raw in ["\u{3000}tok en\u{85}", "\u{2028}\u{A0}x", "é ", "\u{200B}z\u{200B}"] {
        assert_eq!(token_to_store(raw).unwrap(), raw.trim());
    }
    assert!(matches!(
        token_to_store("   \t"),
        Err(AppError::Invalid { message }) if message == "token is required"
    ));
}
