use base64::Engine;
use kindroid_manager::domain::character::Character;
use kindroid_manager::domain::journal_entry::{
    JournalEntry, MAX_ENTRY_CHARS, MAX_KEYPHRASE_CHARS,
};
use kindroid_manager::domain::push_log::truncate_body;
use kindroid_manager::domain::share_code::{
    build_partial, check_version, share_code_from_json, share_code_json, PartialCharacter,
    ShareCodeError, CURRENT_VERSION,
};
use kindroid_manager::domain::target::TargetKind;
use kindroid_manager::storage::{
    detect_extension, discover_migrations, migration_applies, migration_version, target_version,
};

fn make_full_character() -> Character {
    Character {
        id: uuid::Uuid::new_v4(),
        name: "Test".into(),
        ai_name: Some("Aria".into()),
        ai_gender: Some("female".into()),
        ai_backstory: Some("Backstory".into()),
        ai_memory: Some("Memory".into()),
        ai_directive: Some("Directive".into()),
        ai_example_message: Some("Example".into()),
        ai_additional_context: Some("Context".into()),
        current_scene: Some("Scene".into()),
        user_name: Some("Eric".into()),
        user_gender: Some("male".into()),
        greeting: Some("Hello!".into()),
        notes: Some("local only".into()),
        ai_avatar_description: None,
        cover_image: None,
        created_at: 1_700_000_000_000,
        updated_at: 1_700_000_000_000,
    }
}

fn make_journal_entry(entry: &str, kps: Vec<&str>) -> JournalEntry {
    JournalEntry {
        id: uuid::Uuid::new_v4().to_string(),
        character_id: uuid::Uuid::new_v4(),
        entry: entry.into(),
        keyphrases: kps.into_iter().map(String::from).collect(),
        created_at: 1,
        updated_at: 1,
    }
}

fn code_of(json: &str) -> String {
    share_code_from_json(json)
}

#[test]
fn reports_actual_length_when_over_entry_limit() {
    let entry = "a".repeat(MAX_ENTRY_CHARS + 7);
    let err = JournalEntry::validate(&entry, &[]).unwrap_err();
    assert!(
        err.contains(&format!(
            "must be {MAX_ENTRY_CHARS} characters or fewer (got {})",
            entry.chars().count()
        )),
        "{err}"
    );
}

#[test]
fn reports_actual_length_when_over_keyphrase_limit() {
    let kp = "b".repeat(MAX_KEYPHRASE_CHARS + 2);
    let err = JournalEntry::validate("ok", std::slice::from_ref(&kp)).unwrap_err();
    assert!(
        err.contains(&format!(
            "must be {MAX_KEYPHRASE_CHARS} characters or fewer (got {})",
            kp.chars().count()
        )),
        "{err}"
    );
}

#[test]
fn validate_indexed_wraps_with_position() {
    let entry = "a".repeat(MAX_ENTRY_CHARS + 1);
    let err = JournalEntry::validate_indexed(2, &entry, &[]).unwrap_err();
    assert!(err.starts_with("entry #2: "), "{err}");
}

#[test]
fn validate_accepts_entry_within_limits() {
    assert!(JournalEntry::validate("  fine  ", &["one".to_string()]).is_ok());
    assert_eq!(
        JournalEntry::validate("   ", &[]).unwrap_err(),
        "entry must not be empty"
    );
    let many: Vec<String> = (0..9).map(|i| format!("k{i}")).collect();
    assert_eq!(
        JournalEntry::validate("ok", &many).unwrap_err(),
        "at most 8 keyphrases"
    );
    assert_eq!(
        JournalEntry::validate("ok", &["a".to_string(), " ".to_string()]).unwrap_err(),
        "keyphrase #1 must not be empty"
    );
}

#[test]
fn keyphrase_with_separator_is_refused() {
    let err = JournalEntry::validate("fine", &["dragon wings, forked tongue".to_string()])
        .unwrap_err();
    assert!(err.contains("keyphrase must not contain separators"), "{err}");
    let err = JournalEntry::validate("fine", &["wings; tongue".to_string()]).unwrap_err();
    assert!(err.contains("keyphrase must not contain separators"), "{err}");
}

#[test]
fn keyphrase_of_more_than_three_words_is_refused() {
    let err = JournalEntry::validate("fine", &["one two three four".to_string()]).unwrap_err();
    assert!(err.contains("keyphrase must be 3 words or fewer"), "{err}");
    assert!(JournalEntry::validate("fine", &["purple skin".to_string()]).is_ok());
    assert!(JournalEntry::validate("fine", &["  one  two\tthree  ".to_string()]).is_ok());
    assert!(JournalEntry::validate("fine", &["purple-skin demon-kin".to_string()]).is_ok());
}

#[test]
fn normalize_keyphrases_trims_dedups_and_caps() {
    let input: Vec<String> = vec![
        " Alpha ", "alpha", "", "Beta", "c", "d", "e", "f", "g", "h", "i",
    ]
    .into_iter()
    .map(String::from)
    .collect();
    let out = JournalEntry::normalize_keyphrases(&input);
    assert_eq!(out, vec!["Alpha", "Beta", "c", "d", "e", "f", "g", "h"]);
    assert_eq!(JournalEntry::normalize_keyphrases(&out), out);
}

#[test]
fn round_trip_with_all_fields() {
    let c = make_full_character();
    let partial = build_partial(&c, &[]);
    assert_eq!(partial.ai_name.as_deref(), Some("Aria"));
    assert_eq!(partial.greeting.as_deref(), Some("Hello!"));
    let json = r#"{"v":2,"p":{"ai_name":"Aria","greeting":"Hello!"}}"#;
    assert_eq!(share_code_json(&code_of(json)).unwrap(), json);
}

#[test]
fn round_trip_with_partial_fields() {
    let mut c = make_full_character();
    c.ai_name = None;
    c.ai_gender = None;
    c.ai_backstory = None;
    c.ai_memory = None;
    c.ai_directive = None;
    c.ai_example_message = None;
    c.ai_additional_context = None;
    c.current_scene = None;
    c.user_name = None;
    c.user_gender = None;
    c.greeting = None;
    let partial = build_partial(&c, &[]);
    assert_eq!(partial, PartialCharacter::default());
}

#[test]
fn round_trip_includes_journal_entries() {
    let c = make_full_character();
    let journals = vec![
        make_journal_entry("First entry", vec!["alpha", "beta"]),
        make_journal_entry("Second entry", vec![]),
    ];
    let partial = build_partial(&c, &journals);
    assert_eq!(partial.journal_entries.len(), 2);
    assert_eq!(partial.journal_entries[0].entry, "First entry");
    assert_eq!(partial.journal_entries[0].keyphrases, vec!["alpha", "beta"]);
    assert_eq!(partial.journal_entries[1].entry, "Second entry");
    assert!(partial.journal_entries[1].keyphrases.is_empty());
}

#[test]
fn round_trip_omits_journal_entries_when_empty() {
    let c = make_full_character();
    let partial = build_partial(&c, &[]);
    assert!(partial.journal_entries.is_empty());
}

#[test]
fn unknown_version_rejected() {
    let err = check_version(3, PartialCharacter::default()).unwrap_err();
    assert!(matches!(err, ShareCodeError::UnsupportedVersion(3)));
}

#[test]
fn supported_versions_are_accepted() {
    assert!(check_version(1, PartialCharacter::default()).is_ok());
    assert!(check_version(CURRENT_VERSION, PartialCharacter::default()).is_ok());
    assert!(matches!(
        check_version(0, PartialCharacter::default()),
        Err(ShareCodeError::UnsupportedVersion(0))
    ));
}

#[test]
fn malformed_base64_rejected() {
    let err = share_code_json("not!base64??").unwrap_err();
    match err {
        ShareCodeError::Malformed(m) => assert!(m.starts_with("base64: "), "{m}"),
        other => panic!("expected Malformed, got {other:?}"),
    }
}

#[test]
fn share_code_of_invalid_utf8_is_malformed() {
    let code = base64::engine::general_purpose::URL_SAFE_NO_PAD.encode([0xffu8, 0xfe]);
    match share_code_json(&code).unwrap_err() {
        ShareCodeError::Malformed(m) => assert!(m.starts_with("utf8: "), "{m}"),
        other => panic!("expected Malformed, got {other:?}"),
    }
}

#[test]
fn encode_is_deterministic() {
    let c = make_full_character();
    let j = vec![make_journal_entry("x", vec!["y"])];
    assert_eq!(build_partial(&c, &j), build_partial(&c, &j));
    let json = r#"{"v":2,"p":{"ai_name":"Aria"}}"#;
    assert_eq!(code_of(json), code_of(json));
}

#[test]
fn share_code_is_url_safe_base64_of_the_json() {
    let json = r#"{"v":2,"p":{}}"#;
    let code = code_of(json);
    let expected = base64::engine::general_purpose::URL_SAFE_NO_PAD.encode(json.as_bytes());
    assert_eq!(code, expected);
    assert_ne!(code, json);
}

#[test]
fn truncate_body_respects_byte_cap() {
    let big = "a".repeat(8000);
    let t = truncate_body(&big);
    assert!(t.starts_with("aaa"));
    assert!(t.contains("truncated"));
}

#[test]
fn truncate_body_keeps_short_bodies_and_char_boundaries() {
    assert_eq!(truncate_body("short"), "short");
    let big = "é".repeat(3000);
    let t = truncate_body(&big);
    assert_eq!(t, format!("{}…[truncated]", "é".repeat(2048)));
}

#[test]
fn detect_extension_by_magic_number() {
    assert_eq!(detect_extension(b"\x89PNG\r\n\x1a\nrest"), "png");
    assert_eq!(detect_extension(&[0xFF, 0xD8, 0xFF, 0x00]), "jpg");
    assert_eq!(detect_extension(b"RIFF\0\0\0\0WEBPVP8 "), "webp");
    assert_eq!(detect_extension(b"GIF89a"), "gif");
    assert_eq!(detect_extension(b"hello"), "bin");
}

#[test]
fn migrations_are_sorted_by_version() {
    let files = vec![
        ("0002_b.sql".to_string(), "B".to_string()),
        ("0001_a.sql".to_string(), "A".to_string()),
        ("0010_c.sql".to_string(), "C".to_string()),
    ];
    let ms = discover_migrations(files).unwrap();
    assert_eq!(
        ms,
        vec![(1, "A".to_string()), (2, "B".to_string()), (10, "C".to_string())]
    );
    assert_eq!(target_version(&ms), 10);
    assert!(migration_applies(10, 2));
    assert!(!migration_applies(2, 2));
}

#[test]
fn badly_named_migration_is_refused() {
    let files = vec![
        ("0001_a.sql".to_string(), "A".to_string()),
        ("init.sql".to_string(), "X".to_string()),
    ];
    assert_eq!(
        discover_migrations(files).unwrap_err(),
        "bad migration name: init.sql"
    );
    assert_eq!(migration_version("0042_x.sql"), Some(42));
    assert_eq!(migration_version("x_0042.sql"), None);
    assert_eq!(target_version(&[]), 0);
}

#[test]
fn target_kind_round_trips_through_text() {
    for k in [TargetKind::Ai, TargetKind::Group] {
        assert_eq!(TargetKind::parse(k.as_str()), k);
    }
}

#[test]
fn a_cut_body_stays_within_the_cap_plus_the_marker() {
    let body = "€".repeat(2000);
    let out = truncate_body(&body);
    assert!(out.ends_with("…[truncated]"));
    assert!(out.len() <= 4096 + 14);
    assert!(out.len() >= 4096 - 3 + 14);
    assert_eq!(out.len(), 4095 + 14);
}

#[test]
fn share_codes_are_url_safe_base64_without_padding() {
    assert_eq!(share_code_from_json("Man"), "TWFu");
    assert_eq!(share_code_from_json("Ma"), "TWE");
    assert_eq!(share_code_from_json("M"), "TQ");
    assert_eq!(share_code_from_json(""), "");
    assert_eq!(share_code_from_json("\u{3fb}\u{ff}"), "z7vDvw");
    assert_eq!(share_code_from_json("??>"), "Pz8-");
    assert_eq!(share_code_json("Pz8-").unwrap(), "??>");
    assert!(matches!(share_code_json("TQ=="), Err(ShareCodeError::Malformed(_))));
    assert!(matches!(share_code_json("TR"), Err(ShareCodeError::Malformed(_))));
}
