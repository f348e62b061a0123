use kindroid_manager::commands::automation::{
    expand_placeholders, extract_json_object, parse_json_response, prepend_date,
    resolve_instructions, slice_first_object, strip_fenced, validate_ai_id,
    validate_configuration, validate_instructions, SetChatAutomationSettingsInput,
};
use kindroid_manager::commands::prompts::{
    format_messages, journal_prompt, journal_system_prompt, summary_prompt, SummaryMode,
};
use kindroid_manager::domain::chat_message::ChatMessage;
use kindroid_manager::domain::chat_automation::{SummaryBackend, SummaryBootstrapMode};
use kindroid_manager::error::AppError;

fn entries_of(candidate: &str) -> Vec<serde_json::Value> {
    let v: serde_json::Value = serde_json::from_str(candidate).unwrap();
    v.get("entries").unwrap().as_array().unwrap().clone()
}

#[test]
fn parse_raw_json_object() {
    let raw = r#"{"entries":[{"entry":"hello","keyphrases":["greeting"]}]}"#;
    let parsed = entries_of(parse_json_response(raw, "journal").unwrap());
    assert_eq!(parsed.len(), 1);
    assert_eq!(parsed[0].get("entry").unwrap().as_str(), Some("hello"));
}

#[test]
fn parse_fenced_json_object() {
    let raw =
        "Here you go:\n```json\n{\"entries\":[{\"entry\":\"hi\",\"keyphrases\":[]}]}\n```\nThanks!";
    let parsed = entries_of(parse_json_response(raw, "journal").unwrap());
    assert_eq!(parsed[0].get("entry").unwrap().as_str(), Some("hi"));
}

#[test]
fn parse_first_object_in_prose() {
    let raw = "Sorry, here's the data:\n{\"entries\":[]}\nHope this helps.";
    let parsed = entries_of(parse_json_response(raw, "journal").unwrap());
    assert!(parsed.is_empty());
}

#[test]
fn parse_empty_string_reports_meaningful_error() {
    let err = parse_json_response("", "journal").unwrap_err();
    let msg = err.message();
    assert!(msg.contains("non-JSON journal response"), "{msg}");
}

#[test]
fn extract_json_object_keeps_ref_origin() {
    let raw = "prefix ```json\n{\"entries\":[]}\n``` suffix";
    let slice = extract_json_object(raw).unwrap();
    let ptr = slice.as_ptr();
    assert!(raw.as_ptr() <= ptr && ptr <= raw.as_ptr().wrapping_add(raw.len()));
}

#[test]
fn journal_system_prompt_includes_length_cap() {
    let sys = journal_system_prompt("Kira");
    assert!(sys.contains("450"), "system prompt must declare the 450-char body budget");
    assert!(sys.contains("JSON"), "system prompt must mention JSON output");
    assert!(sys.contains("keyphrases"), "system prompt must mention keyphrases");
    assert!(sys.contains("Kira"), "system prompt must name the AI ({sys:?})");
}

#[test]
fn journal_user_prompt_example_respects_cap() {
    let prompt = journal_prompt("test instructions", &[], &[], 1, "Kira");
    for anchor in ["Kira is a purple-skinned", "Cires and their companion"] {
        let start = prompt.find(anchor).expect("example anchor present");
        let end = prompt[start..].find('"').expect("example close quote");
        let example = &prompt[start..start + end];
        assert!(
            example.chars().count() <= 450,
            "worked example anchored on {anchor:?} must be <= 450 chars, was {}",
            example.chars().count()
        );
    }
}

#[test]
fn expand_placeholders_substitutes_ai_name_and_leaves_unknown_tokens_alone() {
    let out = expand_placeholders(
        "For {ai_name} only — {user_name} kept things civil.",
        "Kira",
        Some("Cires"),
    );
    assert_eq!(out, "For Kira only — Cires kept things civil.");

    let out = expand_placeholders("Use {ai_name} = `{token}` style", "Kira", None);
    assert_eq!(out, "Use Kira = `{token}` style");

    let out = expand_placeholders("Just remember preferences.", "Kira", None);
    assert_eq!(out, "Just remember preferences.");
}

#[test]
fn journal_user_prompt_example_keyphrases_are_specific() {
    let prompt = journal_prompt("test instructions", &[], &[], 1, "Kira");
    let json_start = prompt.find("{\"entries\":[").expect("example block present");
    let json_end = prompt[json_start..]
        .find("\"mana corruption\"]}]")
        .map(|n| json_start + n + 18)
        .expect("example json close");
    let block = &prompt[json_start..json_end];
    assert!(block.contains("purple-skin demon-kin"), "got: {block}");
    assert!(block.contains("demonic essences"), "got: {block}");
    assert!(!block.contains("\"wings\""), "got: {block}");
    assert!(!block.contains("\"forest\""), "got: {block}");
}

#[test]
fn prepend_date_puts_the_date_first_and_strips_leading_whitespace() {
    let out = prepend_date("Kira is a demon-kin.".to_string(), "Date: 2026-08-02 12:45\n");
    assert_eq!(out, "Date: 2026-08-02 12:45\nKira is a demon-kin.");
    let out = prepend_date("  \n body".to_string(), "Date: X\n");
    assert_eq!(out, "Date: X\nbody");
}

#[test]
fn strip_fenced_drops_the_language_tag_line() {
    assert_eq!(strip_fenced("a ```json\n{}\n``` b"), "{}\n");
    assert_eq!(strip_fenced("```{}```"), "{}");
    assert_eq!(strip_fenced("no fence"), "no fence");
}

#[test]
fn slice_first_object_balances_braces() {
    assert_eq!(slice_first_object("x {\"a\":{\"b\":1}} y {\"c\":2}"), "{\"a\":{\"b\":1}}");
    assert_eq!(slice_first_object("{ unclosed"), "");
    assert_eq!(slice_first_object("none"), "");
}

#[test]
fn extract_json_object_returns_none_without_json() {
    assert_eq!(extract_json_object("no json here"), None);
    assert_eq!(extract_json_object("  {\"a\":1}  "), Some("{\"a\":1}"));
}

#[test]
fn instructions_with_placeholder_syntax_are_refused() {
    let err = validate_instructions("use {{x}}").unwrap_err();
    assert_eq!(err.message(), "invalid input: instructions must not contain placeholder syntax");
    let long = "a".repeat(4001);
    let err = validate_instructions(&long).unwrap_err();
    assert_eq!(err.message(), "invalid input: instructions are too long");
    assert!(validate_instructions(&"a".repeat(4000)).is_ok());
}

#[test]
fn configuration_limits_are_checked_in_order() {
    let mut input = SetChatAutomationSettingsInput {
        ai_id: "ai".into(),
        auto_journal_enabled: true,
        auto_summary_enabled: false,
        interval: 1,
        journal_cap: 0,
        summary_backend: SummaryBackend::AdditionalContext,
        bootstrap_mode: SummaryBootstrapMode::FullHistory,
        journal_instructions_override: None,
        summary_instructions_override: None,
    };
    assert!(matches!(validate_configuration(&input), Err(AppError::Invalid { message }) if message == "interval must be at least 2"));
    input.interval = 2;
    assert!(matches!(validate_configuration(&input), Err(AppError::Invalid { message }) if message == "journal cap must be between 1 and 3"));
    input.journal_cap = 3;
    assert!(validate_configuration(&input).is_ok());
}

#[test]
fn instructions_resolve_override_then_global_then_default() {
    assert_eq!(resolve_instructions(Some("  mine "), Some("global"), "default"), "mine");
    assert_eq!(resolve_instructions(Some("   "), Some(" global "), "default"), "global");
    assert_eq!(resolve_instructions(None, None, "default"), "default");
}

#[test]
fn ai_id_is_trimmed_and_required() {
    assert_eq!(validate_ai_id("  ai_1 ").unwrap(), "ai_1");
    assert!(matches!(validate_ai_id("  "), Err(AppError::Invalid { message }) if message == "ai_id is required"));
}

#[test]
fn summary_prompt_names_mode_and_limit() {
    let p = summary_prompt("Summarise for {ai_name}", "old", &[], SummaryMode::Bootstrap, 1000, "Kira");
    assert!(p.starts_with("Summarise for Kira\n\n## AI identity"));
    assert!(p.contains("<summary>\nold\n</summary>"));
    assert!(p.contains("## All stable messages"));
    assert!(p.ends_with("## Mode\nbootstrap\nfield_limit: 1000"));
}

#[test]
fn messages_are_quoted_one_block_each() {
    let m = ChatMessage {
        id: uuid::Uuid::nil(),
        ai_id: "ai".into(),
        kindroid_msg_id: "k1".into(),
        sender: "user".into(),
        display_name: None,
        timestamp: -5,
        message: "hi".into(),
        image_urls: vec![],
        image_description: None,
        video_description: None,
        internet_response: None,
        link_url: None,
        link_description: None,
        fetched_at: 0,
        favourite: false,
    };
    assert_eq!(
        format_messages(&[m.clone(), m]),
        "<message sender=\"user\" timestamp=\"-5\">\nhi\n</message>\n".repeat(2)
    );
}
