use kindroid_manager::commands::ai::automation_completion_request;
use kindroid_manager::ai::{
    bearer_header, chat_completions_url, completion_outcome, first_choice, map_error, AiError,
    ChatCompletionResponse,
};
use kindroid_manager::commands::ai::{
    ai_settings_dto, chat_completion_request, keychain_bearer, map_test_result,
    resolve_bearer_for_chat, resolve_bearer_for_test, set_ai_token, test_completion_request,
    validate_ai_settings, SetAiSettingsInput,
};
use kindroid_manager::error::AppError;
use kindroid_manager::security::SecretStoreError;

fn roles_and_contents(system: Option<&str>, json_mode: bool) -> Vec<(String, String)> {
    let req = chat_completion_request("m", system, "hi".to_string(), json_mode);
    req.messages.iter().map(|m| (m.role.clone(), m.content.clone())).collect()
}

#[test]
fn json_mode_false_with_some_system_sends_one_system_message() {
    let req = chat_completion_request("m", Some("  be helpful  "), "hi".to_string(), false);
    assert_eq!(req.messages.len(), 2);
    assert_eq!(req.messages[0].role, "system");
    assert_eq!(req.messages[0].content, "be helpful");
    assert_eq!(req.messages[1].role, "user");
    assert!(req.response_format.is_none());
}

#[test]
fn json_mode_false_with_none_system_sends_no_system_message() {
    let msgs = roles_and_contents(None, false);
    assert_eq!(msgs.len(), 1);
    assert_eq!(msgs[0].0, "user");
}

#[test]
fn json_mode_true_with_some_system_appends_respond_with_json() {
    let req = chat_completion_request("m", Some("you are strict"), "hi".to_string(), true);
    assert_eq!(req.messages.len(), 2);
    assert_eq!(req.messages[0].content, "you are strict\n\nRespond with JSON.");
    assert!(req.response_format.is_some());
    assert_eq!(req.response_format.unwrap().kind, "json_object");
}

#[test]
fn json_mode_true_with_none_system_synthesizes_system_message() {
    let req = chat_completion_request("m", None, "hi".to_string(), true);
    assert_eq!(req.messages.len(), 2);
    assert_eq!(req.messages[0].content, "Respond with JSON.");
    assert!(req.response_format.is_some());
}

#[test]
fn whitespace_only_system_treated_as_none() {
    let msgs = roles_and_contents(Some("   \n  "), false);
    assert_eq!(msgs.len(), 1);
    assert_eq!(msgs[0].0, "user");
}

#[test]
fn inline_token_overrides_keychain() {
    let r = resolve_bearer_for_chat(Some("override"), || Ok(Some("k".to_string()))).unwrap();
    assert_eq!(r.as_deref(), Some("override"));
}

#[test]
fn inline_empty_token_skips_keychain_and_sends_no_auth() {
    let r = resolve_bearer_for_chat(Some(""), || Ok(Some("k".to_string()))).unwrap();
    assert_eq!(r, None);
}

#[test]
fn token_missing_returns_token_missing_error() {
    let err = resolve_bearer_for_chat(None, || Ok(None)).unwrap_err();
    assert!(matches!(err, AppError::TokenMissing));
}

#[test]
fn empty_model_omits_model_on_wire() {
    let req = chat_completion_request("", None, "hi".to_string(), false);
    assert_eq!(req.model, None);
}

#[test]
fn test_ai_connection_returns_ok_on_200() {
    let r = map_test_result(
        Ok(ChatCompletionResponse {
            content: "pong".into(),
            model: Some("gpt-4o-mini".into()),
        }),
        "http://x",
    );
    assert!(r.ok);
    assert_eq!(r.status, 200);
    assert!(r.message.contains("gpt-4o-mini"));
}

#[test]
fn test_ai_connection_maps_401() {
    let r = map_test_result(
        Err(AiError::Auth {
            status: 401,
            body: "nope".into(),
        }),
        "http://x",
    );
    assert!(!r.ok);
    assert_eq!(r.status, 401);
    assert_eq!(r.message, "Invalid or missing API key");
}

#[test]
fn set_ai_settings_rejects_non_http_url() {
    let err = validate_ai_settings(&SetAiSettingsInput {
        base_url: "ftp://nope".into(),
        model: "m".into(),
    })
    .unwrap_err();
    assert!(matches!(err, AppError::Invalid { .. }));
}

#[test]
fn set_ai_token_rejects_empty() {
    let err = set_ai_token("   ".into()).unwrap_err();
    assert!(matches!(err, AppError::Invalid { .. }));
}

#[test]
fn test_result_reports_rate_limit_and_network_failures() {
    let r = map_test_result(
        Err(AiError::RateLimited {
            status: 429,
            body: "slow".into(),
            retry_after: Some(7),
        }),
        "http://x",
    );
    assert!(!r.ok);
    assert_eq!(r.status, 429);
    let n = map_test_result(
        Err(AiError::Network {
            message: "refused".into(),
        }),
        "http://x",
    );
    assert!(!n.ok);
    assert_eq!(n.status, 0);
}

#[test]
fn ok_test_message_names_base_url_and_model() {
    let r = map_test_result(
        Ok(ChatCompletionResponse {
            content: "pong".into(),
            model: Some("m1".into()),
        }),
        "http://host/v1",
    );
    assert_eq!(r.message, "OK — reached http://host/v1 (model m1)");
}

#[test]
fn test_bearer_falls_back_to_keychain_answer() {
    assert_eq!(
        resolve_bearer_for_test(None, || Ok(None)).unwrap(),
        None
    );
    assert_eq!(
        resolve_bearer_for_test(None, || Ok(Some("k".to_string()))).unwrap().as_deref(),
        Some("k")
    );
    assert_eq!(
        resolve_bearer_for_test(Some("x"), || Ok(None)).unwrap().as_deref(),
        Some("x")
    );
}

#[test]
fn keychain_not_found_is_no_token() {
    assert_eq!(keychain_bearer(Err(SecretStoreError::NotFound)).unwrap(), None);
    assert_eq!(
        keychain_bearer(Ok("tok".to_string())).unwrap().as_deref(),
        Some("tok")
    );
}

#[test]
fn ping_request_has_one_user_message() {
    let req = test_completion_request("  gpt  ");
    assert_eq!(req.model.as_deref(), Some("gpt"));
    assert_eq!(req.messages.len(), 1);
    assert_eq!(req.messages[0].role, "user");
    assert_eq!(req.messages[0].content, "ping");
    assert!(!req.stream);
}

#[test]
fn ai_settings_default_when_unset() {
    let dto = ai_settings_dto(None, None, false);
    assert_eq!(dto.base_url, "https://api.openai.com/v1");
    assert_eq!(dto.model, "");
    assert!(!dto.token_configured);
}

#[test]
fn ai_status_errors_by_code() {
    assert!(matches!(map_error(401, "b".into(), None), AiError::Auth { status: 401, .. }));
    assert!(matches!(map_error(403, "b".into(), None), AiError::Auth { status: 403, .. }));
    assert!(matches!(
        map_error(429, "b".into(), Some(3)),
        AiError::RateLimited { status: 429, retry_after: Some(3), .. }
    ));
    assert!(matches!(map_error(404, "b".into(), None), AiError::BadRequest { status: 404, .. }));
    assert!(matches!(map_error(502, "b".into(), None), AiError::Server { status: 502, .. }));
}

#[test]
fn completions_url_and_bearer_header() {
    assert_eq!(chat_completions_url("http://h/v1/"), "http://h/v1/chat/completions");
    assert_eq!(bearer_header(Some("t")).as_deref(), Some("Bearer t"));
    assert_eq!(bearer_header(Some("")), None);
    assert_eq!(bearer_header(None), None);
}

#[test]
fn first_choice_requires_a_choice() {
    let ok = first_choice(Some("m".into()), vec!["a".into(), "b".into()]).unwrap();
    assert_eq!(ok.content, "a");
    assert_eq!(ok.model.as_deref(), Some("m"));
    assert!(matches!(first_choice(None, vec![]), Err(AiError::Decode { .. })));
}

#[test]
fn completion_outcome_passes_2xx_bodies() {
    assert_eq!(completion_outcome(200, "{}".into(), None).unwrap(), "{}");
    assert!(matches!(
        completion_outcome(500, "x".into(), None),
        Err(AiError::Server { status: 500, .. })
    ));
}

#[test]
fn automation_request_sends_system_then_user_as_json() {
    let req = automation_completion_request(" ", "sys".to_string(), "usr".to_string());
    assert_eq!(req.model, None);
    assert_eq!(req.messages.len(), 2);
    assert_eq!(req.messages[0].role, "system");
    assert_eq!(req.messages[0].content, "sys");
    assert_eq!(req.messages[1].role, "user");
    assert_eq!(req.messages[1].content, "usr");
    assert_eq!(req.response_format.unwrap().kind, "json_object");
    assert!(!req.stream);
}
