use kindroid_manager::kindroid::{
    bearer_value, chat_messages_page, endpoint_url, invalid_json_error, list_chat_messages_url,
    map_error, page_has_more, parse_decimal_u64, parse_retry_after, response_outcome,
    retry_after_from, urlencoding, KindroidError, ListChatMessagesRequest,
};

#[test]
fn retry_after_seconds() {
    assert_eq!(parse_retry_after("30"), Some(30_000));
}

#[test]
fn retry_after_invalid() {
    assert_eq!(parse_retry_after("not-a-thing"), None);
}

#[test]
fn retry_after_date_is_measured_from_now() {
    // Tue, 15 Nov 1994 08:12:31 GMT is 784887151.
    let date = "Tue, 15 Nov 1994 08:12:31 GMT";
    assert_eq!(retry_after_from(date, 784887100_000), Some(51_000));
    assert_eq!(retry_after_from(date, 784887150_250), Some(750));
    assert_eq!(retry_after_from(date, 784887151_000), None);
    assert_eq!(retry_after_from(date, 784887200_000), None);
    assert_eq!(retry_after_from("  12 ", 0), Some(12_000));
    assert_eq!(retry_after_from("18446744073709551615", 0), Some(u64::MAX));
}

#[test]
fn retry_after_date_in_the_future_is_a_positive_delay() {
    let d = parse_retry_after("Fri, 31 Dec 9999 23:59:59 GMT").unwrap();
    assert!(d > 0 && d <= 253402300799_000);
    assert_eq!(parse_retry_after("Tue, 15 Nov 1994 08:12:31 GMT"), None);
}

#[test]
fn decimal_parse_matches_std() {
    for s in ["0", "+7", "18446744073709551615", "18446744073709551616", "", "+", "1a", "-1"] {
        let cs: Vec<char> = s.chars().collect();
        assert_eq!(parse_decimal_u64(&cs), s.parse::<u64>().ok(), "{s}");
    }
}

#[test]
fn kindroid_status_errors_by_code() {
    assert!(matches!(map_error(401, "x".into(), None), KindroidError::Auth { .. }));
    assert!(matches!(map_error(404, "x".into(), None), KindroidError::NotFound { .. }));
    assert!(matches!(
        map_error(429, "x".into(), Some(30)),
        KindroidError::RateLimited { retry_after: Some(30), .. }
    ));
    assert!(matches!(map_error(422, "x".into(), None), KindroidError::BadRequest { .. }));
    assert!(matches!(map_error(503, "x".into(), None), KindroidError::Server { .. }));
    assert_eq!(map_error(401, "x".into(), None).message(), "invalid or missing API key");
    assert_eq!(map_error(400, "bad".into(), None).message(), "bad request: bad");
    assert_eq!(map_error(503, "x".into(), None).status(), 503);
}

#[test]
fn response_outcome_passes_2xx() {
    let ok = response_outcome(201, "{}".into(), None).unwrap();
    assert_eq!(ok.status, 201);
    assert!(ok.ok);
    assert_eq!(ok.body, "{}");
    assert!(matches!(
        response_outcome(429, "".into(), Some(5)),
        Err(KindroidError::RateLimited { retry_after: Some(5), .. })
    ));
}

#[test]
fn query_values_are_percent_encoded() {
    assert_eq!(urlencoding("abc-_.~09"), "abc-_.~09");
    assert_eq!(urlencoding("a b/c"), "a%20b%2Fc");
    assert_eq!(urlencoding("é"), "%C3%A9");
}

#[test]
fn chat_messages_url_clamps_limit_and_adds_cursor() {
    let req = ListChatMessagesRequest {
        ai_id: "ai 1".into(),
        limit: 500,
        start_after_timestamp: Some(-5),
    };
    assert_eq!(
        list_chat_messages_url("https://api.example/v1/", &req),
        "https://api.example/v1/get-chat-messages?ai_id=ai%201&limit=100&start_after_timestamp=-5"
    );
    let req = ListChatMessagesRequest {
        ai_id: "x".into(),
        limit: 0,
        start_after_timestamp: None,
    };
    assert_eq!(
        list_chat_messages_url("http://h", &req),
        "http://h/get-chat-messages?ai_id=x&limit=1"
    );
}

#[test]
fn endpoint_url_drops_trailing_slashes() {
    assert_eq!(endpoint_url("http://h//", "send-message"), "http://h/send-message");
    assert_eq!(bearer_value("tok"), "Bearer tok");
}

#[test]
fn has_more_prefers_server_flag() {
    assert!(page_has_more(Some(true), 0, 50));
    assert!(!page_has_more(Some(false), 50, 50));
    assert!(page_has_more(None, 50, 50));
    assert!(!page_has_more(None, 49, 50));
    let page = chat_messages_page(vec![], None, Some(9), 0);
    assert_eq!(page.limit, 1);
    assert!(!page.has_more);
    assert_eq!(page.pagination_last_timestamp, Some(9));
}

#[test]
fn invalid_json_is_a_server_error() {
    let e = invalid_json_error(200, "chat messages", "eof");
    assert_eq!(
        e,
        KindroidError::Server {
            status: 200,
            body: "invalid chat messages JSON: eof".into()
        }
    );
}
