use kindroid_manager::search::escape_fts_query;


#[test]
fn unquoted_tokens_become_prefix_anded() {
    assert_eq!(escape_fts_query("hello world"), "\"hello\"* AND \"world\"*");
}

#[test]
fn quoted_text_becomes_exact_phrase() {
    assert_eq!(escape_fts_query("\"hello world\""), "\"hello world\"");
}

#[test]
fn mixed_quoted_and_unquoted_are_anded() {
    assert_eq!(
        escape_fts_query("hello \"world peace\""),
        "\"hello\"* AND \"world peace\""
    );
}

#[test]
fn multiple_phrases_are_anded() {
    assert_eq!(
        escape_fts_query("\"foo bar\" \"baz qux\""),
        "\"foo bar\" AND \"baz qux\""
    );
}

#[test]
fn strips_metachars_from_both_tokens_and_phrases() {
    assert_eq!(
        escape_fts_query("he*y (wor)ld :foo^bar"),
        "\"hey\"* AND \"world\"* AND \"foobar\"*"
    );
    assert_eq!(escape_fts_query("\"he*y :foo\""), "\"hey foo\"");
}

#[test]
fn embedded_quote_tokenizes_like_fts5() {
    // FTS5 treats each standalone `"` as a phrase boundary, so an
    // input like `"he said "hi"` parses the same way FTS5 itself
    // would: phrase `he said ` AND token `hi`, as the
    // `chat_messages_fts` tokenizer reads it.
    assert_eq!(
        escape_fts_query("\"he said \"hi\""),
        "\"he said \" AND \"hi\"*"
    );
}

#[test]
fn preserves_unicode_and_digits_and_hyphens() {
    assert_eq!(
        escape_fts_query("hello-world 2024 café"),
        "\"hello-world\"* AND \"2024\"* AND \"café\"*"
    );
}

#[test]
fn unmatched_open_quote_treats_rest_as_plain_token() {
    assert_eq!(
        escape_fts_query("hello \"world"),
        "\"hello\"* AND \"world\"*"
    );
}

#[test]
fn empty_inputs_return_empty_string() {
    assert_eq!(escape_fts_query(""), "");
    assert_eq!(escape_fts_query("   "), "");
    assert_eq!(escape_fts_query("\t\n"), "");
}

#[test]
fn drops_tokens_that_are_only_metacharacters() {
    assert_eq!(escape_fts_query("*** hello"), "\"hello\"*");
    assert_eq!(escape_fts_query("***"), "");
    // A quoted phrase that is only metacharacters is also dropped.
    assert_eq!(escape_fts_query("\"***\" hello"), "\"hello\"*");
}

#[test]
fn preserves_quoted_single_word_phrase() {
    // `"hello"` is a phrase of length 1 — no wildcard, no AND merge.
    assert_eq!(
        escape_fts_query("\"hello\" world"),
        "\"hello\" AND \"world\"*"
    );
}

#[test]
fn empty_phrase_is_dropped() {
    // `""` produces an empty phrase after cleaning, so it's dropped.
    assert_eq!(escape_fts_query("\"\" hello"), "\"hello\"*");
}

#[test]
fn handles_multiple_kinds_of_whitespace() {
    assert_eq!(
        escape_fts_query("hello\tworld\nfoo"),
        "\"hello\"* AND \"world\"* AND \"foo\"*"
    );
}

#[test]
fn quote_free_queries_are_their_words_as_prefix_matches() {
    for query in ["hello world", "  a*b\t(c)  :: ^x  ", "one\ntwo  three", "***", ""] {
        let expected = query
            .split_ascii_whitespace()
            .map(|t| t.chars().filter(|c| !"*():^".contains(*c)).collect::<String>())
            .filter(|c| !c.is_empty())
            .map(|c| format!("\"{c}\"*"))
            .collect::<Vec<_>>()
            .join(" AND ");
        assert_eq!(escape_fts_query(query), expected, "query {query:?}");
    }
}
