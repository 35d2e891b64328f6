use dex_tokens::routes::{
    apply_token_update, check_access, lookup_token, parse_tokens_query, path_key, select_tokens,
    tokens_query_from_pairs, update_reply, update_token, TokenRecord, TokensQuery, UpdateBody, UpdateFields,
};

fn token(symbol: &str, base16: &str, token_type: u8, status: u8) -> TokenRecord {
    TokenRecord {
        symbol: symbol.to_string(),
        base16: base16.to_string(),
        token_type,
        status,
        scope: 0,
        listed: false,
    }
}

#[test]
fn tokens_query_defaults() {
    let q = parse_tokens_query("");
    assert_eq!((q.limit, q.token_type, q.offset), (200, 1, 0));
    let q = parse_tokens_query("limit=abc&type=300&offset=-1");
    assert_eq!((q.limit, q.token_type, q.offset), (200, 1, 0));
}

#[test]
fn tokens_query_reads_numbers_and_the_last_value_wins() {
    let q = parse_tokens_query("limit=5&type=2&offset=3&limit=7");
    assert_eq!((q.limit, q.token_type, q.offset), (7, 2, 3));
    let q = parse_tokens_query("limit=%31%30&type=+2");
    assert_eq!((q.limit, q.token_type), (10, 1));
    let pairs = vec![("offset".to_string(), "+4".to_string())];
    assert_eq!(tokens_query_from_pairs(&pairs).offset, 4);
}

#[test]
fn select_tokens_filters_then_pages() {
    let tokens = vec![
        token("A", "a", 1, 1),
        token("B", "b", 2, 1),
        token("C", "c", 1, 0),
        token("D", "d", 1, 1),
        token("E", "e", 1, 1),
    ];
    let all = TokensQuery { limit: 200, token_type: 1, offset: 0 };
    assert_eq!(select_tokens(&tokens, &all), vec![0, 3, 4]);
    let page = TokensQuery { limit: 1, token_type: 1, offset: 1 };
    assert_eq!(select_tokens(&tokens, &page), vec![3]);
    let past = TokensQuery { limit: 5, token_type: 1, offset: 9 };
    assert!(select_tokens(&tokens, &past).is_empty());
    let huge = TokensQuery { limit: usize::MAX, token_type: 1, offset: 2 };
    assert_eq!(select_tokens(&tokens, &huge), vec![4]);
    let other = TokensQuery { limit: 200, token_type: 2, offset: 0 };
    assert_eq!(select_tokens(&tokens, &other), vec![1]);
}

#[test]
fn path_key_is_the_last_segment_in_lower_case() {
    assert_eq!(path_key("/api/v1/token/ZIL"), "zil");
    assert_eq!(path_key("/api/v1/token/"), "");
    assert_eq!(path_key("plain"), "plain");
    assert_eq!(path_key(""), "");
}

#[test]
fn lookup_token_finds_the_first_listed_symbol() {
    let tokens = vec![token("zil", "a", 1, 0), token("ZIL", "b", 1, 1), token("Zil", "c", 1, 1)];
    assert_eq!(lookup_token(&tokens, "/token/zIl").ok(), Some(1));
    let missing = lookup_token(&tokens, "/token/GZIL").unwrap_err();
    assert_eq!(missing.status, 404);
    assert_eq!(missing.code, Some(-1));
    assert_eq!(missing.message, "No token gzil");
}

#[test]
fn check_access_compares_the_tokens() {
    assert!(check_access(None, "666").is_none());
    assert!(check_access(Some("secret"), "secret").is_none());
    let refused = check_access(Some("secret"), "666").unwrap();
    assert_eq!(refused.status, 511);
    assert_eq!(refused.code, Some(-5));
    assert_eq!(refused.message, "Incorrect atuh token 666");
    let refused = check_access(None, "").unwrap();
    assert_eq!(refused.message, "Incorrect atuh token ");
}

#[test]
fn update_applies_the_members_of_the_body() {
    let mut tokens = vec![token("old", "0xAA", 1, 0), token("keep", "0xbb", 1, 1)];
    let body = UpdateBody::Fields(UpdateFields {
        status: Some(Some(7)),
        score: Some(Some(300)),
        listed: Some(Some(true)),
        symbol: Some(Some("NEW".to_string())),
    });
    assert_eq!(apply_token_update(&mut tokens, "/token/0xaa", &body).ok(), Some(0));
    assert_eq!(tokens[0].status, 1);
    assert_eq!(tokens[0].scope, 44);
    assert!(tokens[0].listed);
    assert_eq!(tokens[0].symbol, "NEW");
    assert_eq!(tokens[0].base16, "0xAA");
    assert_eq!(tokens[1].symbol, "keep");
}

#[test]
fn update_members_of_the_wrong_kind_take_defaults() {
    let mut tokens = vec![token("old", "k", 1, 1)];
    tokens[0].listed = true;
    tokens[0].scope = 9;
    let body = UpdateBody::Fields(UpdateFields {
        status: Some(None),
        score: Some(None),
        listed: Some(None),
        symbol: Some(None),
    });
    assert_eq!(apply_token_update(&mut tokens, "/k", &body).ok(), Some(0));
    assert_eq!((tokens[0].status, tokens[0].scope, tokens[0].listed), (0, 0, false));
    assert_eq!(tokens[0].symbol, "");
    let none = UpdateBody::Fields(UpdateFields { status: None, score: None, listed: None, symbol: None });
    tokens[0].status = 1;
    assert_eq!(apply_token_update(&mut tokens, "/k", &none).ok(), Some(0));
    assert_eq!(tokens[0].status, 1);
}

#[test]
fn update_refusals() {
    let mut tokens = vec![token("a", "k", 1, 1)];
    for body in [UpdateBody::Malformed, UpdateBody::NotObject] {
        let r = apply_token_update(&mut tokens, "/k", &body).unwrap_err();
        assert_eq!((r.status, r.code, r.message.as_str()), (400, Some(-2), "Incorrect params"));
    }
    let body = UpdateBody::Fields(UpdateFields { status: Some(Some(0)), score: None, listed: None, symbol: None });
    let r = apply_token_update(&mut tokens, "/token/Other", &body).unwrap_err();
    assert_eq!((r.status, r.code, r.message.as_str()), (404, Some(-1), "No token other"));
    assert_eq!(tokens[0].status, 1);
}

#[test]
fn update_reply_reports_the_write() {
    let ok = update_reply("/token/ABC", true);
    assert_eq!((ok.status, ok.code, ok.message.as_str()), (200, None, "updated token abc"));
    let failed = update_reply("/token/ABC", false);
    assert_eq!((failed.status, failed.code, failed.message.as_str()), (400, Some(-4), "Cannot write database"));
}

#[test]
fn update_keeps_status_zero_or_one() {
    for v in [0u64, 1, 2, u64::MAX] {
        let mut tokens = vec![token("a", "k", 1, 1)];
        let body = UpdateBody::Fields(UpdateFields { status: Some(Some(v)), score: None, listed: None, symbol: None });
        apply_token_update(&mut tokens, "/k", &body).unwrap();
        assert!(tokens[0].status <= 1);
        assert_eq!(tokens[0].status, if v > 1 { 1 } else { v as u8 });
    }
}

#[test]
fn paths_differing_in_ascii_case_get_the_same_answer() {
    let tokens = vec![token("gZIL", "0xAbC", 1, 1), token("zil", "0xdef", 1, 1)];
    assert_eq!(lookup_token(&tokens, "/token/GZIL").ok(), lookup_token(&tokens, "/token/gzil").ok());
    let a = lookup_token(&tokens, "/token/NoNe").unwrap_err();
    let b = lookup_token(&tokens, "/token/none").unwrap_err();
    assert_eq!((a.status, a.code, a.message), (b.status, b.code, b.message));
    assert_eq!(path_key("/x/ÄbC"), "äbc");
}

#[test]
fn update_token_reads_a_json_body() {
    let mut tokens = vec![token("old", "0xAA", 1, 0), token("keep", "0xbb", 1, 1)];
    let body = br#"{"status": 3, "score": 300, "listed": true, "symbol": "NEW"}"#;
    assert_eq!(update_token(&mut tokens, "/token/0xaa", body).ok(), Some(0));
    assert_eq!((tokens[0].status, tokens[0].scope, tokens[0].listed), (1, 44, true));
    assert_eq!(tokens[0].symbol, "NEW");
    assert_eq!(tokens[1].symbol, "keep");
    let kinds = br#"{"status": "x", "score": -1, "listed": 1, "symbol": 5}"#;
    assert_eq!(update_token(&mut tokens, "/token/0xAA", kinds).ok(), Some(0));
    assert_eq!((tokens[0].status, tokens[0].scope, tokens[0].listed), (0, 0, false));
    assert_eq!(tokens[0].symbol, "");
    let listed_only = br#"{"listed": true, "other": 1}"#;
    assert_eq!(update_token(&mut tokens, "/token/0xaa", listed_only).ok(), Some(0));
    assert_eq!((tokens[0].status, tokens[0].scope, tokens[0].listed), (0, 0, true));
    assert_eq!(tokens[0].symbol, "");
}

#[test]
fn update_token_refuses_a_body_that_is_not_an_object() {
    let mut tokens = vec![token("a", "k", 1, 1)];
    for body in [&b"not json"[..], &b"{"[..], &b"[1, 2]"[..], &b"7"[..], &b"null"[..], &b""[..]] {
        let r = update_token(&mut tokens, "/k", body).unwrap_err();
        assert_eq!((r.status, r.code, r.message.as_str()), (400, Some(-2), "Incorrect params"));
        assert_eq!((tokens[0].status, tokens[0].symbol.as_str()), (1, "a"));
    }
    let r = update_token(&mut tokens, "/token/none", br#"{"status": 0}"#).unwrap_err();
    assert_eq!((r.status, r.code, r.message.as_str()), (404, Some(-1), "No token none"));
    assert_eq!(tokens[0].status, 1);
}
