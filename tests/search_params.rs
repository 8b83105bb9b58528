use user_auth::search::{search_query, SearchQuery, DEFAULT_LIMIT, DEFAULT_OFFSET};

#[test]
fn defaults_when_absent() {
    assert_eq!(
        search_query(None, None, None),
        SearchQuery { pattern: "%%".to_string(), limit: 10, offset: 0 }
    );
    assert_eq!((DEFAULT_LIMIT, DEFAULT_OFFSET), (10, 0));
}

#[test]
fn explicit_parameters() {
    assert_eq!(
        search_query(Some("ann"), Some("25"), Some("50")),
        SearchQuery { pattern: "%ann%".to_string(), limit: 25, offset: 50 }
    );
}

#[test]
fn signed_and_extreme_integers() {
    let q = search_query(Some(""), Some("+7"), Some("-3"));
    assert_eq!((q.limit, q.offset), (7, -3));
    let q = search_query(None, Some("9223372036854775807"), Some("-9223372036854775808"));
    assert_eq!((q.limit, q.offset), (i64::MAX, i64::MIN));
}

#[test]
fn unparsable_integers_fall_back() {
    let q = search_query(None, Some("ten"), Some(" 5"));
    assert_eq!((q.limit, q.offset), (10, 0));
    let q = search_query(None, Some("9223372036854775808"), Some(""));
    assert_eq!((q.limit, q.offset), (10, 0));
    let q = search_query(None, Some("+"), Some("-"));
    assert_eq!((q.limit, q.offset), (10, 0));
    let q = search_query(None, Some("1.5"), Some("0x10"));
    assert_eq!((q.limit, q.offset), (10, 0));
}

#[test]
fn name_is_kept_verbatim_in_pattern() {
    assert_eq!(search_query(Some("Jo Ann"), None, None).pattern, "%Jo Ann%");
    assert_eq!(search_query(Some("zoë"), None, None).pattern, "%zoë%");
}
