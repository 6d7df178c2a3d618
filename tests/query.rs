use things_to_check::query::{parse_numeral, parse_query, push_decimal, to_query_string, ItemQuery, QueryError};

#[test]
fn decimal_numerals() {
    let mut out = String::new();
    push_decimal(&mut out, 0);
    assert_eq!(out, "0");
    let mut out = String::from("n=");
    push_decimal(&mut out, 1234);
    assert_eq!(out, "n=1234");
    let mut out = String::new();
    push_decimal(&mut out, usize::MAX);
    assert_eq!(out, usize::MAX.to_string());
}

#[test]
fn numerals_parse() {
    assert_eq!(parse_numeral("0"), Some(0));
    assert_eq!(parse_numeral("007"), Some(7));
    assert_eq!(parse_numeral("42"), Some(42));
    assert_eq!(parse_numeral(&usize::MAX.to_string()), Some(usize::MAX));
    assert_eq!(parse_numeral(""), None);
    assert_eq!(parse_numeral("-1"), None);
    assert_eq!(parse_numeral("4x"), None);
    assert_eq!(parse_numeral("99999999999999999999999"), None);
}

#[test]
fn query_strings_written() {
    assert_eq!(to_query_string(&ItemQuery::default()), "");
    assert_eq!(to_query_string(&ItemQuery::from(3)), "item=3");
    assert_eq!(to_query_string(&ItemQuery { item: Some(105) }), "item=105");
}

#[test]
fn query_strings_match_urlencoded_form() {
    let written = to_query_string(&ItemQuery::from(17));
    let expected = serde_urlencoded::to_string([("item", 17usize)]).unwrap();
    assert_eq!(written, expected);
}

#[test]
fn query_strings_read() {
    assert_eq!(parse_query(""), Ok(ItemQuery { item: None }));
    assert_eq!(parse_query("item=1"), Ok(ItemQuery { item: Some(1) }));
    assert_eq!(parse_query("utm=x&item=12&ref=y"), Ok(ItemQuery { item: Some(12) }));
    assert_eq!(parse_query("other=5"), Ok(ItemQuery { item: None }));
    assert_eq!(parse_query("items=5&&"), Ok(ItemQuery { item: None }));
    assert_eq!(parse_query("item=abc"), Err(QueryError::InvalidItem));
    assert_eq!(parse_query("item="), Err(QueryError::InvalidItem));
    assert_eq!(parse_query("item"), Err(QueryError::InvalidItem));
    assert_eq!(parse_query("item=1&item=2"), Err(QueryError::InvalidItem));
    assert_eq!(parse_query("item=99999999999999999999999"), Err(QueryError::InvalidItem));
}

#[test]
fn query_round_trip() {
    for item in [None, Some(0), Some(1), Some(9), Some(10), Some(12345), Some(usize::MAX)] {
        let q = ItemQuery { item };
        assert_eq!(parse_query(&to_query_string(&q)), Ok(q));
    }
}
