use mojaloop_api::json::{json_parse, json_write, Json};
use mojaloop_api::query::{percent_encode, QueryParameterSet};
use mojaloop_api::text::{u64_from_dec, u64_to_dec};

fn parse(s: &str) -> Option<Json> {
    json_parse(&s.as_bytes().to_vec())
}

#[test]
fn writes_a_flat_object() {
    let mut ms: Vec<(String, Json)> = Vec::new();
    ms.push(("name".to_string(), Json::Str("fsp1".to_string())));
    ms.push(("currency".to_string(), Json::Str("USD".to_string())));
    let out = json_write(&Json::Obj(ms));
    assert_eq!(out, "{\"name\":\"fsp1\",\"currency\":\"USD\"}");
}

#[test]
fn writes_numbers_verbatim() {
    let mut items: Vec<Json> = Vec::new();
    items.push(Json::Num("-12.50".to_string()));
    items.push(Json::Num("42".to_string()));
    items.push(Json::Bool(true));
    items.push(Json::Null);
    let out = json_write(&Json::Arr(items));
    assert_eq!(out, "[-12.50,42,true,null]");
}

#[test]
fn escapes_strings_when_writing() {
    let out = json_write(&Json::Str("a\"b\\c\nd".to_string()));
    assert_eq!(out, "\"a\\\"b\\\\c\\nd\"");
}

#[test]
fn parses_what_it_writes() {
    let mut ms: Vec<(String, Json)> = Vec::new();
    ms.push(("k".to_string(), Json::Num("7".to_string())));
    ms.push(("s".to_string(), Json::Str("x y".to_string())));
    let text = json_write(&Json::Obj(ms));
    let back = parse(&text).expect("own output must parse");
    match back {
        Json::Obj(fields) => {
            assert_eq!(fields.len(), 2);
            assert_eq!(fields[0].0, "k");
            match &fields[0].1 {
                Json::Num(t) => assert_eq!(t, "7"),
                other => panic!("expected a number, got {:?}", other),
            }
            match &fields[1].1 {
                Json::Str(s) => assert_eq!(s, "x y"),
                other => panic!("expected a string, got {:?}", other),
            }
        },
        other => panic!("expected an object, got {:?}", other),
    }
}

#[test]
fn rejects_non_json() {
    assert!(parse("not json").is_none());
    assert!(parse("").is_none());
    assert!(parse("{\"a\":}").is_none());
    assert!(parse("[1,2").is_none());
}

#[test]
fn rejects_trailing_garbage() {
    assert!(parse("{} x").is_none());
    assert!(parse("1 2").is_none());
}

#[test]
fn parses_whitespace_and_nesting() {
    let j = parse(" { \"a\" : [ 1 , { \"b\" : null } ] } ").expect("must parse");
    match j {
        Json::Obj(fields) => {
            assert_eq!(fields.len(), 1);
            match &fields[0].1 {
                Json::Arr(items) => assert_eq!(items.len(), 2),
                other => panic!("expected an array, got {:?}", other),
            }
        },
        other => panic!("expected an object, got {:?}", other),
    }
}

#[test]
fn parses_escapes() {
    match parse("\"a\\n\\t\\\"\\\\\\u0041\"") {
        Some(Json::Str(s)) => assert_eq!(s, "a\n\t\"\\A"),
        other => panic!("expected a string, got {:?}", other),
    }
}

#[test]
fn parses_non_ascii_escapes() {
    match parse("\"caf\\u00e9\"") {
        Some(Json::Str(s)) => assert_eq!(s, "caf\u{e9}"),
        other => panic!("expected a string, got {:?}", other),
    }
    match parse("\"\\u20ac\"") {
        Some(Json::Str(s)) => assert_eq!(s, "\u{20ac}"),
        other => panic!("expected a string, got {:?}", other),
    }
}

#[test]
fn parses_surrogate_pair_escapes() {
    match parse("\"\\uD834\\uDD1E\"") {
        Some(Json::Str(s)) => assert_eq!(s, "\u{1D11E}"),
        other => panic!("expected a string, got {:?}", other),
    }
    let own = parse("\"\\ud83d\\ude00\"").expect("lower-case hex surrogates parse");
    let independent: serde_json::Value =
        serde_json::from_str("\"\\ud83d\\ude00\"").expect("serde_json parses the same text");
    match own {
        Json::Str(s) => assert_eq!(Some(s.as_str()), independent.as_str()),
        other => panic!("expected a string, got {:?}", other),
    }
}

#[test]
fn rejects_lone_surrogate_escapes() {
    assert!(parse("\"\\uD834\"").is_none());
    assert!(parse("\"\\uD834x\"").is_none());
    assert!(parse("\"\\uDD1E\"").is_none());
    assert!(parse("\"\\uD834\\u0041\"").is_none());
}

#[test]
fn keeps_number_text_exactly() {
    match parse("-12.50") {
        Some(Json::Num(t)) => assert_eq!(t, "-12.50"),
        other => panic!("expected a number, got {:?}", other),
    }
    match parse("1e3") {
        Some(Json::Num(t)) => assert_eq!(t, "1e3"),
        other => panic!("expected a number, got {:?}", other),
    }
}

#[test]
fn rejects_leading_zero_numbers() {
    assert!(parse("01").is_none());
    assert!(parse("[01]").is_none());
}

#[test]
fn parses_utf8_strings() {
    match parse("\"caf\u{e9}\"") {
        Some(Json::Str(s)) => assert_eq!(s, "caf\u{e9}"),
        other => panic!("expected a string, got {:?}", other),
    }
}

#[test]
fn own_output_parses_with_an_independent_parser() {
    let mut ms: Vec<(String, Json)> = Vec::new();
    ms.push(("state".to_string(), Json::Str("CLOSED".to_string())));
    ms.push(("n".to_string(), Json::Num("42".to_string())));
    let text = json_write(&Json::Obj(ms));
    let v: serde_json::Value = serde_json::from_str(&text).expect("serde_json must accept it");
    assert_eq!(v.get("state").and_then(|x| x.as_str()), Some("CLOSED"));
    assert_eq!(v.get("n").and_then(|x| x.as_u64()), Some(42));
}

#[test]
fn decimal_rendering_and_parsing() {
    assert_eq!(u64_to_dec(0), "0");
    assert_eq!(u64_to_dec(907), "907");
    assert_eq!(u64_to_dec(u64::MAX), "18446744073709551615");
    assert_eq!(u64_from_dec("907"), Some(907));
    assert_eq!(u64_from_dec("18446744073709551615"), Some(u64::MAX));
    assert_eq!(u64_from_dec("18446744073709551616"), None);
    assert_eq!(u64_from_dec(""), None);
    assert_eq!(u64_from_dec("12a"), None);
}

#[test]
fn percent_encodes_the_query_set() {
    assert_eq!(percent_encode("plain-text_1.2~"), "plain-text_1.2~");
    assert_eq!(percent_encode("a b"), "a%20b");
    assert_eq!(percent_encode("\"<>#"), "%22%3C%3E%23");
    assert_eq!(percent_encode("\u{1}"), "%01");
}

#[test]
fn query_encoding_is_insertion_order_independent() {
    let mut q1 = QueryParameterSet::new();
    q1.insert("currency".to_string(), "USD".to_string());
    q1.insert("state".to_string(), "OPEN".to_string());
    let mut q2 = QueryParameterSet::new();
    q2.insert("state".to_string(), "OPEN".to_string());
    q2.insert("currency".to_string(), "USD".to_string());
    assert_eq!(q1.encode(), q2.encode());
    assert_eq!(q1.encode(), "currency=USD&state=OPEN");
}

#[test]
fn query_insert_replaces_an_existing_key() {
    let mut q = QueryParameterSet::new();
    q.insert("state".to_string(), "OPEN".to_string());
    q.insert("state".to_string(), "CLOSED".to_string());
    assert_eq!(q.encode(), "state=CLOSED");
}

#[test]
fn different_sets_encode_differently() {
    let mut q1 = QueryParameterSet::new();
    q1.insert("currency".to_string(), "USD".to_string());
    let mut q2 = QueryParameterSet::new();
    q2.insert("currency".to_string(), "EUR".to_string());
    let mut q3 = QueryParameterSet::new();
    q3.insert("currency".to_string(), "USD".to_string());
    q3.insert("state".to_string(), "OPEN".to_string());
    assert_ne!(q1.encode(), q2.encode());
    assert_ne!(q1.encode(), q3.encode());
}

#[test]
fn query_values_are_percent_encoded() {
    let mut q = QueryParameterSet::new();
    q.insert("fromDateTime".to_string(), "2021-01-01 00:00".to_string());
    assert_eq!(q.encode(), "fromDateTime=2021-01-01%2000:00");
}
