use uni_llm_api::json::{parse, put_member, to_text, Json, Number};

fn obj(members: Vec<(&str, Json)>) -> Json {
    Json::Object(members.into_iter().map(|(k, v)| (k.to_string(), v)).collect())
}

#[test]
fn parse_reads_every_kind_of_value() {
    let doc = parse(r#"{"a":null,"b":true,"c":7,"d":-3,"e":1.5,"f":"x","g":[1,"y"],"h":{}}"#)
        .expect("a document");
    let expected = obj(vec![
        ("a", Json::Null),
        ("b", Json::Bool(true)),
        ("c", Json::Number(Number::Unsigned(7))),
        ("d", Json::Number(Number::Negative(-3))),
        ("e", Json::Number(Number::Real("1.5".to_string()))),
        ("f", Json::Str("x".to_string())),
        ("g", Json::Array(vec![Json::Number(Number::Unsigned(1)), Json::Str("y".to_string())])),
        ("h", Json::Object(vec![])),
    ]);
    assert_eq!(doc, expected);
}

#[test]
fn parse_keeps_the_order_of_members() {
    let doc = parse(r#"{"z":1,"a":2,"m":3}"#).expect("a document");
    match doc {
        Json::Object(members) => {
            let names: Vec<&str> = members.iter().map(|(k, _)| k.as_str()).collect();
            assert_eq!(names, vec!["z", "a", "m"]);
        }
        other => panic!("not an object: {:?}", other),
    }
}

#[test]
fn parse_lets_the_last_of_two_equal_names_count() {
    let doc = parse(r#"{"a":1,"a":2}"#).expect("a document");
    assert_eq!(doc, obj(vec![("a", Json::Number(Number::Unsigned(2)))]));
}

#[test]
fn parse_refuses_what_is_no_document() {
    assert_eq!(parse(""), None);
    assert_eq!(parse("{"), None);
    assert_eq!(parse("[DONE]"), None);
    assert_eq!(parse(r#"{"a":1} trailing"#), None);
    assert_eq!(parse("{'a':1}"), None);
}

#[test]
fn parse_accepts_white_space_around_a_document() {
    assert_eq!(parse(" \t{\"a\":1}\r\n"), Some(obj(vec![("a", Json::Number(Number::Unsigned(1)))])));
}

#[test]
fn numbers_at_the_limits_keep_their_kind() {
    assert_eq!(parse("18446744073709551615"), Some(Json::Number(Number::Unsigned(u64::MAX))));
    assert_eq!(parse("-9223372036854775808"), Some(Json::Number(Number::Negative(i64::MIN))));
    assert_eq!(parse("0"), Some(Json::Number(Number::Unsigned(0))));
    assert_eq!(parse("-1"), Some(Json::Number(Number::Negative(-1))));
    match parse("18446744073709551616") {
        Some(Json::Number(Number::Real(_))) => {}
        other => panic!("expected a real number, got {:?}", other),
    }
}

#[test]
fn to_text_writes_compact_json_in_member_order() {
    let doc = obj(vec![
        ("model", Json::Str("m".to_string())),
        ("n", Json::Number(Number::Unsigned(3))),
        ("neg", Json::Number(Number::Negative(-4))),
        ("t", Json::Number(Number::Real("0.7".to_string()))),
        ("list", Json::Array(vec![Json::Null, Json::Bool(false)])),
        ("inner", obj(vec![("k", Json::Str("v".to_string()))])),
    ]);
    assert_eq!(
        to_text(&doc),
        r#"{"model":"m","n":3,"neg":-4,"t":0.7,"list":[null,false],"inner":{"k":"v"}}"#
    );
}

#[test]
fn to_text_escapes_strings() {
    let doc = Json::Str("a\"b\\c\nd\u{1}".to_string());
    assert_eq!(to_text(&doc), r#""a\"b\\c\nd\u0001""#);
}

#[test]
fn to_text_writes_null_for_a_real_that_is_no_number() {
    assert_eq!(to_text(&Json::Number(Number::Real("seven".to_string()))), "null");
}

#[test]
fn text_round_trips_through_parse() {
    let text = r#"{"temperature":0.7,"top_k":40,"stop":["a","b"],"nested":{"x":-1.25e-3}}"#;
    let doc = parse(text).expect("a document");
    let again = parse(&to_text(&doc)).expect("a document");
    assert_eq!(doc, again);
    assert_eq!(
        to_text(&doc),
        r#"{"temperature":0.7,"top_k":40,"stop":["a","b"],"nested":{"x":-0.00125}}"#
    );
}

#[test]
fn get_finds_the_first_member_of_a_name() {
    let doc = obj(vec![
        ("a", Json::Number(Number::Unsigned(1))),
        ("b", Json::Null),
        ("a", Json::Number(Number::Unsigned(2))),
    ]);
    assert_eq!(doc.get("a"), Some(&Json::Number(Number::Unsigned(1))));
    assert_eq!(doc.get("b"), Some(&Json::Null));
    assert_eq!(doc.get("c"), None);
    assert_eq!(doc.get_present("b"), None);
    assert_eq!(doc.get_present("a"), Some(&Json::Number(Number::Unsigned(1))));
    assert_eq!(Json::Null.get("a"), None);
    assert_eq!(Json::Array(vec![]).get("a"), None);
}

#[test]
fn put_member_replaces_in_place_or_appends() {
    let mut members = vec![
        ("a".to_string(), Json::Number(Number::Unsigned(1))),
        ("b".to_string(), Json::Number(Number::Unsigned(2))),
    ];
    put_member(&mut members, "a".to_string(), Json::Bool(true));
    put_member(&mut members, "c".to_string(), Json::Null);
    assert_eq!(
        members,
        vec![
            ("a".to_string(), Json::Bool(true)),
            ("b".to_string(), Json::Number(Number::Unsigned(2))),
            ("c".to_string(), Json::Null),
        ]
    );
}

#[test]
fn clone_copies_the_whole_tree() {
    let doc = parse(r#"{"a":[1,{"b":[null,"x",2.5]}],"c":{"d":{"e":false}}}"#).expect("a document");
    assert_eq!(doc.clone(), doc);
}

#[test]
fn real_numbers_are_stable_under_printing_and_reading() {
    for text in [
        "0.1",
        "-0.0",
        "1e-7",
        "1.5e300",
        "123456789.123456789",
        "0.30000000000000004",
        "4.9e-324",
        "1.7976931348623157e308",
        "2.2250738585072014e-308",
        "9007199254740993.0",
        "0.1234567890123456789012345678901234567890",
        "1E5",
        "100000000000000000000",
    ] {
        let doc = parse(text).expect("a number");
        let once = to_text(&doc);
        let again = to_text(&parse(&once).expect("a number"));
        assert_eq!(once, again, "text {}", text);
        assert!(matches!(doc, Json::Number(Number::Real(_))), "text {}", text);
    }
    assert_eq!(parse("1e400"), None);
    assert_eq!(parse("01"), None);
    assert_eq!(parse("NaN"), None);
    assert_eq!(to_text(&parse("1E5").expect("a number")), "100000.0");
    assert_eq!(to_text(&parse("1e-7").expect("a number")), "1e-7");
}

#[test]
fn strings_keep_every_character() {
    let text = r#""tab\t quote\" slash\/ back\\ nul\u0000 eé pair😀 raw😀""#;
    let doc = parse(text).expect("a string");
    assert_eq!(doc, Json::Str("tab\t quote\" slash/ back\\ nul\u{0} e\u{e9} pair\u{1f600} raw\u{1f600}".to_string()));
    assert_eq!(parse(&to_text(&doc)), Some(doc));
    assert_eq!(parse(r#""\ud83d""#), None);
}
