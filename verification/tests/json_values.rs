use simplecc::json::{object1, Fields, Json};

fn json(text: &str) -> Json {
    Json::parse(text.as_bytes()).unwrap()
}

#[test]
fn documents_are_read_and_written() {
    for text in [
        "null",
        "true",
        "0",
        "-1",
        "18446744073709551615",
        "-9223372036854775808",
        "1.5",
        "1e300",
        "\"a\\\"b\\u0001é\"",
        "[]",
        "[1,[2,{}],null]",
        "{\"a\":{\"b\":[]},\"z\":false}",
    ] {
        let value: serde_json::Value = serde_json::from_str(text).unwrap();
        assert_eq!(json(text).render(), value.to_string());
        assert_eq!(json(&json(text).render()).render(), json(text).render());
        assert_eq!(json(text).copy().render(), json(text).render());
    }
}

#[test]
fn documents_that_are_none_are_refused() {
    for text in ["", "{", "{ invalid json", "[1,]", "nul", "\"\u{1}\"", "1 2"] {
        let error = serde_json::from_slice::<serde_json::Value>(text.as_bytes()).unwrap_err();
        match Json::parse(text.as_bytes()) {
            Ok(_) => panic!("{text:?} was read"),
            Err(e) => assert_eq!(e, error.to_string()),
        }
    }
    assert!(Json::parse(b"\"\xff\"").is_err());
}

#[test]
fn the_last_of_two_members_counts() {
    assert_eq!(json(r#"{"a":1,"a":2}"#).render(), r#"{"a":2}"#);
}

#[test]
fn members_are_looked_up() {
    let v = json(r#"{"s":"x","n":7,"neg":-7,"big":4294967296,"f":1.0,"b":true,"nil":null,"l":[1]}"#);
    assert_eq!(v.str_at("s"), Some("x"));
    assert_eq!(v.text_at("n"), "");
    assert_eq!(v.u32_at("n"), Some(7));
    assert_eq!(v.u32_at("neg"), None);
    assert_eq!(v.u32_at("big"), None);
    assert_eq!(v.number_at("big"), 0);
    assert_eq!(v.int_at("neg"), Some(-7));
    assert_eq!(v.at("big").as_u64(), Some(4294967296));
    assert_eq!(v.int_at("f"), None);
    assert_eq!(v.bool_at("b"), Some(true));
    assert!(v.get("nil").unwrap().is_null());
    assert!(v.opt_at("nil").is_none());
    assert!(v.opt_at("s").is_some());
    assert!(v.get("missing").is_none());
    assert!(v.at("missing").is_null());
    assert_eq!(v.array_at("l").unwrap().len(), 1);
    assert!(v.array_at("s").is_none());
    assert!(json("[1]").get("s").is_none());
    assert_eq!(v.keys().len(), 8);
}

#[test]
fn objects_are_built() {
    let mut f = Fields::new();
    f.put_str("b", "x");
    f.put_u64("a", 1);
    f.put_bool("c", false);
    f.put_str("b", "y");
    assert!(f.lacks("d") && !f.lacks("a"));
    assert_eq!(f.done().render(), r#"{"a":1,"b":"y","c":false}"#);
    assert_eq!(object1("k", Json::array1(Json::integer(-3))).render(), r#"{"k":[-3]}"#);
    let names = vec!["a".to_string(), "b".to_string()];
    assert_eq!(Json::string_array(&names).render(), r#"["a","b"]"#);
    assert_eq!(Json::of_option(&Some("t".to_string())).render(), "\"t\"");
}
