use safehouse::completion::{timestamp, validate_completion_meta};
use safehouse::identifiers::{room_alias_valid, room_id_valid, user_id_error};
use safehouse::json::{from_value, to_value, Json};

fn j(text: &str) -> Json {
    Json::parse(text).unwrap()
}

#[test]
fn values_are_printed_as_they_were_read() {
    for text in [
        "null",
        "true",
        "0",
        "18446744073709551615",
        "-9223372036854775808",
        "1.5",
        r#""a \"quoted\" → text\n""#,
        "[]",
        "{}",
        r#"[1,[2,{"a":null}],"x"]"#,
        r#"{"a":{"b":[{}]},"z":1}"#,
    ] {
        assert_eq!(j(text).print(), text);
    }
}

#[test]
fn objects_are_printed_in_the_order_of_their_names() {
    assert_eq!(j(r#"{"b":1,"a":2}"#).print(), r#"{"a":2,"b":1}"#);
}

#[test]
fn the_last_of_two_fields_of_one_name_counts() {
    assert_eq!(j(r#"{"a":1,"a":2}"#).get_u64("a"), Some(2));
    let twice = Json::Object(vec![
        ("a".to_owned(), Json::unsigned(1)),
        ("a".to_owned(), Json::unsigned(2)),
    ]);
    assert_eq!(twice.get_u64("a"), Some(2));
    assert_eq!(twice.print(), r#"{"a":2}"#);
}

#[test]
fn a_text_that_is_not_json_says_why() {
    assert!(!Json::parse("{").unwrap_err().is_empty());
    assert_eq!(
        Json::parse("nope").unwrap_err(),
        serde_json::from_str::<serde_json::Value>("nope").unwrap_err().to_string()
    );
}

#[test]
fn numbers_are_told_apart() {
    assert_eq!(j("7").as_u64(), Some(7));
    assert_eq!(j("-7").as_u64(), None);
    assert_eq!(j("7.0").as_u64(), None);
    assert_eq!(j("\"7\"").as_u64(), None);
    assert_eq!(Json::signed(-3).print(), "-3");
    assert_eq!(Json::signed(3).as_u64(), Some(3));
    assert_eq!(Json::unsigned(u64::MAX).print(), "18446744073709551615");
}

#[test]
fn what_is_not_there_is_missing() {
    let v = j(r#"{"a":"x","b":true,"c":null,"d":[1]}"#);
    assert_eq!(v.get_str("a"), Some("x"));
    assert_eq!(v.get_str("b"), None);
    assert_eq!(v.get_bool("b"), Some(true));
    assert_eq!(v.get_bool("a"), None);
    assert!(v.get("c").unwrap().is_null());
    assert!(v.get("e").is_none());
    assert_eq!(v.get("d").unwrap().as_array().unwrap().len(), 1);
    assert!(v.is_object());
    assert!(j("[]").get("a").is_none());
    assert!(j("[]").as_bool().is_none());
}

#[test]
fn lists_and_missing_texts_are_made() {
    assert_eq!(Json::texts(&["a".to_owned(), "b".to_owned()]).print(), r#"["a","b"]"#);
    assert_eq!(Json::optional_text(&None).print(), "null");
    assert_eq!(Json::optional_text(&Some("a".to_owned())).print(), "\"a\"");
    assert_eq!(Json::text("a").print(), "\"a\"");
}

#[test]
fn values_are_laid_out_in_lines() {
    assert_eq!(j(r#"{"a":[1]}"#).print_pretty(), "{\n  \"a\": [\n    1\n  ]\n}");
}

#[test]
fn a_copy_is_the_same_value() {
    let v = j(r#"{"a":[1,-2.5,"x",null,true,{}]}"#);
    assert_eq!(v.clone().print(), v.print());
}

#[test]
fn identifiers_are_checked() {
    assert_eq!(user_id_error("@a:example.org"), None);
    assert!(user_id_error("not-a-user-id").is_some());
    assert!(room_id_valid("!a:example.org"));
    assert!(room_id_valid("!"));
    assert!(room_id_valid(&format!("!{}", "x".repeat(300))));
    assert!(!room_id_valid("a:example.org"));
    assert!(!room_id_valid(""));
    assert!(!room_id_valid("!a\0"));
    assert!(room_alias_valid("#a:example.org"));
    assert!(!room_alias_valid("#a"));
    assert!(!room_alias_valid("a:example.org"));
}

#[test]
fn timestamps_are_those_of_the_internet() {
    for good in [
        "2026-07-29T10:00:00Z",
        "2026-07-29t10:00:00z",
        "2026-07-29T10:00:00.123+02:00",
        "2024-02-29T23:59:59-00:00",
    ] {
        assert!(timestamp(good), "{good}");
    }
    for bad in [
        "",
        "last tuesday",
        "2026-07-29",
        "2026-07-29T10:00:00",
        "2026-13-29T10:00:00Z",
        "2026-07-32T10:00:00Z",
        "2026-07-29T24:00:00Z",
        "2026-07-29T10:60:00Z",
        "2026-07-29T10:00:00.Z",
        "2026-07-29T10:00:00+24:00",
        "2026-07-29T10:00:00Zx",
    ] {
        assert!(!timestamp(bad), "{bad}");
    }
}

#[test]
fn each_fault_of_a_completion_is_named() {
    assert_eq!(validate_completion_meta(&j("[]")).unwrap_err(), "not an object");
    assert!(validate_completion_meta(&j("{}")).unwrap_err().contains("schema"));
    let mut text = r#"{"schema":"completion-v1""#.to_owned();
    for (name, value) in [
        ("agent", "a"),
        ("repo", "r"),
        ("ref", "x"),
        ("result", "success"),
        ("started_at", "2026-07-29T10:00:00Z"),
        ("completed_at", "2026-07-29T10:05:00Z"),
    ] {
        let fault = validate_completion_meta(&j(&format!("{text}}}"))).unwrap_err();
        assert!(fault.contains(name), "{fault}");
        text.push_str(&format!(",{name:?}:{value:?}"));
    }
    assert!(validate_completion_meta(&j(&format!("{text}}}"))).is_ok());
}

#[test]
fn a_value_goes_to_the_json_crate_and_back() {
    let reserved = Json::Object(vec![("$serde_json::private::RawValue".to_owned(), Json::text("[1]"))]);
    let deep = (0..200).fold(Json::unsigned(1), |inner, _| Json::Array(vec![inner]));
    for value in [j(r#"{"a":[1,-2.5,"x",null,true,{}]}"#), reserved, deep] {
        assert_eq!(from_value(to_value(&value)).print(), value.print());
    }
    assert_eq!(to_value(&Json::text("a")).as_str(), Some("a"));
}
