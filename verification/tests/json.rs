use ement_e2ee::json::Json;
use ement_e2ee::json_text::{parse_json, write_bytes, write_json, write_pretty};
use ement_e2ee::string_map::StringMap;
use ement_e2ee::text::{join, split_once, split_text, strip_prefix, trim_end, trim_start};

#[test]
fn values_survive_parsing_and_writing() {
    let text = r#"{"a":[null,true,1,-2,1.5,1e30,"x\"y"],"b":{"c":{}},"n":18446744073709551615}"#;
    let j = parse_json(text.as_bytes()).ok().unwrap();
    assert_eq!(write_json(&j), r#"{"a":[null,true,1,-2,1.5,1e+30,"x\"y"],"b":{"c":{}},"n":18446744073709551615}"#);
    assert_eq!(write_json(&j.copy()), write_json(&j));
    assert_eq!(j.get_natural("n"), Some(u64::MAX));
    assert_eq!(write_pretty(&parse_json(b"{\"a\":1}").ok().unwrap()), "{\n  \"a\": 1\n}");
    assert_eq!(write_bytes(&Json::text("\u{e9}")), "\"\u{e9}\"".as_bytes());
    assert_eq!(
        parse_json(b"{").err().unwrap(),
        "EOF while parsing an object at line 1 column 1"
    );
}

#[test]
fn objects_are_kept_in_order_of_keys() {
    let j = parse_json(br#"{"b":1,"a":2,"b":3}"#).ok().unwrap();
    assert_eq!(write_json(&j), r#"{"a":2,"b":3}"#);
    let mut j = Json::object();
    assert!(j.is_empty_object());
    j.put("z", Json::Natural(1));
    j.put("a", Json::Bool(false));
    j.put_default("z", Json::Null);
    j.put_default("m", Json::text_or_null(None));
    assert_eq!(write_json(&j), r#"{"a":false,"m":null,"z":1}"#);
    assert!(matches!(j.take("a"), Some(Json::Bool(false))));
    j.take_out("nothing");
    assert_eq!(write_json(&j), r#"{"m":null,"z":1}"#);
    assert!(!j.is_empty_object());
    let mut s = Json::text("x");
    s.put("a", Json::Null);
    assert_eq!(s.as_str(), Some("x"));
}

#[test]
fn members_are_found() {
    let j = parse_json(br#"{"a":{"b":"c","n":-1},"l":[1]}"#).ok().unwrap();
    assert_eq!(j.get2_text("a", "b"), Some("c".to_owned()));
    assert_eq!(j.get2_text("a", "x"), None);
    assert!(j.get2("a", "n").is_some());
    assert_eq!(j.get("a").unwrap().get_natural("n"), None);
    assert_eq!(j.get_list("l").unwrap().len(), 1);
    assert!(j.get_list("a").is_none());
    assert!(j.is_object());
}

#[test]
fn maps_keep_their_keys_sorted() {
    let mut m: StringMap<u8> = StringMap::new();
    m.insert("b".to_owned(), 1);
    m.insert("a".to_owned(), 2);
    m.insert("b".to_owned(), 3);
    assert_eq!(m.len(), 2);
    assert_eq!(m.entry_at(0), (&"a".to_owned(), &2));
    assert_eq!(m.get("b"), Some(&3));
    assert_eq!(m.take("b"), Some(3));
    assert_eq!(m.get("b"), None);
    m.remove("a");
    assert_eq!(m.len(), 0);
}

#[test]
fn texts_are_taken_apart() {
    assert_eq!(split_text("a//b", '/'), vec!["a", "", "b"]);
    assert_eq!(split_text("", '/'), vec![""]);
    assert_eq!(split_once("a/b/c", '/'), Some(("a".to_owned(), "b/c".to_owned())));
    assert_eq!(split_once("abc", '/'), None);
    assert_eq!(strip_prefix("Bearer x", "Bearer "), Some("x".to_owned()));
    assert_eq!(strip_prefix("Bear", "Bearer "), None);
    assert_eq!(trim_start("//a/", '/'), "a/");
    assert_eq!(trim_end("a//", '/'), "a");
    assert_eq!(join(&vec!["a".to_owned(), "b".to_owned()], ", "), "a, b");
    assert_eq!(join(&vec![], ", "), "");
}
