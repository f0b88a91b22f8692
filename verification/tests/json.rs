use claude_kanban::json::{as_array, as_str, as_u64, get, parse, parse_list, text_opt, text_or_empty, Json};

#[test]
fn every_kind_of_value_is_read() {
    let j = parse(r#"{"s":"x","n":7,"f":1.5,"m":-1,"b":true,"z":null,"a":[1,"two"]}"#).unwrap();
    let at = |key| get(Some(&j), key);
    assert_eq!(as_str(at("s")).unwrap(), "x");
    assert_eq!(as_u64(at("n")), Some(7));
    assert_eq!((as_u64(at("f")), as_u64(at("m"))), (None, None), "only whole numbers from zero up");
    assert!(matches!(at("b"), Some(Json::Bool(true))));
    assert!(matches!(at("z"), Some(Json::Null)));
    let items = as_array(at("a")).unwrap();
    assert_eq!((as_u64(items.first()), as_str(items.get(1)).unwrap().as_str()), (Some(1), "two"));
    assert!(at("missing").is_none() && get(at("missing"), "deeper").is_none());
    assert_eq!(text_or_empty(at("n")), "");
    assert_eq!(text_opt(at("s")).as_deref(), Some("x"));
    assert_eq!(text_opt(at("z")), None);
}

#[test]
fn trouble_is_told_in_the_parsers_words() {
    assert_eq!(parse("{").err().unwrap(), "EOF while parsing an object at line 1 column 1");
    assert_eq!(parse_list("[1, 2]").unwrap().len(), 2);
    assert!(parse_list("{}").err().unwrap().starts_with("invalid type: map, expected a sequence"));
}

#[test]
fn a_repeated_member_counts_once_with_its_last_value() {
    let j = parse(r#"{"a":1,"a":2}"#).unwrap();
    assert_eq!(as_u64(get(Some(&j), "a")), Some(2));
}
