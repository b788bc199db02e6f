use gateway_requests::json::JsonValue;

fn text(s: &str) -> JsonValue {
    JsonValue::Text(s.to_string())
}

#[test]
fn field_is_the_first_of_its_name() {
    let object = JsonValue::Object(vec![
        ("a".to_string(), JsonValue::Natural(1)),
        ("b".to_string(), JsonValue::Natural(2)),
        ("a".to_string(), JsonValue::Natural(3)),
        ("".to_string(), JsonValue::Null),
    ]);
    assert!(object.is_object());
    assert_eq!(object.field("a"), Some(&JsonValue::Natural(1)));
    assert_eq!(object.field("b"), Some(&JsonValue::Natural(2)));
    assert_eq!(object.field(""), Some(&JsonValue::Null));
    assert_eq!(object.field("c"), None);
    assert_eq!(object.field("A"), None);
    assert_eq!(JsonValue::Object(vec![]).field("a"), None);
}

#[test]
fn only_objects_have_fields() {
    for value in [
        JsonValue::Null,
        JsonValue::Bool(false),
        JsonValue::Natural(0),
        text("a"),
        JsonValue::List(vec![text("a")]),
    ] {
        assert!(!value.is_object());
        assert_eq!(value.field("a"), None);
    }
}

#[test]
fn text_and_bool_are_read_from_their_kind_only() {
    assert_eq!(text("hello").as_text(), Some(&"hello".to_string()));
    assert_eq!(JsonValue::from_text("hello"), text("hello"));
    assert_eq!(JsonValue::Bool(true).as_text(), None);
    assert_eq!(JsonValue::Null.as_text(), None);
    assert_eq!(JsonValue::Bool(true).as_bool(), Some(true));
    assert_eq!(JsonValue::Bool(false).as_bool(), Some(false));
    assert_eq!(text("true").as_bool(), None);
    assert_eq!(JsonValue::Natural(1).as_bool(), None);
}

#[test]
fn bytes_are_an_array_of_numbers_up_to_255() {
    assert_eq!(
        JsonValue::from_bytes(&[0, 1, 255]),
        JsonValue::List(vec![
            JsonValue::Natural(0),
            JsonValue::Natural(1),
            JsonValue::Natural(255)
        ])
    );
    assert_eq!(JsonValue::from_bytes(&[]), JsonValue::List(vec![]));
    assert_eq!(
        JsonValue::from_bytes(&[7, 8, 9]).as_bytes(),
        Some(vec![7, 8, 9])
    );
    assert_eq!(JsonValue::List(vec![]).as_bytes(), Some(vec![]));
    assert_eq!(
        JsonValue::List(vec![JsonValue::Natural(255), JsonValue::Natural(256)]).as_bytes(),
        None
    );
    assert_eq!(
        JsonValue::List(vec![JsonValue::Natural(u64::MAX)]).as_bytes(),
        None
    );
    assert_eq!(
        JsonValue::List(vec![JsonValue::Natural(1), text("2")]).as_bytes(),
        None
    );
    assert_eq!(
        JsonValue::List(vec![JsonValue::NonNatural("-1".to_string())]).as_bytes(),
        None
    );
    assert_eq!(text("abc").as_bytes(), None);
    assert_eq!(JsonValue::Natural(1).as_bytes(), None);
}

#[test]
fn occurrences_count_the_fields_of_a_name() {
    let object = JsonValue::Object(vec![
        ("a".to_string(), JsonValue::Natural(1)),
        ("b".to_string(), JsonValue::Natural(2)),
        ("a".to_string(), JsonValue::Natural(3)),
        ("a".to_string(), JsonValue::Null),
    ]);
    assert_eq!(object.occurrences("a"), 3);
    assert_eq!(object.occurrences("b"), 1);
    assert_eq!(object.occurrences("c"), 0);
    assert_eq!(object.occurrences(""), 0);
    assert_eq!(JsonValue::Object(vec![]).occurrences("a"), 0);
    assert_eq!(JsonValue::List(vec![text("a")]).occurrences("a"), 0);
    assert_eq!(text("a").occurrences("a"), 0);
}
