use dfim::failure::Failure;
use dfim::json::{from_json, from_json_impl, number_value, parse, JsonNumber, JsonValue, Member};
use dfim::value::{GuestValue, Key, Table};

fn whole(i: i64) -> JsonValue {
    JsonValue::Number(JsonNumber { integer: Some(i), float_bits: Some((i as f64).to_bits()) })
}

fn table(entries: Vec<(Key, GuestValue)>) -> GuestValue {
    let mut t = Table::new();
    for (k, v) in entries {
        t.set(k, v);
    }
    GuestValue::Table(t)
}

#[test]
fn scalars_decode_to_their_guest_values() {
    assert_eq!(from_json("null"), Ok(GuestValue::Nil));
    assert_eq!(from_json("true"), Ok(GuestValue::Boolean(true)));
    assert_eq!(from_json("false"), Ok(GuestValue::Boolean(false)));
    assert_eq!(from_json("\"h\\u00e9llo\""), Ok(GuestValue::Str("h\u{e9}llo".into())));
    assert_eq!(from_json("\"\""), Ok(GuestValue::Str("".into())));
}

#[test]
fn numbers_decode_as_integers_where_they_fit() {
    assert_eq!(from_json("0"), Ok(GuestValue::Integer(0)));
    assert_eq!(from_json("-17"), Ok(GuestValue::Integer(-17)));
    assert_eq!(from_json("9223372036854775807"), Ok(GuestValue::Integer(i64::MAX)));
    assert_eq!(from_json("-9223372036854775808"), Ok(GuestValue::Integer(i64::MIN)));
    assert_eq!(
        from_json("9223372036854775808"),
        Ok(GuestValue::Number(9223372036854775808f64.to_bits()))
    );
    assert_eq!(
        from_json("18446744073709551615"),
        Ok(GuestValue::Number(18446744073709551615f64.to_bits()))
    );
    assert_eq!(from_json("1.5"), Ok(GuestValue::Number(1.5f64.to_bits())));
    assert_eq!(from_json("1.0"), Ok(GuestValue::Number(1.0f64.to_bits())));
    assert_eq!(from_json("-2e3"), Ok(GuestValue::Number((-2000.0f64).to_bits())));
}

#[test]
fn number_policy_prefers_integer_then_double_then_fails() {
    let both = JsonNumber { integer: Some(3), float_bits: Some(3.0f64.to_bits()) };
    assert_eq!(number_value(&both), Ok(GuestValue::Integer(3)));
    let double = JsonNumber { integer: None, float_bits: Some(2.5f64.to_bits()) };
    assert_eq!(number_value(&double), Ok(GuestValue::Number(2.5f64.to_bits())));
    let neither = JsonNumber { integer: None, float_bits: None };
    assert_eq!(number_value(&neither), Err(Failure::NumberOutOfRange));
    assert_eq!(from_json_impl(JsonValue::Number(neither)), Err(Failure::NumberOutOfRange));
    assert_eq!(
        from_json_impl(JsonValue::Array(vec![whole(1), JsonValue::Number(neither), whole(3)])),
        Err(Failure::NumberOutOfRange)
    );
    assert_eq!(
        from_json_impl(JsonValue::Object(vec![Member {
            name: "n".into(),
            value: JsonValue::Number(neither)
        }])),
        Err(Failure::NumberOutOfRange)
    );
}

#[test]
fn arrays_become_tables_counted_from_one() {
    assert_eq!(
        from_json("[10, \"x\", true]"),
        Ok(table(vec![
            (Key::Index(1), GuestValue::Integer(10)),
            (Key::Index(2), GuestValue::Str("x".into())),
            (Key::Index(3), GuestValue::Boolean(true)),
        ]))
    );
    assert_eq!(from_json("[]"), Ok(table(vec![])));
}

#[test]
fn null_items_leave_holes() {
    assert_eq!(
        from_json("[null, 2, null]"),
        Ok(table(vec![(Key::Index(2), GuestValue::Integer(2))]))
    );
    assert_eq!(from_json("{\"a\": null}"), Ok(table(vec![])));
}

#[test]
fn objects_become_tables_keyed_by_name() {
    let decoded = from_json("{\"b\": 1, \"a\": {\"c\": [1, 2]}}").unwrap();
    let expected_inner = table(vec![(
        Key::Name("c".into()),
        table(vec![
            (Key::Index(1), GuestValue::Integer(1)),
            (Key::Index(2), GuestValue::Integer(2)),
        ]),
    )]);
    match decoded {
        GuestValue::Table(t) => {
            assert_eq!(t.len(), 2);
            assert_eq!(t.get_name("b"), Some(&GuestValue::Integer(1)));
            assert_eq!(t.get_name("a"), Some(&expected_inner));
        }
        other => panic!("not a table: {other:?}"),
    }
}

#[test]
fn later_member_of_one_name_takes_the_place_of_an_earlier() {
    let doc = JsonValue::Object(vec![
        Member { name: "k".into(), value: whole(1) },
        Member { name: "j".into(), value: whole(2) },
        Member { name: "k".into(), value: whole(3) },
    ]);
    assert_eq!(
        from_json_impl(doc),
        Ok(table(vec![
            (Key::Name("k".into()), GuestValue::Integer(3)),
            (Key::Name("j".into()), GuestValue::Integer(2)),
        ]))
    );
    assert_eq!(from_json("{\"k\": 1, \"k\": 3}"), Ok(table(vec![(
        Key::Name("k".into()),
        GuestValue::Integer(3)
    )])));
}

#[test]
fn malformed_text_is_refused() {
    for text in ["", "{", "[1,]", "nul", "{\"a\" 1}", "1 2", "'x'"] {
        match from_json(text) {
            Err(Failure::Malformed { message }) => assert!(!message.is_empty()),
            other => panic!("{text:?} gave {other:?}"),
        }
        assert!(matches!(parse(text), Err(Failure::Malformed { .. })));
    }
}

#[test]
fn parse_gives_the_document() {
    assert_eq!(parse("null"), Ok(JsonValue::Null));
    assert_eq!(
        parse("[1, {\"a\": \"b\"}]"),
        Ok(JsonValue::Array(vec![
            whole(1),
            JsonValue::Object(vec![Member { name: "a".into(), value: JsonValue::Str("b".into()) }]),
        ]))
    );
    assert_eq!(
        parse("2.5"),
        Ok(JsonValue::Number(JsonNumber { integer: None, float_bits: Some(2.5f64.to_bits()) }))
    );
    assert_eq!(
        parse("18446744073709551615"),
        Ok(JsonValue::Number(JsonNumber {
            integer: None,
            float_bits: Some(18446744073709551615f64.to_bits())
        }))
    );
}

#[test]
fn decoding_agrees_with_serde_json_on_structure() {
    let text = "{\"list\": [1, 2.5, \"three\", [], {}], \"flag\": false, \"name\": \"x\"}";
    let tree: serde_json::Value = serde_json::from_str(text).unwrap();
    let decoded = match from_json(text).unwrap() {
        GuestValue::Table(t) => t,
        other => panic!("not a table: {other:?}"),
    };
    let object = tree.as_object().unwrap();
    assert_eq!(decoded.len(), object.len());
    for (key, value) in object {
        let got = decoded.get_name(key).unwrap();
        match value {
            serde_json::Value::Bool(b) => assert_eq!(got, &GuestValue::Boolean(*b)),
            serde_json::Value::String(s) => assert_eq!(got, &GuestValue::Str(s.clone())),
            serde_json::Value::Array(items) => match got {
                GuestValue::Table(t) => assert_eq!(t.len(), items.len()),
                other => panic!("not a table: {other:?}"),
            },
            other => panic!("unexpected {other:?}"),
        }
    }
}
