use booklet::{Definition, JsonValue};

fn s(t: &str) -> JsonValue {
    JsonValue::Str(t.to_string())
}

fn obj(fields: Vec<(&str, JsonValue)>) -> JsonValue {
    JsonValue::Object(fields.into_iter().map(|(k, v)| (k.to_string(), v)).collect())
}

fn response() -> JsonValue {
    JsonValue::Array(vec![obj(vec![
        ("word", s("hello")),
        ("phonetic", JsonValue::Null),
        (
            "meanings",
            JsonValue::Array(vec![
                obj(vec![(
                    "definitions",
                    JsonValue::Array(vec![
                        obj(vec![("definition", s("A greeting.")), ("example", s("hi"))]),
                        obj(vec![("definition", s("An exclamation."))]),
                    ]),
                )]),
                obj(vec![
                    ("partOfSpeech", s("verb")),
                    ("definitions", JsonValue::Array(vec![obj(vec![("definition", s("To greet."))])])),
                ]),
            ]),
        ),
    ])])
}

#[test]
fn definitions_of_all_meanings_in_order() {
    let d = Definition::from_json(&response()).unwrap();
    assert_eq!(d.word, "hello");
    assert_eq!(d.list, vec!["A greeting.", "An exclamation.", "To greet."]);
}

#[test]
fn shape_mismatches_give_none() {
    assert!(Definition::from_json(&JsonValue::Array(vec![])).is_none());
    assert!(Definition::from_json(&obj(vec![("word", s("x"))])).is_none());
    assert!(Definition::from_json(&JsonValue::Array(vec![obj(vec![("word", s("x"))])])).is_none());
    let no_text = JsonValue::Array(vec![obj(vec![
        ("word", s("x")),
        ("meanings", JsonValue::Array(vec![obj(vec![("definitions", JsonValue::Array(vec![obj(vec![("definition", JsonValue::Bool(true))])]))])])),
    ])]);
    assert!(Definition::from_json(&no_text).is_none());
    let not_word = JsonValue::Array(vec![obj(vec![
        ("word", JsonValue::Number("3".to_string())),
        ("meanings", JsonValue::Array(vec![])),
    ])]);
    assert!(Definition::from_json(&not_word).is_none());
}

#[test]
fn empty_meanings_give_an_empty_list() {
    let v = JsonValue::Array(vec![obj(vec![("word", s("x")), ("meanings", JsonValue::Array(vec![]))])]);
    let d = Definition::from_json(&v).unwrap();
    assert_eq!(d.word, "x");
    assert!(d.list.is_empty());
}

#[test]
fn definition_as_text() {
    let d = Definition { word: "hello".to_string(), list: vec!["A greeting.".to_string(), "Hi.".to_string()] };
    assert_eq!(d.to_text(), "hello\n0. A greeting.1. Hi.");
}
