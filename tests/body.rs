use never_primp::body::{
    encode_body, field_text, file_part, has_nested_field, plan_multipart, BodyError, BodyKind,
    FileEntry, JsonValue, PartSource,
};

fn text(s: &str) -> JsonValue {
    JsonValue::Text(s.to_string())
}

fn object(fields: Vec<(&str, JsonValue)>) -> JsonValue {
    JsonValue::Object(fields.into_iter().map(|(k, v)| (k.to_string(), v)).collect())
}

fn body_text(b: &Option<Vec<u8>>) -> String {
    String::from_utf8(b.clone().unwrap()).unwrap()
}

#[test]
fn json_string_form_data_is_reserialised() {
    let data = Some(text("{\"a\": [1, 2]}"));
    let b = encode_body(true, false, &None, &data, &None).unwrap();
    assert_eq!(b.kind, BodyKind::ParsedText);
    assert_eq!(b.content_type.as_deref(), Some("application/json"));
    assert_eq!(body_text(&b.bytes), "{\"a\":[1,2]}");
}

#[test]
fn plain_string_form_data_is_sent_as_is() {
    let data = Some(text("not json"));
    let b = encode_body(true, false, &None, &data, &None).unwrap();
    assert_eq!(b.kind, BodyKind::PlainText);
    assert_eq!(b.content_type, None);
    assert_eq!(body_text(&b.bytes), "not json");
}

#[test]
fn flat_object_is_urlencoded() {
    let data = Some(object(vec![("field", text("x y")), ("n", JsonValue::Number(serde_json::Number::from(5)))]));
    let b = encode_body(true, false, &None, &data, &None).unwrap();
    assert_eq!(b.kind, BodyKind::UrlEncoded);
    assert_eq!(b.content_type.as_deref(), Some("application/x-www-form-urlencoded"));
    assert_eq!(body_text(&b.bytes), "field=x+y&n=5");
}

#[test]
fn nested_object_is_json() {
    let data = Some(object(vec![("a", object(vec![("b", JsonValue::Bool(true))]))]));
    let b = encode_body(true, false, &None, &data, &None).unwrap();
    assert_eq!(b.kind, BodyKind::NestedJson);
    assert_eq!(b.content_type.as_deref(), Some("application/json"));
    assert_eq!(body_text(&b.bytes), "{\"a\":{\"b\":true}}");
}

#[test]
fn array_value_makes_object_nested() {
    let v = object(vec![("a", JsonValue::Array(vec![JsonValue::Null]))]);
    assert!(has_nested_field(&v));
    assert!(!has_nested_field(&object(vec![("a", text("1"))])));
    assert!(!has_nested_field(&JsonValue::Array(vec![object(vec![])])));
}

#[test]
fn json_input_is_serialised() {
    let json = Some(JsonValue::Array(vec![JsonValue::Null, text("x")]));
    let b = encode_body(true, false, &None, &None, &json).unwrap();
    assert_eq!(b.kind, BodyKind::Json);
    assert_eq!(b.content_type.as_deref(), Some("application/json"));
    assert_eq!(body_text(&b.bytes), "[null,\"x\"]");
}

#[test]
fn raw_content_wins_over_data_and_json() {
    let content = Some(b"raw".to_vec());
    let b = encode_body(true, false, &content, &Some(text("x")), &Some(JsonValue::Null)).unwrap();
    assert_eq!(b.kind, BodyKind::Raw);
    assert_eq!(b.bytes, Some(b"raw".to_vec()));
    assert_eq!(b.content_type, None);
}

#[test]
fn files_win_over_everything() {
    let content = Some(b"raw".to_vec());
    let b = encode_body(true, true, &content, &None, &None).unwrap();
    assert_eq!(b.kind, BodyKind::Multipart);
    assert_eq!(b.bytes, None);
}

#[test]
fn bodyless_method_ignores_inputs() {
    let b = encode_body(false, true, &Some(b"raw".to_vec()), &None, &None).unwrap();
    assert_eq!(b.kind, BodyKind::NoBody);
    assert_eq!(b.bytes, None);
    let b = encode_body(true, false, &None, &None, &None).unwrap();
    assert_eq!(b.kind, BodyKind::NoBody);
}

#[test]
fn flat_non_object_data_fails_to_urlencode() {
    let r = encode_body(true, false, &None, &Some(JsonValue::Bool(true)), &None);
    assert_eq!(r.err(), Some(BodyError::Encoding));
}

#[test]
fn multipart_with_text_field_and_typed_file() {
    let data = Some(object(vec![("field", text("x"))]));
    let files = vec![FileEntry::ByBytesWithMime {
        field: "f".to_string(),
        filename: "name.txt".to_string(),
        bytes: b"hello".to_vec(),
        mime: "text/plain".to_string(),
    }];
    let form = plan_multipart(&data, &files);
    assert_eq!(form.text_fields, vec![("field".to_string(), "x".to_string())]);
    assert_eq!(form.files.len(), 1);
    let part = &form.files[0];
    assert_eq!(part.field, "f");
    assert_eq!(part.filename, "name.txt");
    assert_eq!(part.mime.as_deref(), Some("text/plain"));
    match &part.source {
        PartSource::Bytes(b) => assert_eq!(b, b"hello"),
        PartSource::Path(_) => panic!("expected bytes"),
    }
}

#[test]
fn path_part_is_named_after_last_component() {
    let p = file_part(&FileEntry::ByPath { field: "doc".to_string(), path: "/tmp/dir/report.pdf".to_string() });
    assert_eq!(p.filename, "report.pdf");
    assert_eq!(p.mime, None);
    let p = file_part(&FileEntry::ByPath { field: "doc".to_string(), path: "/".to_string() });
    assert_eq!(p.filename, "doc");
}

#[test]
fn unparsable_mime_is_dropped() {
    let p = file_part(&FileEntry::ByBytesWithMime {
        field: "f".to_string(),
        filename: "a.bin".to_string(),
        bytes: vec![1, 2],
        mime: "not a mime".to_string(),
    });
    assert_eq!(p.mime, None);
}

#[test]
fn mime_text_is_normalised_by_the_parser() {
    let p = file_part(&FileEntry::ByBytesWithMime {
        field: "f".to_string(),
        filename: "a.txt".to_string(),
        bytes: vec![1],
        mime: "Text/Plain".to_string(),
    });
    assert_eq!(p.mime.as_deref(), Some("text/plain"));
}

#[test]
fn non_string_fields_become_json_text() {
    assert_eq!(field_text(&text("plain")), "plain");
    assert_eq!(field_text(&JsonValue::Number(serde_json::Number::from(42))), "42");
    assert_eq!(field_text(&JsonValue::Array(vec![JsonValue::Bool(false)])), "[false]");
}
