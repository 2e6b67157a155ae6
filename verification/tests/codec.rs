use annotator::constants::{AnnotationType, HashType};
use annotator::{deserialize_annotation, mock_annotation, serialize_annotation, Annotation};

fn sample() -> Annotation {
    Annotation {
        id: "01ARZ3NDEKTSV4RRFFQ69G5FAV".to_string(),
        key: "The hash of the contents".to_string(),
        hash: HashType::Sha256,
        host: "Host Device".to_string(),
        kind: AnnotationType::Source,
        signature: String::new(),
        is_satisfied: true,
        timestamp: "2024-01-01 00:00:00".to_string(),
    }
}

#[test]
fn serialize_exact_encoding() {
    let encoded = serialize_annotation(&sample());
    assert_eq!(
        encoded,
        "{\"id\":\"01ARZ3NDEKTSV4RRFFQ69G5FAV\",\"key\":\"The hash of the contents\",\
         \"hash\":\"sha256\",\"host\":\"Host Device\",\"kind\":\"source\",\"signature\":\"\",\
         \"isSatisfied\":true,\"timestamp\":\"2024-01-01 00:00:00\"}"
    );
}

#[test]
fn serialized_field_name_is_exactly_is_satisfied_camel_case() {
    let encoded = serialize_annotation(&sample());
    assert!(encoded.contains("\"isSatisfied\":true"));
    assert!(!encoded.contains("is_satisfied"));
}

#[test]
fn round_trip_preserves_every_field() {
    let a = sample();
    let encoded = serialize_annotation(&a);
    let decoded = deserialize_annotation(&encoded).unwrap();
    assert_eq!(decoded, a);
}

#[test]
fn round_trip_of_fresh_annotation() {
    let mut a = mock_annotation();
    a.with_signature("a signature value");
    let encoded = serialize_annotation(&a);
    let decoded = deserialize_annotation(&encoded).unwrap();
    assert_eq!(decoded, a);
}

#[test]
fn round_trip_escapes_quotes_backslashes_and_control_characters() {
    let mut a = sample();
    a.key = "a \"quoted\" name".to_string();
    a.host = "back\\slash".to_string();
    a.timestamp = "line\nbreak\tand\rmore".to_string();
    a.is_satisfied = false;
    let encoded = serialize_annotation(&a);
    assert!(encoded.contains("a \\\"quoted\\\" name"));
    assert!(encoded.contains("back\\\\slash"));
    assert!(encoded.contains("line\\u000abreak\\u0009and\\u000dmore"));
    let decoded = deserialize_annotation(&encoded).unwrap();
    assert_eq!(decoded, a);
}

#[test]
fn deserialize_accepts_short_control_escapes_of_a_standard_json_writer() {
    let mut a = sample();
    a.timestamp = "line\nbreak\tand\rmore\u{8}\u{c}".to_string();
    let encoded = serialize_annotation(&a);
    let short = encoded
        .replace("\\u000a", "\\n")
        .replace("\\u0009", "\\t")
        .replace("\\u000d", "\\r")
        .replace("\\u0008", "\\b")
        .replace("\\u000c", "\\f");
    assert_ne!(short, encoded);
    let decoded = deserialize_annotation(&short).unwrap();
    assert_eq!(decoded, a);
}

#[test]
fn round_trip_of_unicode_text() {
    let mut a = sample();
    a.key = "clé ☀ 見本".to_string();
    let encoded = serialize_annotation(&a);
    let decoded = deserialize_annotation(&encoded).unwrap();
    assert_eq!(decoded, a);
}

#[test]
fn serialized_form_is_valid_json_with_the_external_field_names() {
    let a = sample();
    let encoded = serialize_annotation(&a);
    let value: serde_json::Value = serde_json::from_str(&encoded).unwrap();
    assert_eq!(value.get("id").unwrap().as_str(), Some("01ARZ3NDEKTSV4RRFFQ69G5FAV"));
    assert_eq!(value.get("key").unwrap().as_str(), Some("The hash of the contents"));
    assert_eq!(value.get("hash").unwrap().as_str(), Some("sha256"));
    assert_eq!(value.get("host").unwrap().as_str(), Some("Host Device"));
    assert_eq!(value.get("kind").unwrap().as_str(), Some("source"));
    assert_eq!(value.get("signature").unwrap().as_str(), Some(""));
    assert_eq!(value.get("isSatisfied").unwrap().as_bool(), Some(true));
    assert_eq!(value.get("timestamp").unwrap().as_str(), Some("2024-01-01 00:00:00"));
}

#[test]
fn escaped_text_survives_a_json_parser_too() {
    let mut a = sample();
    a.key = "a \"quoted\" name with \\ and \n".to_string();
    let encoded = serialize_annotation(&a);
    let value: serde_json::Value = serde_json::from_str(&encoded).unwrap();
    assert_eq!(value.get("key").unwrap().as_str(), Some("a \"quoted\" name with \\ and \n"));
}

#[test]
fn deserialize_rejects_malformed_text() {
    assert!(deserialize_annotation("").is_none());
    assert!(deserialize_annotation("{}").is_none());
    assert!(deserialize_annotation("not json at all").is_none());
    let encoded = serialize_annotation(&sample());
    let mut truncated = encoded.clone();
    truncated.pop();
    assert!(deserialize_annotation(&truncated).is_none());
    let trailing = format!("{} ", encoded);
    assert!(deserialize_annotation(&trailing).is_none());
    let bad_tag = encoded.replace("sha256", "sha999");
    assert!(deserialize_annotation(&bad_tag).is_none());
    let bad_kind = encoded.replace("\"kind\":\"source\"", "\"kind\":\"sources\"");
    assert!(deserialize_annotation(&bad_kind).is_none());
    let bad_flag = encoded.replace("\"isSatisfied\":true", "\"isSatisfied\":maybe");
    assert!(deserialize_annotation(&bad_flag).is_none());
}
