use fiware_client::json::JsonValue;
use fiware_client::query::{interpret_entity_response, MeasurementRequest, QueryError};

fn attr(value: JsonValue) -> JsonValue {
    JsonValue::Object(vec![
        ("type".to_string(), JsonValue::String("Text".to_string())),
        ("value".to_string(), value),
    ])
}

fn entity(fields: Vec<(&str, JsonValue)>) -> JsonValue {
    JsonValue::Object(
        fields
            .into_iter()
            .map(|(k, v)| (k.to_string(), v))
            .collect(),
    )
}

fn request(name: &str) -> MeasurementRequest {
    MeasurementRequest::new("urn:x:1".to_string(), name.to_string())
}

#[test]
fn query_extracts_value_and_parsed_timestamp() {
    let doc = entity(vec![
        (
            "TimeInstant",
            attr(JsonValue::String("2020-01-01T00:00:10+01:00".to_string())),
        ),
        ("temp", attr(JsonValue::String("21.5".to_string()))),
    ]);
    let r = interpret_entity_response(&doc, &request("temp")).unwrap();
    assert_eq!(r.urn, "urn:x:1");
    assert_eq!(r.name, "temp");
    assert_eq!(r.value, "21.5");
    // converted to UTC: 2019-12-31T23:00:10Z
    let expected = chrono::DateTime::parse_from_rfc3339("2020-01-01T00:00:10+01:00")
        .unwrap()
        .timestamp_millis();
    assert_eq!(r.timestamp, Some(expected));
}

#[test]
fn unparsable_timeinstant_drops_the_timestamp_but_keeps_the_value() {
    let doc = entity(vec![
        (
            "TimeInstant",
            attr(JsonValue::String("not-a-date".to_string())),
        ),
        ("temp", attr(JsonValue::String("21.5".to_string()))),
    ]);
    let r = interpret_entity_response(&doc, &request("temp")).unwrap();
    assert_eq!(r.timestamp, None);
    assert_eq!(r.value, "21.5");
}

#[test]
fn absent_timeinstant_means_no_timestamp() {
    let doc = entity(vec![("temp", attr(JsonValue::String("7".to_string())))]);
    let r = interpret_entity_response(&doc, &request("temp")).unwrap();
    assert_eq!(r.timestamp, None);
    assert_eq!(r.value, "7");
}

#[test]
fn missing_attribute_is_a_recoverable_error() {
    let doc = entity(vec![("temp", attr(JsonValue::String("7".to_string())))]);
    let r = interpret_entity_response(&doc, &request("hum"));
    assert!(matches!(r, Err(QueryError::MissingAttribute)));
}

#[test]
fn attribute_without_value_field_is_an_error() {
    let doc = entity(vec![(
        "temp",
        JsonValue::Object(vec![(
            "type".to_string(),
            JsonValue::String("Number".to_string()),
        )]),
    )]);
    let r = interpret_entity_response(&doc, &request("temp"));
    assert!(matches!(r, Err(QueryError::MissingValue)));
}

#[test]
fn non_text_value_is_an_error() {
    let doc = entity(vec![(
        "temp",
        attr(JsonValue::Number("21".to_string())),
    )]);
    let r = interpret_entity_response(&doc, &request("temp"));
    assert!(matches!(r, Err(QueryError::ValueNotText)));
}

#[test]
fn malformed_timeinstant_attribute_is_an_error() {
    let doc = entity(vec![
        (
            "TimeInstant",
            JsonValue::Object(vec![(
                "type".to_string(),
                JsonValue::String("DateTime".to_string()),
            )]),
        ),
        ("temp", attr(JsonValue::String("7".to_string()))),
    ]);
    let r = interpret_entity_response(&doc, &request("temp"));
    assert!(matches!(r, Err(QueryError::MissingValue)));
}
