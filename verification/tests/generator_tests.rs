use std::collections::HashSet;

use fiware_client::json::{merge_metadata, JsonValue};
use fiware_client::random_helper::{
    create_entity, draw_value, generate_random_id, generate_series_at,
    generate_simple_time_series,
};
use fiware_client::text::u64_to_string;

const HEX: &str = "0123456789abcdefABCDEF";

fn get_str<'a>(doc: &'a JsonValue, key: &str) -> &'a str {
    doc.get(&key.to_string())
        .and_then(|v| v.as_str())
        .map(|s| s.as_str())
        .unwrap()
}

fn attr_value<'a>(doc: &'a JsonValue, name: &str) -> &'a str {
    let attr = doc.get(&name.to_string()).unwrap();
    get_str(attr, "value")
}

#[test]
fn decimal_rendering_is_exact() {
    assert_eq!(u64_to_string(0), "0");
    assert_eq!(u64_to_string(7), "7");
    assert_eq!(u64_to_string(1000), "1000");
    assert_eq!(u64_to_string(98765432109), "98765432109");
}

#[test]
fn generated_ids_use_the_extended_hex_alphabet() {
    for _ in 0..50 {
        let id = generate_random_id(16);
        assert_eq!(id.len(), 19);
        assert!(id.starts_with("id-"));
        for c in id[3..].chars() {
            assert!(HEX.contains(c), "unexpected identifier symbol {c}");
        }
    }
}

#[test]
fn drawn_values_stay_in_the_half_open_range() {
    for _ in 0..200 {
        let v = draw_value(5, 7);
        assert!(v == 5 || v == 6, "7 itself must never be produced");
    }
}

#[test]
fn created_entity_has_the_fixed_attribute_shape() {
    let e = create_entity(
        &"id-0000000000000000".to_string(),
        &"SimpleTimeSeries".to_string(),
        &"2020-01-01T00:00:00.000Z".to_string(),
        &"42".to_string(),
    );
    assert_eq!(get_str(&e, "id"), "id-0000000000000000");
    assert_eq!(get_str(&e, "type"), "SimpleTimeSeries");
    let observed = e.get(&"dateObserved".to_string()).unwrap();
    assert_eq!(get_str(observed, "type"), "DateTime");
    assert_eq!(get_str(observed, "value"), "2020-01-01T00:00:00.000Z");
    let reading = e.get(&"value".to_string()).unwrap();
    assert_eq!(get_str(reading, "type"), "Number");
    assert_eq!(get_str(reading, "value"), "42");
    match reading.get(&"metadata".to_string()).unwrap() {
        JsonValue::Object(fields) => assert!(fields.is_empty()),
        _ => panic!("attribute metadata must be an empty object"),
    }
}

#[test]
fn series_values_count_and_distinct_ids() {
    let now_ms = 1_577_836_800_000i64;
    let series = generate_series_at(now_ms, 10, 20, 50, 1, &"SimpleTimeSeries".to_string(), None);
    assert_eq!(series.len(), 50);
    let mut ids = HashSet::new();
    for e in &series {
        let v: u16 = attr_value(e, "value").parse().unwrap();
        assert!((10..20).contains(&v), "value {v} outside [10, 20)");
        let id = get_str(e, "id").to_string();
        assert!(id.starts_with("id-") && id.len() == 19);
        ids.insert(id);
        assert_eq!(get_str(e, "type"), "SimpleTimeSeries");
    }
    assert_eq!(ids.len(), 50, "identifiers collide");
}

#[test]
fn series_timestamps_advance_by_exactly_one_interval() {
    let now_ms = 1_577_836_800_000i64;
    let series = generate_series_at(now_ms, 0, 1, 5, 1, &"S".to_string(), None);
    let mut previous = None;
    for (i, e) in series.iter().enumerate() {
        let text = attr_value(e, "dateObserved");
        let ms = chrono::DateTime::parse_from_rfc3339(text)
            .unwrap()
            .timestamp_millis();
        assert_eq!(ms, now_ms + i as i64 * 60_000);
        if let Some(p) = previous {
            assert_eq!(ms - p, 60_000, "default interval is one minute");
            assert!(ms > p, "timestamps strictly increase");
        }
        previous = Some(ms);
    }
}

#[test]
fn a_series_of_size_zero_is_empty() {
    let series = generate_series_at(0, 1, 2, 0, 1, &"S".to_string(), None);
    assert!(series.is_empty());
}

#[test]
fn metadata_overrides_colliding_keys() {
    let metadata = JsonValue::Object(vec![
        ("type".to_string(), JsonValue::String("Custom".to_string())),
        ("source".to_string(), JsonValue::String("lab".to_string())),
    ]);
    let series = generate_series_at(0, 1, 2, 3, 1, &"Default".to_string(), Some(&metadata));
    for e in &series {
        assert_eq!(get_str(e, "type"), "Custom", "metadata wins over the default");
        assert_eq!(get_str(e, "source"), "lab", "fresh metadata keys are added");
        assert!(e.get(&"dateObserved".to_string()).is_some());
    }
}

#[test]
fn merge_writes_over_in_place_and_appends_fresh_keys() {
    let entity = JsonValue::Object(vec![
        ("id".to_string(), JsonValue::String("e1".to_string())),
        ("type".to_string(), JsonValue::String("Old".to_string())),
    ]);
    let metadata = JsonValue::Object(vec![
        ("type".to_string(), JsonValue::String("New".to_string())),
        ("extra".to_string(), JsonValue::Bool(true)),
    ]);
    let merged = merge_metadata(entity, &metadata);
    assert_eq!(get_str(&merged, "id"), "e1");
    assert_eq!(get_str(&merged, "type"), "New");
    assert!(matches!(
        merged.get(&"extra".to_string()),
        Some(JsonValue::Bool(true))
    ));
    match &merged {
        JsonValue::Object(fields) => {
            assert_eq!(fields.len(), 3);
            assert_eq!(fields[1].0, "type", "collisions overwrite in place");
        }
        _ => panic!("merge must keep an object"),
    }
}

#[test]
fn clock_driven_generation_respects_size_and_defaults() {
    let r = generate_simple_time_series(0, 100, 7, None, None, None).unwrap();
    assert_eq!(r.len(), 7);
    for e in &r {
        assert_eq!(get_str(e, "type"), "SimpleTimeSeries");
        let v: u16 = attr_value(e, "value").parse().unwrap();
        assert!(v < 100);
    }
    let r = generate_simple_time_series(0, 100, 2, Some(3), Some("Kind".to_string()), None)
        .unwrap();
    assert_eq!(get_str(&r[0], "type"), "Kind");
    let t0 = chrono::DateTime::parse_from_rfc3339(attr_value(&r[0], "dateObserved"))
        .unwrap()
        .timestamp_millis();
    let t1 = chrono::DateTime::parse_from_rfc3339(attr_value(&r[1], "dateObserved"))
        .unwrap()
        .timestamp_millis();
    assert_eq!(t1 - t0, 180_000, "a three-minute interval");
}
