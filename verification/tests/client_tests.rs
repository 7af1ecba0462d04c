use fiware_client::client::{Client, FiwareClientConfig, FiwareConfig};
use fiware_client::json::JsonValue;
use fiware_client::paginate::{PageOutcome, Paginator};

fn config(endpoint: &str, token: &str) -> FiwareConfig {
    FiwareConfig {
        platform: "fiware".to_string(),
        config: FiwareClientConfig {
            endpoint: endpoint.to_string(),
            token: token.to_string(),
        },
    }
}

fn client_with_service(service: Option<&str>) -> Client {
    Client::new(
        config("http://broker:1026/v2", "SECRET-REDACTED"),
        service.map(|s| s.to_string()),
    )
}

fn entity_with_id(id: &str) -> JsonValue {
    JsonValue::Object(vec![
        ("id".to_string(), JsonValue::String(id.to_string())),
        ("type".to_string(), JsonValue::String("T".to_string())),
    ])
}

#[test]
fn headers_carry_token_and_service() {
    let c = client_with_service(None);
    let h = c.headers();
    assert_eq!(h.len(), 1);
    assert_eq!(h[0].0, "X-Auth-Token");
    assert_eq!(h[0].1, "SECRET-REDACTED");

    let c = client_with_service(Some("smartcity"));
    let h = c.headers();
    assert_eq!(h.len(), 2);
    assert_eq!(h[1].0, "Fiware-Service");
    assert_eq!(h[1].1, "smartcity");
}

#[test]
fn urls_are_built_from_the_endpoint() {
    let c = client_with_service(None);
    assert_eq!(c.entities_url(), "http://broker:1026/v2/entities");
    assert_eq!(
        c.entity_url(&"urn:x:1".to_string()),
        "http://broker:1026/v2/entities/urn:x:1"
    );
}

#[test]
fn key_values_suffix_is_exactly_the_option() {
    let c = client_with_service(None);
    assert_eq!(
        c.bulk_url(true),
        "http://broker:1026/v2/op/update?options=keyValues"
    );
    assert_eq!(c.bulk_url(false), "http://broker:1026/v2/op/update");
    assert!(!c.bulk_url(false).contains('?'));
}

#[test]
fn upload_and_update_requests_carry_their_actions() {
    let c = client_with_service(None);
    let up = c.upload_request(vec![entity_with_id("a")], true);
    assert_eq!(up.url, "http://broker:1026/v2/op/update?options=keyValues");
    let action = up
        .payload
        .get(&"actionType".to_string())
        .and_then(|v| v.as_str())
        .unwrap();
    assert_eq!(action, "append_strict");

    let upd = c.update_request(vec![entity_with_id("a")], false);
    assert_eq!(upd.url, "http://broker:1026/v2/op/update");
    let action = upd
        .payload
        .get(&"actionType".to_string())
        .and_then(|v| v.as_str())
        .unwrap();
    assert_eq!(action, "update");
}

#[test]
fn delete_request_projects_entities_to_ids() {
    let c = client_with_service(None);
    let fetched = vec![
        JsonValue::Object(vec![
            ("id".to_string(), JsonValue::String("a".to_string())),
            ("type".to_string(), JsonValue::String("T".to_string())),
            ("temp".to_string(), JsonValue::Number("21".to_string())),
        ]),
        JsonValue::Object(vec![
            ("id".to_string(), JsonValue::String("b".to_string())),
            ("type".to_string(), JsonValue::String("T".to_string())),
        ]),
    ];
    let r = c.delete_request(&fetched);
    assert_eq!(r.url, "http://broker:1026/v2/op/update");
    let action = r
        .payload
        .get(&"actionType".to_string())
        .and_then(|v| v.as_str())
        .unwrap();
    assert_eq!(action, "delete");
    let entities = match r.payload.get(&"entities".to_string()).unwrap() {
        JsonValue::Array(items) => items.clone(),
        _ => panic!("entities must be an array"),
    };
    assert_eq!(entities.len(), 2);
    let expected = ["a", "b"];
    for (i, e) in entities.iter().enumerate() {
        match e {
            JsonValue::Object(fields) => {
                assert_eq!(fields.len(), 1, "all other attributes are dropped");
                assert_eq!(fields[0].0, "id");
                match &fields[0].1 {
                    JsonValue::String(s) => assert_eq!(s, expected[i]),
                    _ => panic!("id must stay a string"),
                }
            }
            _ => panic!("each delete entry must be an object"),
        }
    }
}

fn full_page(size: usize, start: usize) -> PageOutcome {
    let mut items = Vec::new();
    for i in 0..size {
        items.push(entity_with_id(&format!("urn:{}", start + i)));
    }
    PageOutcome::Body(JsonValue::Array(items))
}

#[test]
fn pagination_walks_full_pages_until_the_empty_one() {
    let k = 2usize;
    let mut p = Paginator::new(&None, &None);
    let mut offsets_sent = Vec::new();
    let mut cursors = Vec::new();
    let mut rounds = 0usize;
    loop {
        let params = p.request_params().clone();
        assert_eq!(params[0].0, "limit");
        assert_eq!(params[0].1, "1000");
        assert_eq!(params[1].0, "offset");
        offsets_sent.push(params[1].1.clone());
        let outcome = if rounds < k {
            full_page(1000, rounds * 1000)
        } else {
            PageOutcome::Body(JsonValue::Array(Vec::new()))
        };
        let go_on = p.step(outcome);
        cursors.push(p.offset);
        rounds += 1;
        if !go_on {
            break;
        }
    }
    assert_eq!(rounds, k + 1, "one request per full page, then the empty page");
    assert_eq!(offsets_sent, vec!["0", "1000", "2000"]);
    assert_eq!(cursors, vec![1000, 2000, 3000]);
    let results = p.into_results();
    assert_eq!(results.len(), 1000 * k);
}

#[test]
fn pagination_stops_on_transport_error_with_partial_results() {
    let mut p = Paginator::new(&None, &None);
    let go_on = p.step(full_page(2, 0));
    assert!(go_on);
    let go_on = p.step(PageOutcome::TransportError("connection refused".to_string()));
    assert!(!go_on);
    let results = p.into_results();
    assert_eq!(results.len(), 2, "only the pages before the failure remain");
}

#[test]
fn pagination_stops_on_status_error_and_malformed_body() {
    let mut p = Paginator::new(&None, &None);
    assert!(!p.step(PageOutcome::StatusError(401, "denied".to_string())));
    assert_eq!(p.into_results().len(), 0);

    let mut p = Paginator::new(&None, &None);
    assert!(!p.step(PageOutcome::Body(JsonValue::String("oops".to_string()))));
    assert_eq!(p.into_results().len(), 0);
}

#[test]
fn pagination_with_an_immediately_empty_store() {
    let mut p = Paginator::new(&None, &None);
    assert!(!p.step(PageOutcome::Body(JsonValue::Array(Vec::new()))));
    assert_eq!(p.offset, 1000, "the cursor advances even on the stopping round");
    assert_eq!(p.into_results().len(), 0);
}

#[test]
fn pagination_carries_type_and_attrs_filters() {
    let p = Paginator::new(
        &Some("Room".to_string()),
        &Some(vec!["temp".to_string(), "hum".to_string(), "co2".to_string()]),
    );
    let params = p.request_params();
    assert_eq!(params.len(), 4);
    assert_eq!(params[2].0, "type");
    assert_eq!(params[2].1, "Room");
    assert_eq!(params[3].0, "attrs");
    assert_eq!(params[3].1, "temp,hum,co2");
}
