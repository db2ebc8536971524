use pagoda_runtime::service::{
    extract_hex_suffix, try_parse_service_info, NatsStatsMetrics, PortNameInfo, ServiceClient,
    ServiceInfo, ServiceSet,
};
use std::collections::HashMap;

fn sample_metrics(value: &str) -> NatsStatsMetrics {
    let mut data = serde_json::Map::new();
    data.insert("key".to_string(), serde_json::Value::from(value));
    NatsStatsMetrics {
        average_processing_time: 100_000,
        last_error: "none".to_string(),
        num_errors: 0,
        num_requests: 10,
        processing_time: 100,
        queue_group: "group1".to_string(),
        data: serde_json::Value::Object(data),
    }
}

fn portname(name: &str, subject: &str, value: &str) -> PortNameInfo {
    PortNameInfo {
        name: name.to_string(),
        subject: subject.to_string(),
        data: Some(sample_metrics(value)),
    }
}

fn service(name: &str, id: &str, portnames: Vec<PortNameInfo>) -> ServiceInfo {
    ServiceInfo {
        name: name.to_string(),
        id: id.to_string(),
        version: "1.0".to_string(),
        started: "2021-01-01".to_string(),
        portnames,
    }
}

#[test]
fn test_service_set() {
    let services = vec![
        service(
            "service1",
            "1",
            vec![
                portname("portname1", "subject1", "value1"),
                portname("portname2-foo", "subject2", "value1"),
            ],
        ),
        service(
            "service1",
            "2",
            vec![
                portname("portname1", "subject1", "value1"),
                portname("portname2-bar", "subject2", "value2"),
            ],
        ),
    ];

    let service_set = ServiceSet { services };

    let portnames: Vec<_> = service_set
        .into_portnames()
        .into_iter()
        .filter(|e| e.name.starts_with("portname2"))
        .collect();

    assert_eq!(portnames.len(), 2);
    assert_eq!(portnames[0].name, "portname2-foo");
    assert_eq!(portnames[1].name, "portname2-bar");
}

#[test]
fn test_portname_info_id_parses_hex_suffix() {
    let portname = PortNameInfo {
        name: "portname".to_string(),
        subject: "service.generate-deadbeef".to_string(),
        data: None,
    };

    assert_eq!(portname.id().unwrap(), 0xdeadbeef);
}

#[test]
fn test_portname_info_id_rejects_invalid_hex_suffix() {
    let portname = PortNameInfo {
        name: "portname".to_string(),
        subject: "service.generate-not-hex".to_string(),
        data: None,
    };

    assert!(portname.id().is_err());
}

#[test]
fn test_nats_stats_metrics_decode_typed_payload() {
    let decoded: HashMap<String, String> =
        serde_json::from_value(sample_metrics("decoded").decode()).unwrap();

    assert_eq!(decoded.get("key").map(String::as_str), Some("decoded"));
}

#[test]
fn test_services_accessor_returns_original_slice() {
    let service_set = ServiceSet {
        services: vec![service("service-a", "1", vec![])],
    };

    assert_eq!(service_set.services().len(), 1);
    assert_eq!(service_set.services()[0].name, "service-a");
}

#[test]
fn suffix_errors_are_told() {
    assert_eq!(extract_hex_suffix("nodash").unwrap_err(), "No id found in subject");
    assert_eq!(extract_hex_suffix("").unwrap_err(), "No id found in subject");
    assert_eq!(extract_hex_suffix("dash-").unwrap_err(), "No id found in subject");
    for text in ["xyz", "8000000000000000", "é", "+"] {
        assert_eq!(
            extract_hex_suffix(&format!("s-{text}")).unwrap_err(),
            format!("Invalid id format: {}", i64::from_str_radix(text, 16).unwrap_err())
        );
    }
    assert_eq!(extract_hex_suffix("a-b-Ff").unwrap(), 255);
    assert_eq!(extract_hex_suffix("a-7fffffffffffffff").unwrap(), i64::MAX);
    assert_eq!(extract_hex_suffix("-+10").unwrap(), 16);
    assert_eq!(extract_hex_suffix("--10").unwrap(), 16);
}

#[test]
fn unreadable_answers_are_passed_over() {
    let answers = vec![
        (vec![1], Ok(service("a", "1", vec![]))),
        (vec![], Ok(service("b", "2", vec![]))),
        (vec![2], Err("bad json".to_string())),
        (vec![3], Ok(service("c", "3", vec![]))),
    ];
    let set = ServiceClient::<u8>::collect_services(answers);
    let names: Vec<&str> = set.services().iter().map(|s| s.name.as_str()).collect();
    assert_eq!(names, vec!["a", "c"]);
    assert!(try_parse_service_info(&vec![], Ok(service("x", "1", vec![]))).is_none());
    assert_eq!(*ServiceClient::new(5u8).connection(), 5);
}
