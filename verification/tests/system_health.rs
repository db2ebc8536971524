use pagoda_runtime::config::HealthStatus;
use pagoda_runtime::servicegroup::{Instance, TransportType};
use pagoda_runtime::system_health::SystemHealth;

type Health = SystemHealth<(), Vec<String>, String>;

fn sample_instance(endpoint: &str) -> Instance {
    Instance {
        servicegroup: "component".to_string(),
        portname: endpoint.to_string(),
        namespace: "namespace".to_string(),
        instance_id: 1,
        transport: TransportType::Nats(endpoint.to_string()),
        device_type: None,
        topo_json: serde_json::Value::Null,
    }
}

fn object(key: &str, value: serde_json::Value) -> serde_json::Value {
    let mut map = serde_json::Map::new();
    map.insert(key.to_string(), value);
    serde_json::Value::Object(map)
}

fn health(status: HealthStatus, listed: &[&str], checked: bool) -> Health {
    SystemHealth::new(
        status,
        listed.iter().map(|s| s.to_string()).collect(),
        checked,
        "/health".to_string(),
        "/live".to_string(),
        Vec::new(),
        1_000,
    )
}

#[test]
fn test_new_initializes_endpoint_statuses_from_health_check_flag() {
    let without_canary = health(HealthStatus::Ready, &["ep-a"], false);
    let with_canary = health(HealthStatus::Ready, &["ep-a"], true);

    assert_eq!(
        without_canary.get_endpoint_health_status("ep-a"),
        Some(HealthStatus::Ready)
    );
    assert_eq!(
        with_canary.get_endpoint_health_status("ep-a"),
        Some(HealthStatus::NotReady)
    );
    assert!(with_canary.health_check_enabled());
}

#[test]
fn test_set_endpoint_registered_respects_health_check_flag() {
    let mut disabled = health(HealthStatus::NotReady, &["ep-a"], false);
    let mut enabled = health(HealthStatus::NotReady, &["ep-a"], true);

    disabled.set_endpoint_registered("ep-a");
    enabled.set_endpoint_registered("ep-a");

    assert_eq!(disabled.get_endpoint_health_status("ep-a"), Some(HealthStatus::Ready));
    assert_eq!(enabled.get_endpoint_health_status("ep-a"), Some(HealthStatus::NotReady));
}

#[test]
fn test_get_health_status_uses_explicit_endpoint_list() {
    let mut system_health = health(HealthStatus::NotReady, &["ep-a", "ep-b"], false);

    system_health.set_endpoint_health_status("ep-a", HealthStatus::Ready);
    system_health.set_endpoint_health_status("ep-b", HealthStatus::NotReady);

    let (healthy, endpoints) = system_health.get_health_status();

    assert!(!healthy);
    assert_eq!(endpoints.get(&"ep-a".to_string()).map(String::as_str), Some("ready"));
    assert_eq!(endpoints.get(&"ep-b".to_string()).map(String::as_str), Some("notready"));
    assert_eq!(endpoints.len(), 2);

    system_health.set_endpoint_health_status("ep-b", HealthStatus::Ready);
    assert!(system_health.get_health_status().0);
}

#[test]
fn test_register_health_check_target_is_idempotent() {
    let mut system_health = health(HealthStatus::Ready, &[], true);

    let first = system_health.register_health_check_target(
        "ep-a",
        sample_instance("ep-a"),
        object("version", serde_json::Value::from(1)),
        (),
    );
    let second = system_health.register_health_check_target(
        "ep-a",
        sample_instance("ep-a"),
        object("version", serde_json::Value::from(2)),
        (),
    );
    assert_eq!(first.as_deref(), Some("ep-a"));
    assert!(second.is_none());

    let targets = system_health.get_health_check_targets();
    assert_eq!(targets.len(), 1);
    assert_eq!(targets[0].0, "ep-a");
    assert_eq!(targets[0].1.payload, object("version", serde_json::Value::from(1)));
    assert!(system_health.get_endpoint_health_check_notifier("ep-a").is_some());
    assert!(system_health.get_endpoint_health_check_notifier("ep-b").is_none());
}

#[test]
fn test_take_new_endpoint_receiver_only_once_and_receives_registrations() {
    let mut system_health = health(HealthStatus::Ready, &[], true);

    let mut receiver = system_health.take_new_endpoint_receiver().unwrap();
    assert!(system_health.take_new_endpoint_receiver().is_none());

    if let Some(name) = system_health.register_health_check_target(
        "ep-a",
        sample_instance("ep-a"),
        object("prompt", serde_json::Value::from("health")),
        (),
    ) {
        receiver.push(name);
    }
    assert_eq!(receiver, vec!["ep-a".to_string()]);
}

#[test]
fn test_get_health_status_uses_health_check_targets_when_no_explicit_list() {
    let mut system_health = health(HealthStatus::NotReady, &[], true);

    system_health.register_health_check_target(
        "ep-a",
        sample_instance("ep-a"),
        object("prompt", serde_json::Value::from("health")),
        (),
    );
    let (healthy_before, _) = system_health.get_health_status();
    system_health.set_endpoint_health_status("ep-a", HealthStatus::Ready);
    let (healthy_after, _) = system_health.get_health_status();

    assert!(!healthy_before);
    assert!(healthy_after);
}

#[test]
fn test_initialize_uptime_gauge_and_update_it() {
    let mut system_health: Health = SystemHealth::new(
        HealthStatus::Ready,
        vec![],
        false,
        "/healthz".to_string(),
        "/livez".to_string(),
        Vec::new(),
        5,
    );

    assert!(system_health.update_uptime_gauge(9).is_none());
    assert_eq!(
        system_health.initialize_uptime_gauge(Err("taken".to_string())).unwrap_err(),
        "taken"
    );
    system_health.initialize_uptime_gauge(Ok("uptime".to_string())).unwrap();
    assert_eq!(
        system_health.initialize_uptime_gauge(Ok("again".to_string())).unwrap_err(),
        "uptime_gauge already initialized"
    );

    let (gauge, nanos) = system_health.update_uptime_gauge(105).unwrap();
    assert_eq!((gauge.as_str(), nanos), ("uptime", 100));
    assert_eq!(system_health.health_path(), "/healthz");
    assert_eq!(system_health.live_path(), "/livez");
    assert_eq!(system_health.uptime(7), 2);
    assert_eq!(system_health.uptime(3), 0);
}

#[test]
fn the_process_decides_where_no_endpoint_does() {
    let mut system_health = health(HealthStatus::NotReady, &[], false);
    assert!(!system_health.get_health_status().0);
    system_health.set_health_status(HealthStatus::Ready);
    assert!(system_health.get_health_status().0);
    system_health.set_endpoint_health_status("other", HealthStatus::NotReady);
    assert!(system_health.get_health_status().0);
    assert_eq!(system_health.get_endpoint_health_status("missing"), None);
}

#[test]
fn registration_keeps_a_status_that_is_known() {
    let mut system_health = health(HealthStatus::NotReady, &[], true);
    assert!(!system_health.has_health_check_targets());
    system_health.set_endpoint_health_status("ep", HealthStatus::Ready);
    system_health.register_health_check_target(
        "ep",
        sample_instance("ep"),
        serde_json::Value::Null,
        (),
    );
    assert_eq!(system_health.get_endpoint_health_status("ep"), Some(HealthStatus::Ready));
    assert!(system_health.has_health_check_targets());
    assert_eq!(system_health.get_health_check_endpoints(), vec!["ep".to_string()]);
    assert_eq!(
        system_health.get_health_check_target("ep").unwrap().instance.portname,
        "ep"
    );
    assert!(system_health.get_health_check_target("none").is_none());
}
