use pagoda_runtime::config::HealthStatus;
use pagoda_runtime::dict::Dict;
use pagoda_runtime::protocols::annotated::Annotated;
use pagoda_runtime::system_health::SystemHealth;
use pagoda_runtime::system_status_server::{
    bind_error, call_lora_endpoint, engine_outcome, engine_request, engine_route_handler,
    error_body, error_text, fallback, health_body, health_text, list_loras_request, load_lora_request, unload_lora_request,
    find_lora_engine, first_response, health_handler, list_loras_handler, load_lora_handler,
    lora_enabled, metadata_file_handler, metadata_handler, metrics_handler, parse_lora_response,
    spawn_system_status_server, unload_lora_handler, FileReply, Handler, LoadLoraRequest,
    LoraResponse, LoraSource, SystemStatusServerInfo, SystemStatusState, LIST_LORAS, LOAD_LORA,
    UNLOAD_LORA, written_outcome,
};
use serde_json::Value;
use std::sync::Arc;

fn object(members: Vec<(&str, Value)>) -> Value {
    let mut map = serde_json::Map::new();
    for (key, value) in members {
        map.insert(key.to_string(), value);
    }
    Value::Object(map)
}

fn response(status: &str) -> LoraResponse {
    LoraResponse {
        status: status.to_string(),
        message: None,
        lora_name: None,
        lora_id: None,
        loras: None,
        count: None,
    }
}

fn health(status: HealthStatus, health_path: &str, live_path: &str) -> SystemHealth<(), (), ()> {
    SystemHealth::new(
        status,
        vec![],
        false,
        health_path.to_string(),
        live_path.to_string(),
        (),
        10,
    )
}

#[test]
fn test_system_status_server_info_accessors_and_clone() {
    let info = SystemStatusServerInfo::new("127.0.0.1".to_string(), false, 0, 8080, Some("task"));
    let cloned = info.clone();

    assert_eq!(info.address(), "127.0.0.1:8080");
    assert_eq!(info.hostname(), "127.0.0.1");
    assert_eq!(info.port(), 8080);
    assert!(cloned.handle.is_some());
    assert!(Arc::ptr_eq(&cloned.handle.unwrap(), &info.handle.unwrap()));
}

#[test]
fn address_of_ipv6_is_bracketed() {
    let info = SystemStatusServerInfo::<u8>::new("::1".to_string(), true, 0, 1, None);
    let expected: std::string::String = "[::1]:1".to_string();
    assert_eq!(info.address(), expected);
    assert!(info.handle.is_none());
    let scoped = SystemStatusServerInfo::<u8>::new("fe80::1".to_string(), true, 7, 80, None);
    assert_eq!(scoped.address(), "[fe80::1%7]:80");
    assert_eq!(scoped.hostname(), "fe80::1");
    assert_eq!(scoped.clone().address(), "[fe80::1%7]:80");
}

#[test]
fn test_system_status_state_accessors() {
    let drt = Arc::new("drt");
    let state = SystemStatusState::new(drt.clone(), Some(Arc::new("metadata"))).unwrap();
    assert!(Arc::ptr_eq(state.drt(), &drt));
    assert!(state.discovery_metadata().is_some());
    let state = SystemStatusState::<_, u8>::new(drt, None).unwrap();
    assert!(state.discovery_metadata().is_none());
}

#[test]
fn test_parse_lora_response_extracts_defaults_and_fields() {
    let parsed = parse_lora_response(&object(vec![
        ("message", Value::from("loaded")),
        ("lora_name", Value::from("adapter-a")),
        ("lora_id", Value::from(7)),
        ("count", Value::from(3)),
    ]));

    assert_eq!(parsed.status, "success");
    assert_eq!(parsed.message.as_deref(), Some("loaded"));
    assert_eq!(parsed.lora_name.as_deref(), Some("adapter-a"));
    assert_eq!(parsed.lora_id, Some(7));
    assert_eq!(parsed.count, Some(3));
}

#[test]
fn members_of_the_wrong_type_are_passed_over() {
    let parsed = parse_lora_response(&object(vec![
        ("status", Value::from(1)),
        ("message", Value::Null),
        ("lora_id", Value::from(-7)),
        ("count", Value::from("3")),
        ("loras", Value::Null),
    ]));
    assert_eq!(parsed.status, "success");
    assert!(parsed.message.is_none());
    assert!(parsed.lora_id.is_none());
    assert!(parsed.count.is_none());
    assert_eq!(parsed.loras, Some(Value::Null));
    let nothing = parse_lora_response(&Value::from("text"));
    assert_eq!(nothing.status, "success");
    assert!(nothing.loras.is_none());
}

#[test]
fn test_metadata_handler_without_metadata_returns_not_found() {
    let reply = metadata_handler(None);
    assert_eq!((reply.status, reply.body.as_str()), (404, "Discovery metadata not available"));
    let reply = metadata_handler(Some(Ok("{}".to_string())));
    assert_eq!((reply.status, reply.body.as_str()), (200, "{}"));
    let reply = metadata_handler(Some(Err("e".to_string())));
    assert_eq!((reply.status, reply.body.as_str()), (500, "Failed to serialize metadata"));
}

#[test]
fn test_call_lora_endpoint_returns_structured_response() {
    let mut engines: Dict<String, u8> = Dict::new();
    engines.insert("load_lora".to_string(), 1);
    assert_eq!(*find_lora_engine(&engines, "load_lora").unwrap(), 1);
    let data = object(vec![
        ("status", Value::from("ok")),
        ("message", Value::from("loaded")),
        ("lora_name", Value::from("adapter-a")),
    ]);
    let value = first_response("load_lora", Ok(Some(Annotated::from_data(data)))).unwrap();
    let response = call_lora_endpoint(None, &value);

    assert_eq!(response.status, "ok");
    assert_eq!(response.message.as_deref(), Some("loaded"));
    assert_eq!(response.lora_name.as_deref(), Some("adapter-a"));

    let strict = call_lora_endpoint(Some(self::response("strict")), &value);
    assert_eq!(strict.status, "strict");
}

#[test]
fn test_call_lora_endpoint_falls_back_to_manual_parse() {
    let loras = Value::from(vec!["a", "b"]);
    let data = object(vec![("loras", loras.clone()), ("count", Value::from(2))]);
    let response = call_lora_endpoint(None, &data);

    assert_eq!(response.status, "success");
    assert_eq!(response.count, Some(2));
    assert_eq!(response.loras, Some(loras));
}

#[test]
fn test_call_lora_endpoint_errors_for_missing_local_endpoint() {
    let engines: Dict<String, u8> = Dict::new();
    let error = find_lora_engine(&engines, "missing_route").unwrap_err();

    assert!(error.contains("not found in local registry"));
    assert_eq!(
        error,
        "PortName 'missing_route' not found in local registry. Make sure it's registered with .register_local_engine()"
    );
    assert_eq!(
        first_response("x", Ok(None)).unwrap_err(),
        "No response received from portname 'x'"
    );
    assert_eq!(first_response("x", Err("boom".to_string())).unwrap_err(), "boom");
    let empty: Annotated<Value> = Annotated::from_error("e".to_string());
    assert_eq!(first_response("x", Ok(Some(empty))).unwrap(), Value::Null);
}

#[test]
fn test_engine_route_handler_rejects_invalid_json() {
    let routes: Dict<String, u8> = Dict::new();
    let reply = engine_route_handler(&routes, "echo", &b"{".to_vec()).err().unwrap();
    assert_eq!(reply.status, 400);
    assert_eq!(reply.error, "Invalid JSON");
    assert_eq!(
        reply.message,
        serde_json::from_slice::<Value>(b"{").unwrap_err().to_string()
    );
}

#[test]
fn test_engine_route_handler_returns_not_found_for_missing_route() {
    let routes: Dict<String, u8> = Dict::new();
    let reply = engine_route_handler(&routes, "missing", &Vec::new()).err().unwrap();
    assert_eq!(reply.status, 404);
    assert_eq!(reply.error, "Route not found");
    assert_eq!(reply.message, "Route /engine/missing not found");
}

#[test]
fn test_engine_route_handler_executes_registered_callback() {
    let mut routes: Dict<String, u8> = Dict::new();
    routes.insert("echo".to_string(), 8);
    let body = br#"{"input":"hello"}"#.to_vec();
    let (callback, request) = engine_route_handler(&routes, "echo", &body).ok().unwrap();
    assert_eq!(*callback, 8);
    assert_eq!(request, object(vec![("input", Value::from("hello"))]));
    assert_eq!(engine_request(&Vec::new()).ok().unwrap(), object(vec![]));
    let reply = engine_outcome(Ok(object(vec![("echo", Value::from("hello"))]))).ok().unwrap();
    assert_eq!(reply.status, 200);
    assert!(reply.body.contains("hello"));
    assert_eq!(reply.body, "{\"echo\":\"hello\"}");
    assert_eq!(written_outcome(Ok("[]".to_string())).ok().unwrap().body, "[]");
}

#[test]
fn test_engine_route_handler_surfaces_callback_errors() {
    let reply = engine_outcome(Err("boom".to_string())).err().unwrap();
    assert_eq!(reply.status, 500);
    assert_eq!(reply.error, "Handler error");
    assert!(reply.message.contains("boom"));
}

#[test]
fn responses_are_copied_whole() {
    let mut whole = response("ok");
    whole.message = Some("m".to_string());
    whole.loras = Some(object(vec![("a", Value::from(1))]));
    whole.count = Some(1);
    let copy = whole.clone();
    assert_eq!(copy.status, "ok");
    assert_eq!(copy.message.as_deref(), Some("m"));
    assert_eq!(copy.loras, whole.loras);
    assert_eq!(copy.count, Some(1));
}

#[test]
fn adapters_are_answered_about() {
    let request = || LoadLoraRequest {
        lora_name: "a".to_string(),
        source: LoraSource { uri: "file:///a".to_string() },
    };
    assert_eq!(load_lora_handler(request(), Ok(response("ok"))).status, 200);
    assert_eq!(load_lora_handler(request(), Ok(response("error"))).status, 500);
    let failed = load_lora_handler(request(), Err("why".to_string()));
    assert_eq!(failed.status, 500);
    assert_eq!(failed.body.status, "error");
    assert_eq!(failed.body.message.as_deref(), Some("why"));
    assert_eq!(failed.body.lora_name.as_deref(), Some("a"));

    let failed = unload_lora_handler("/b/c", Err("why".to_string()));
    assert_eq!(failed.body.lora_name.as_deref(), Some("b/c"));
    let failed = unload_lora_handler("b", Err("why".to_string()));
    assert_eq!(failed.body.lora_name.as_deref(), Some("b"));
    assert_eq!(unload_lora_handler("b", Ok(response("error"))).status, 500);

    assert_eq!(list_loras_handler(Ok(response("error"))).status, 200);
    let failed = list_loras_handler(Err("why".to_string()));
    assert_eq!(failed.status, 500);
    assert!(failed.body.lora_name.is_none());
}

#[test]
fn routes_depend_on_the_switch_for_adapters() {
    let plan = spawn_system_status_server("0.0.0.0", 9090, &health(HealthStatus::Ready, "/h", "/l"), None);
    assert_eq!(plan.address, "0.0.0.0:9090");
    let paths: Vec<&str> = plan.routes.iter().map(|r| r.path.as_str()).collect();
    assert_eq!(
        paths,
        vec![
            "/h",
            "/l",
            "/metrics",
            "/metadata",
            "/engine/{*path}",
            "/v1/metadata/{model_slug}/{model_suffix}/{*filename}"
        ]
    );
    let plan = spawn_system_status_server(
        "h",
        1,
        &health(HealthStatus::Ready, "/h", "/l"),
        Some("TRUE"),
    );
    assert_eq!(plan.routes.len(), 8);
    assert_eq!(plan.routes[5].path, "/v1/loras");
    assert_eq!(plan.routes[5].handler, Handler::Loras);
    assert_eq!(plan.routes[6].path, "/v1/loras/{*lora_name}");
    assert_eq!(plan.routes[7].handler, Handler::MetadataFile);
    assert!(!lora_enabled(Some("1")));
    assert!(!lora_enabled(Some("true ")));
    assert_eq!(bind_error("in use"), "Failed to bind to address: in use");
    let unknown = fallback();
    assert_eq!((unknown.status, unknown.body.as_str()), (404, "Route not found"));
}

#[test]
fn probes_tell_the_health() {
    let reply = health_handler(&health(HealthStatus::Ready, "/h", "/l"), 110);
    assert_eq!((reply.status, reply.health.as_str(), reply.uptime), (200, "ready", 100));
    let mut unhealthy = health(HealthStatus::NotReady, "/h", "/l");
    unhealthy.set_endpoint_health_status("ep", HealthStatus::Ready);
    let reply = health_handler(&unhealthy, 10);
    assert_eq!((reply.status, reply.health.as_str(), reply.uptime), (503, "notready", 0));
    assert_eq!(reply.portnames.get(&"ep".to_string()).unwrap(), "ready");
}

#[test]
fn metrics_and_files_are_answered_with() {
    let reply = metrics_handler(Ok("m 1".to_string()));
    assert_eq!((reply.status, reply.body.as_str()), (200, "m 1"));
    let reply = metrics_handler(Err("e".to_string()));
    assert_eq!((reply.status, reply.body.as_str()), (500, "Failed to get metrics"));
    assert!(matches!(metadata_file_handler(Some(Ok(vec![1, 2]))), FileReply::Bytes(b) if b == [1, 2]));
    assert!(matches!(
        metadata_file_handler(None),
        FileReply::Text(reply) if reply.status == 404 && reply.body == "Not found"
    ));
    assert!(matches!(
        metadata_file_handler(Some(Err("io".to_string()))),
        FileReply::Text(reply) if reply.status == 500 && reply.body == "Failed to read file"
    ));
}

fn read(text: &str) -> Value {
    serde_json::from_str(text).unwrap()
}

#[test]
fn engine_is_asked_for_adapters() {
    let request = LoadLoraRequest {
        lora_name: "adapter-a".to_string(),
        source: LoraSource { uri: "s3://bucket/a".to_string() },
    };
    assert_eq!(
        load_lora_request(&request),
        read(r#"{"lora_name": "adapter-a", "source": {"uri": "s3://bucket/a"}}"#)
    );
    assert_eq!(unload_lora_request("/a/b"), read(r#"{"lora_name": "a/b"}"#));
    assert_eq!(list_loras_request(), read("{}"));
    assert_eq!((LOAD_LORA, UNLOAD_LORA, LIST_LORAS), ("load_lora", "unload_lora", "list_loras"));
}

#[test]
fn probe_is_answered_in_json() {
    let mut process = health(HealthStatus::Ready, "/health", "/live");
    process.set_endpoint_health_status("b", HealthStatus::NotReady);
    process.set_endpoint_health_status("a", HealthStatus::Ready);
    let reply = health_handler(&process, 2_000_000_017);
    let sent = health_text(&reply);
    assert_eq!(sent.status, 200);
    assert_eq!(sent.body, health_body(&reply).to_string());
    assert_eq!(
        sent.body,
        r#"{"portnames":{"a":"ready","b":"notready"},"status":"ready","uptime":{"nanos":7,"secs":2}}"#
    );
}

#[test]
fn error_is_told_in_json() {
    let routes: Dict<String, u8> = Dict::new();
    let reply = engine_route_handler(&routes, "missing", &vec![]).err().unwrap();
    assert_eq!(error_text(&reply).status, 404);
    assert_eq!(error_body(&reply).to_string(), error_text(&reply).body);
    assert_eq!(
        error_text(&reply).body,
        r#"{"error":"Route not found","message":"Route /engine/missing not found"}"#
    );
}
