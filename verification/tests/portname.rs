use pagoda_runtime::dict::Dict;
use pagoda_runtime::discovery::{DiscoveryInstance, DiscoverySpec};
use pagoda_runtime::config::HealthStatus;
use pagoda_runtime::protocols::PortNameId;
use pagoda_runtime::servicegroup::portname::{
    build_transport_type, compose_http_transport, compose_nats_transport, compose_tcp_transport,
    compose_transport_for_mode, discovery_outcome, fixed_port_from_env, next_start_step,
    portname_device_type, read_visibility_env, resolved_http_port, resolved_tcp_port,
    transport_mode_has_fixed_addressing, wire_health_check_target, DeviceVisibility,
    PortNameConfigBuilder, RequestPlane, RequestPlaneMode, StartStep,
};
use pagoda_runtime::servicegroup::{DeviceType, Namespace, PortName, TransportType};
use pagoda_runtime::system_health::SystemHealth;
use pagoda_runtime::transports::instance_subject;
use std::sync::Arc;

fn plane() -> RequestPlane {
    RequestPlane {
        tcp_host: "10.0.0.1".to_string(),
        tcp_port: None,
        bound_tcp_port: Err("tcp server not bound".to_string()),
        http_host: "example.org".to_string(),
        http_port: None,
        bound_http_port: Err("http server not bound".to_string()),
        http_root_path: None,
    }
}

fn generate() -> PortName {
    let ns = Arc::new(Namespace::new("ns".to_string()).unwrap());
    let group = Arc::new(ns.service_group("comp").unwrap());
    group.portname("gen")
}

#[test]
fn portname_device_type_defaults_to_cuda_when_env_unset() {
    assert_eq!(portname_device_type(None, None), Some(DeviceType::Cuda));
}

#[test]
fn portname_device_type_cuda_disabled_values_map_to_cpu() {
    for v in ["", "-1", "none", "void", "NONE", "Void", "  -1  "] {
        assert_eq!(portname_device_type(Some(v), None), Some(DeviceType::Cpu));
    }
}

#[test]
fn portname_device_type_keeps_cuda_when_devices_listed() {
    assert_eq!(portname_device_type(Some("0,1"), None), Some(DeviceType::Cuda));
}

#[test]
fn portname_device_type_handles_nvidia_visible_devices() {
    assert_eq!(portname_device_type(None, Some("none")), Some(DeviceType::Cpu));
    assert_eq!(portname_device_type(None, Some("void")), Some(DeviceType::Cpu));
    assert_eq!(portname_device_type(None, Some("")), Some(DeviceType::Cuda));
    assert_eq!(portname_device_type(None, Some("all")), Some(DeviceType::Cuda));
    assert_eq!(portname_device_type(None, Some("-1")), Some(DeviceType::Cuda));
}

#[test]
fn portname_device_type_short_circuits_on_cuda() {
    assert_eq!(portname_device_type(Some("-1"), Some("none")), Some(DeviceType::Cpu));
    assert_eq!(portname_device_type(Some("0"), Some("none")), Some(DeviceType::Cpu));
    assert_eq!(portname_device_type(Some("-1"), Some("0")), Some(DeviceType::Cpu));
}

#[test]
fn white_space_of_any_kind_is_dropped() {
    assert_eq!(
        read_visibility_env(Some("\u{a0}\u{3000}\tNoNe\n"), false),
        DeviceVisibility::GpuForciblyDisabled
    );
    assert_eq!(
        read_visibility_env(Some("no ne"), true),
        DeviceVisibility::GpuAllowed
    );
}

#[test]
fn fixed_port_returns_none_when_unset() {
    assert_eq!(fixed_port_from_env(None), None);
}

#[test]
fn fixed_port_returns_none_for_invalid_values() {
    assert_eq!(fixed_port_from_env(Some("abc")), None);
    assert_eq!(fixed_port_from_env(Some("0")), None);
    assert_eq!(fixed_port_from_env(Some("99999")), None);
}

#[test]
fn fixed_port_returns_some_for_valid_port() {
    assert_eq!(fixed_port_from_env(Some("8443")), Some(8443));
}

#[test]
fn fixed_port_agrees_with_the_standard_parser() {
    for text in [
        "", "+", "-", "+1", "-1", "65535", "65536", "00080", "+00000000000065535", "1 ", " 1",
        "１", "1_0", "99999999999999999999",
    ] {
        let expected = text.parse::<u16>().ok().filter(|p| *p != 0);
        assert_eq!(fixed_port_from_env(Some(text)), expected, "{text:?}");
    }
}

#[test]
fn transport_mode_nats_is_always_fixed() {
    assert!(transport_mode_has_fixed_addressing(RequestPlaneMode::Nats, &plane()));
}

#[test]
fn transport_mode_tcp_http_depends_on_env() {
    let mut p = plane();
    assert!(!transport_mode_has_fixed_addressing(RequestPlaneMode::Tcp, &p));
    assert!(!transport_mode_has_fixed_addressing(RequestPlaneMode::Http, &p));

    p.tcp_port = Some("9001".to_string());
    p.http_port = Some("9002".to_string());
    assert!(transport_mode_has_fixed_addressing(RequestPlaneMode::Tcp, &p));
    assert!(transport_mode_has_fixed_addressing(RequestPlaneMode::Http, &p));

    p.tcp_port = Some("0".to_string());
    assert!(!transport_mode_has_fixed_addressing(RequestPlaneMode::Tcp, &p));
}

#[test]
fn compose_tcp_transport_format() {
    let mut p = plane();
    p.tcp_port = Some("9090".to_string());
    let res = compose_tcp_transport(&p, "gen", 0xCAFE).unwrap();
    assert_eq!(res, TransportType::Tcp("10.0.0.1:9090/cafe/gen".to_string()));
    match res {
        TransportType::Tcp(s) => assert!(s.ends_with(":9090/cafe/gen")),
        _ => panic!("expected a TCP address"),
    }
}

#[test]
fn compose_http_transport_default_root_path() {
    let mut p = plane();
    p.http_port = Some("8080".to_string());
    let res = compose_http_transport(&p, "gen").unwrap();
    match res {
        TransportType::Http(s) => {
            assert!(s.starts_with("http://"));
            assert!(s.ends_with(":8080/v1/rpc/gen"));
        }
        _ => panic!("expected a URL"),
    }
}

#[test]
fn compose_http_transport_custom_root_path() {
    let mut p = plane();
    p.http_port = Some("8080".to_string());
    p.http_root_path = Some("/custom/path".to_string());
    let res = compose_http_transport(&p, "gen").unwrap();
    match res {
        TransportType::Http(s) => assert!(s.ends_with(":8080/custom/path/gen")),
        _ => panic!("expected a URL"),
    }
}

#[test]
fn compose_nats_transport_delegates_to_subject() {
    let id = PortNameId {
        namespace: "ns".to_string(),
        servicegroup: "comp".to_string(),
        name: "gen".to_string(),
    };
    let expected = instance_subject(&id, 42);
    let actual = compose_nats_transport(&id, 42);
    assert_eq!(expected, "ns.comp.gen.2a");
    assert_eq!(actual, TransportType::Nats(expected));
}

#[test]
fn bound_port_counts_where_none_is_fixed() {
    let mut p = plane();
    assert_eq!(resolved_tcp_port(&p).unwrap_err(), "tcp server not bound");
    assert_eq!(resolved_http_port(&p).unwrap_err(), "http server not bound");
    p.bound_tcp_port = Ok(1234);
    assert_eq!(resolved_tcp_port(&p).unwrap(), 1234);
    p.tcp_port = Some("77".to_string());
    assert_eq!(resolved_tcp_port(&p).unwrap(), 77);
}

#[test]
fn transport_is_built_after_binding() {
    let id = PortNameId::from("ns.comp.gen");
    let mut p = plane();
    assert_eq!(
        build_transport_type(RequestPlaneMode::Tcp, &p, &id, 1, Err("no".to_string())).unwrap_err(),
        "no"
    );
    p.bound_tcp_port = Ok(5);
    assert_eq!(
        build_transport_type(RequestPlaneMode::Tcp, &p, &id, 16, Ok(())).unwrap(),
        TransportType::Tcp("10.0.0.1:5/10/gen".to_string())
    );
    assert_eq!(
        build_transport_type(RequestPlaneMode::Nats, &p, &id, 16, Err("no".to_string())).unwrap(),
        TransportType::Nats("ns.comp.gen.10".to_string())
    );
    assert_eq!(
        compose_transport_for_mode(RequestPlaneMode::Http, &p, &id, 0).unwrap_err(),
        "http server not bound"
    );
}

#[test]
fn builder_needs_a_port_name_and_a_handler() {
    assert_eq!(
        PortNameConfigBuilder::<u8>::default().start().err().unwrap(),
        "`portname` must be initialized"
    );
    let builder = PortNameConfigBuilder::<u8>::from_portname(Arc::new(generate()));
    assert_eq!(builder.start().err().unwrap(), "`handler` must be initialized");

    let (config, step) = PortNameConfigBuilder::from_portname(Arc::new(generate()))
        .handler(3u8)
        .metrics_labels(Some(vec![("a".to_string(), "b".to_string())]))
        .start()
        .ok()
        .unwrap();
    assert!(config.graceful_shutdown);
    assert_eq!(config.handler, 3);
    assert_eq!(config.portname.name(), "gen");
    assert_eq!(config.metrics_labels.unwrap().len(), 1);
    assert!(config.health_check_payload.is_none());
    assert!(matches!(step, StartStep::AttachMetrics));
}

#[test]
fn port_name_offers_a_builder() {
    let portname = Arc::new(generate());
    let (config, _) = portname.portname_builder::<u8>().handler(5).start().ok().unwrap();
    assert!(Arc::ptr_eq(&config.portname, &portname));
    assert_eq!(config.handler, 5);
}

#[test]
fn local_engine_is_entered_under_the_port_name() {
    let mut engines: Dict<String, u32> = Dict::new();
    let builder = PortNameConfigBuilder::<u8>::from_portname(Arc::new(generate()))
        .graceful_shutdown(false)
        .register_local_engine(&mut engines, 9)
        .unwrap();
    assert_eq!(engines.get(&"gen".to_string()), Some(&9));
    let (config, _) = builder.handler(1).start().ok().unwrap();
    assert!(!config.graceful_shutdown);

    let mut none: Dict<String, u32> = Dict::new();
    let _ = PortNameConfigBuilder::<u8>::default().register_local_engine(&mut none, 9);
    assert_eq!(none.len(), 0);
}

#[test]
fn start_runs_in_order() {
    let mut step = StartStep::AttachMetrics;
    let mut names = Vec::new();
    loop {
        names.push(match &step {
            StartStep::AttachMetrics => "metrics",
            StartStep::TrackShutdown => "track",
            StartStep::AcquireServer => "server",
            StartStep::WireHealthCheck => "health",
            StartStep::RegisterHandler => "handler",
            StartStep::SpawnCleanup => "cleanup",
            StartStep::Announce => "announce",
            StartStep::CancelCleanup => "cancel",
            StartStep::AwaitCleanup => "await",
            StartStep::Done(result) => {
                assert!(result.is_ok());
                break;
            }
        });
        step = next_start_step(step, Ok(()), true);
    }
    assert_eq!(
        names,
        vec!["metrics", "track", "server", "health", "handler", "cleanup", "announce", "await"]
    );
}

#[test]
fn failed_announcement_cancels_the_cleanup() {
    let step = next_start_step(StartStep::Announce, Err("down".to_string()), true);
    assert!(matches!(step, StartStep::CancelCleanup));
    match next_start_step(step, Ok(()), true) {
        StartStep::Done(Err(error)) => assert_eq!(
            error.to_string(),
            "Unable to register service for discovery. Check discovery service status"
        ),
        _ => panic!("expected an error"),
    }
    match next_start_step(StartStep::AcquireServer, Err("no server".to_string()), false) {
        StartStep::Done(Err(error)) => assert_eq!(error.to_string(), "no server"),
        _ => panic!("expected an error"),
    }
    assert!(matches!(
        next_start_step(StartStep::AttachMetrics, Ok(()), false),
        StartStep::AcquireServer
    ));
}

fn health(checked: bool) -> SystemHealth<u8, (), ()> {
    SystemHealth::new(
        HealthStatus::Ready,
        vec![],
        checked,
        "/health".to_string(),
        "/live".to_string(),
        (),
        0,
    )
}

#[test]
fn health_check_needs_an_engine_where_checks_are_on() {
    let engines: Dict<String, u8> = Dict::new();
    let mut checked = health(true);
    let transport = TransportType::Tcp("t".to_string());

    let none = wire_health_check_target(
        &generate(), 1, &mut checked, &engines, None, Ok(transport.clone()), None,
        serde_json::Value::Null, 7,
    );
    assert!(none.unwrap().is_none());
    assert!(!checked.has_health_check_targets());

    let refused = wire_health_check_target(
        &generate(), 1, &mut checked, &engines, Some(serde_json::Value::from(1)),
        Ok(transport.clone()), None, serde_json::Value::Null, 7,
    );
    assert_eq!(
        refused.unwrap_err(),
        "PortName 'gen' has a health_check_payload and canary is enabled, but no local engine is registered. Call .register_local_engine() before .start() so the canary health check can function."
    );

    let mut unchecked = health(false);
    let unreachable = wire_health_check_target(
        &generate(), 1, &mut unchecked, &engines, Some(serde_json::Value::from(1)),
        Err("no address".to_string()), None, serde_json::Value::Null, 7,
    );
    assert_eq!(unreachable.unwrap_err(), "no address");

    let wired = wire_health_check_target(
        &generate(), 1, &mut unchecked, &engines, Some(serde_json::Value::from(1)),
        Ok(transport), Some(DeviceType::Cpu), serde_json::Value::Null, 7,
    );
    let (announced, notifier) = wired.unwrap().unwrap();
    assert_eq!(announced.unwrap(), "gen");
    assert_eq!(*notifier, 7);
    let target = unchecked.get_health_check_target("gen").unwrap();
    assert_eq!(target.instance.to_string(), "ns/comp/gen/1");
    assert_eq!(target.instance.device_type, Some(DeviceType::Cpu));
    assert_eq!(target.payload, serde_json::Value::from(1));
}

#[test]
fn instances_enter_and_leave_discovery() {
    let portname = generate();
    let transport = TransportType::Http("u".to_string());
    match portname.register_portname_instance(Ok(transport.clone()), Some(DeviceType::Cuda)).unwrap() {
        DiscoverySpec::PortName { namespace, servicegroup, portname, transport: t, device_type } => {
            assert_eq!((namespace.as_str(), servicegroup.as_str(), portname.as_str()), ("ns", "comp", "gen"));
            assert_eq!(t, transport);
            assert_eq!(device_type, Some(DeviceType::Cuda));
        }
    }
    match portname.unregister_portname_instance(5, Ok(transport), None, serde_json::Value::Null).unwrap() {
        DiscoveryInstance::PortName(instance) => {
            assert_eq!(instance.id(), 5);
            assert_eq!(instance.portname_id().to_string(), "ns/comp/gen");
        }
        _ => panic!("expected an instance"),
    }
    assert_eq!(
        portname.register_portname_instance(Err("e".to_string()), None).unwrap_err(),
        "e"
    );
    assert!(discovery_outcome(true, Ok(())).is_ok());
    assert_eq!(
        discovery_outcome(true, Err("x".to_string())).unwrap_err(),
        "Unable to re-register portname instance to discovery. Check discovery service status"
    );
    assert_eq!(
        discovery_outcome(false, Err("x".to_string())).unwrap_err(),
        "Unable to unregister portname instance from discovery. Check discovery service status"
    );
}
