use pagoda_runtime::discovery::PortNameInstanceId;
use pagoda_runtime::pipeline::error::PipelineError;
use pagoda_runtime::pipeline::tcp::message::StreamType;
use pagoda_runtime::pipeline::tcp::server::{
    resolve_local_ip, IpLookupError, IpResolver, ServerOptions, StreamOptions, TcpStreamServer,
    TOMBSTONE_TTL,
};

type Server = TcpStreamServer<u8, u32>;

fn test_server() -> Server {
    TcpStreamServer::from_listener("127.0.0.1".to_string(), Ok(4321)).unwrap()
}

fn id(namespace: &str, servicegroup: &str, portname: &str, instance_id: u64) -> PortNameInstanceId {
    PortNameInstanceId {
        namespace: namespace.to_string(),
        servicegroup: servicegroup.to_string(),
        portname: portname.to_string(),
        instance_id,
    }
}

fn worker(instance_id: u64) -> PortNameInstanceId {
    id("ns", "sg", "generate", instance_id)
}

fn register(server: &mut Server, waiting: u32) -> String {
    let pending = server.register(StreamOptions {
        context: "ctx".to_string(),
        request_stream: None,
        response_stream: Some(waiting),
    });
    assert!(pending.send_stream.is_none());
    pending.recv_stream.unwrap().subject
}

struct FailingIpResolver;

impl IpResolver for FailingIpResolver {
    fn local_ip(&self) -> Result<String, IpLookupError> {
        Err(IpLookupError::LocalIpAddressNotFound)
    }

    fn local_ipv6(&self) -> Result<String, IpLookupError> {
        Err(IpLookupError::LocalIpAddressNotFound)
    }
}

#[test]
fn test_tcp_stream_server_fallback_to_loopback() {
    let options = ServerOptions::builder().port(0).build().unwrap();
    let host = Server::bind_host(&options, &FailingIpResolver, Ok(vec![])).unwrap();
    assert_eq!(host, "127.0.0.1");
}

#[test]
fn server_starts_on_the_resolved_address() {
    let options = ServerOptions::builder().port(80).build().unwrap();
    let mut asked = String::new();
    let server = Server::new_with_resolver(&options, &FailingIpResolver, Ok(vec![]), |address| {
        asked = address;
        Ok(8080)
    })
    .ok()
    .unwrap();
    assert_eq!(asked, "127.0.0.1:80");
    assert_eq!(server.address(), "127.0.0.1:8080");
    let failed = Server::new_with_resolver(&options, &FailingIpResolver, Ok(vec![]), |_| {
        Err("denied".to_string())
    });
    assert!(matches!(
        failed.err().unwrap(),
        PipelineError::Generic(text) if text == "Failed to start TcpStreamServer: denied"
    ));
}

#[test]
fn host_by_interface_takes_the_last_address() {
    let options = Server::options_builder()
        .interface(Some("eth0".to_string()))
        .build()
        .unwrap();
    assert_eq!(options.port, 0);
    let list = vec![
        ("eth0".to_string(), "10.0.0.2".to_string()),
        ("lo".to_string(), "127.0.0.1".to_string()),
        ("eth0".to_string(), "fe80::1".to_string()),
    ];
    assert_eq!(Server::bind_host(&options, &FailingIpResolver, Ok(list)).unwrap(), "fe80::1");
    match Server::bind_host(&options, &FailingIpResolver, Ok(vec![])).unwrap_err() {
        PipelineError::Generic(text) => assert_eq!(text, "Interface not found: eth0"),
        _ => panic!("expected a generic error"),
    }
    match Server::bind_host(&options, &FailingIpResolver, Err("denied".to_string())).unwrap_err() {
        PipelineError::LocalIpAddressError(text) => assert_eq!(text, "denied"),
        _ => panic!("expected a lookup error"),
    }
}

#[test]
fn lookup_errors_other_than_absence_are_reported() {
    let v4 = || Ok("192.168.1.5".to_string());
    let v6 = || Ok("fe80::2".to_string());
    assert_eq!(resolve_local_ip(v4(), v6()).unwrap(), "192.168.1.5");
    assert_eq!(
        resolve_local_ip(Err(IpLookupError::LocalIpAddressNotFound), v6()).unwrap(),
        "fe80::2"
    );
    match resolve_local_ip(Err(IpLookupError::Other("io".to_string())), v6()).unwrap_err() {
        PipelineError::Generic(text) => {
            assert_eq!(text, "Failed to resolve local IP address: io")
        }
        _ => panic!("expected a generic error"),
    }
    match resolve_local_ip(
        Err(IpLookupError::LocalIpAddressNotFound),
        Err(IpLookupError::Other("v6".to_string())),
    )
    .unwrap_err()
    {
        PipelineError::Generic(text) => {
            assert_eq!(text, "Failed to resolve local IP address: v6")
        }
        _ => panic!("expected a generic error"),
    }
}

#[test]
fn server_that_cannot_start_is_an_error() {
    match Server::from_listener("h".to_string(), Err("in use".to_string())).err().unwrap() {
        PipelineError::Generic(text) => {
            assert_eq!(text, "Failed to start TcpStreamServer: in use")
        }
        _ => panic!("expected a generic error"),
    }
}

#[test]
fn registration_announces_both_streams() {
    let mut server = test_server();
    let pending = server.register(StreamOptions {
        context: "c-1".to_string(),
        request_stream: Some(1),
        response_stream: Some(2),
    });
    let send = pending.send_stream.unwrap();
    let recv = pending.recv_stream.unwrap();
    assert_eq!(send.address, "127.0.0.1:4321");
    assert_eq!(recv.address, "127.0.0.1:4321");
    assert_eq!(send.context, "c-1");
    assert_eq!(send.stream_type, StreamType::Request);
    assert_eq!(recv.stream_type, StreamType::Response);
    assert_ne!(send.subject, recv.subject);
    for subject in [&send.subject, &recv.subject] {
        assert_eq!(subject.len(), 36);
        assert_eq!(subject.as_bytes()[14], b'4');
        assert!(subject
            .chars()
            .all(|c| c == '-' || c.is_ascii_digit() || ('a'..='f').contains(&c)));
    }
    assert_eq!(server.cancel_send_stream(&send.subject), Some(1));
    assert_eq!(server.cancel_send_stream(&send.subject), None);
    assert_eq!(server.take_response_stream(&recv.subject), Ok(2));
}

#[test]
fn subject_is_taken_once() {
    let mut server = test_server();
    let subject = register(&mut server, 5);
    assert_eq!(server.take_response_stream(&subject), Ok(5));
    assert_eq!(
        server.take_response_stream(&subject).unwrap_err(),
        format!("Subject not found: {subject}; upstream publisher specified a subject unknown to the downsteam subscriber")
    );
}

#[test]
fn test_cancel_instance_streams_unblocks_receiver() {
    let mut server = test_server();
    let subject = register(&mut server, 1);
    assert!(server.associate_instance(&subject, &worker(42), 0));
    assert_eq!(server.cancel_instance_streams(&worker(42), 1), 1);
    assert!(server.take_response_stream(&subject).is_err());
}

#[test]
fn test_cancel_instance_streams_multiple_subjects() {
    let mut server = test_server();
    let mut subjects = Vec::new();
    for i in 0..5 {
        let subject = register(&mut server, i);
        assert!(server.associate_instance(&subject, &worker(100), 0));
        subjects.push(subject);
    }
    assert_eq!(server.cancel_instance_streams(&worker(100), 0), 5);
    for subject in &subjects {
        assert!(server.take_response_stream(subject).is_err());
    }
    assert_eq!(server.cancel_instance_streams(&worker(100), 0), 0);
}

#[test]
fn test_cancel_instance_streams_nonexistent_instance() {
    let mut server = test_server();
    assert_eq!(server.cancel_instance_streams(&worker(999), 0), 0);
}

#[test]
fn test_cancel_recv_stream_cleans_up_instance_tracking() {
    let mut server = test_server();
    let subject = register(&mut server, 3);
    assert!(server.associate_instance(&subject, &worker(200), 0));
    assert_eq!(server.cancel_recv_stream(&subject), Some(3));
    assert_eq!(server.cancel_recv_stream(&subject), None);
    assert_eq!(server.cancel_instance_streams(&worker(200), 0), 0);
}

#[test]
fn test_associate_after_cancel_is_immediately_cancelled() {
    let mut server = test_server();
    assert_eq!(server.cancel_instance_streams(&worker(300), 10), 0);
    let subject = register(&mut server, 1);
    assert!(!server.associate_instance(&subject, &worker(300), 11));
    assert!(server.take_response_stream(&subject).is_err());
}

#[test]
fn test_clear_tombstone_allows_new_associations() {
    let mut server = test_server();
    server.cancel_instance_streams(&worker(400), 10);
    server.clear_instance_tombstone(&worker(400));
    let subject = register(&mut server, 1);
    assert!(server.associate_instance(&subject, &worker(400), 11));
    assert_eq!(server.take_response_stream(&subject), Ok(1));
}

#[test]
fn test_cancel_does_not_affect_sibling_portname() {
    let mut server = test_server();
    let generate = id("ns", "sg", "generate", 1);
    let embed = id("ns", "sg", "embed", 1);
    let a = register(&mut server, 1);
    let b = register(&mut server, 2);
    assert!(server.associate_instance(&a, &generate, 0));
    assert!(server.associate_instance(&b, &embed, 0));
    assert_eq!(server.cancel_instance_streams(&generate, 0), 1);
    assert!(server.take_response_stream(&a).is_err());
    assert_eq!(server.take_response_stream(&b), Ok(2));
}

#[test]
fn test_tombstone_is_portname_scoped() {
    let mut server = test_server();
    server.cancel_instance_streams(&id("ns", "sg", "generate", 1), 0);
    let subject = register(&mut server, 1);
    assert!(server.associate_instance(&subject, &id("ns", "sg", "embed", 1), 1));
}

#[test]
fn test_cancel_does_not_affect_different_servicegroup() {
    let mut server = test_server();
    let a = register(&mut server, 1);
    let b = register(&mut server, 2);
    assert!(server.associate_instance(&a, &id("ns", "sg-a", "generate", 1), 0));
    assert!(server.associate_instance(&b, &id("ns", "sg-b", "generate", 1), 0));
    assert_eq!(server.cancel_instance_streams(&id("ns", "sg-a", "generate", 1), 0), 1);
    assert_eq!(server.take_response_stream(&b), Ok(2));
}

#[test]
fn test_tombstone_expires_after_ttl() {
    let mut server = test_server();
    server.cancel_instance_streams(&worker(500), 7);
    let subject = register(&mut server, 1);
    assert!(server.associate_instance(&subject, &worker(500), 7 + TOMBSTONE_TTL));
}

#[test]
fn test_tombstone_within_ttl_blocks_associate() {
    let mut server = test_server();
    server.cancel_instance_streams(&worker(501), 7);
    let subject = register(&mut server, 1);
    assert!(!server.associate_instance(&subject, &worker(501), 7 + TOMBSTONE_TTL - 1));
}

#[test]
fn test_tombstone_lazy_prune_on_cancel() {
    let mut server = test_server();
    server.cancel_instance_streams(&worker(1), 0);
    server.cancel_instance_streams(&worker(2), TOMBSTONE_TTL + 1);
    let a = register(&mut server, 1);
    assert!(server.associate_instance(&a, &worker(1), 0));
    let b = register(&mut server, 2);
    assert!(!server.associate_instance(&b, &worker(2), TOMBSTONE_TTL + 2));
}

#[test]
fn test_clear_tombstone_only_affects_named_identity() {
    let mut server = test_server();
    server.cancel_instance_streams(&worker(1), 0);
    server.cancel_instance_streams(&worker(2), 0);
    server.clear_instance_tombstone(&worker(1));
    let a = register(&mut server, 1);
    let b = register(&mut server, 2);
    assert!(server.associate_instance(&a, &worker(1), 1));
    assert!(!server.associate_instance(&b, &worker(2), 1));
}

#[test]
fn test_tombstone_scoped_to_full_identity() {
    let mut server = test_server();
    server.cancel_instance_streams(&id("a", "b", "c", 1), 0);
    for other in [id("x", "b", "c", 1), id("a", "x", "c", 1), id("a", "b", "x", 1), id("a", "b", "c", 2)] {
        let subject = register(&mut server, 1);
        assert!(server.associate_instance(&subject, &other, 1));
    }
    let subject = register(&mut server, 1);
    assert!(!server.associate_instance(&subject, &id("a", "b", "c", 1), 1));
}

#[test]
fn subject_handed_on_is_listed_by_both_instances() {
    let mut server = test_server();
    let subject = register(&mut server, 1);
    assert!(server.associate_instance(&subject, &worker(1), 0));
    assert!(server.associate_instance(&subject, &worker(2), 0));
    assert_eq!(server.cancel_instance_streams(&worker(1), 0), 1);
    assert!(server.take_response_stream(&subject).is_err());
    assert_eq!(server.cancel_instance_streams(&worker(2), 0), 1);
}

#[test]
fn tombstone_ttl_is_five_seconds() {
    assert_eq!(TOMBSTONE_TTL, 5_000_000_000);
    let options = ServerOptions::default();
    assert_eq!(options.port, 0);
    assert!(options.interface.is_none());
}
