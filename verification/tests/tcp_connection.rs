use pagoda_runtime::pipeline::tcp::listener::{
    issues_control, joined_tasks, listener_start, process_control_message, ConnectionInput,
    ConnectionOutput, ConnectionPhase, ControlAction, ReceiveAction, ReceiveHandler, ReceiveReady,
    Received,
};
use pagoda_runtime::pipeline::tcp::message::{
    CallHomeHandshake, ControlMessage, Incoming, ResponseStreamPrologue, StreamType,
    TwoPartMessage, TwoPartMessageType,
};
use pagoda_runtime::pipeline::tcp::server::{StreamOptions, TcpStreamServer};

type Server = TcpStreamServer<(), u32>;
type Phase = ConnectionPhase<u32>;

fn server_with_subject() -> (Server, String) {
    let mut server = Server::from_listener("127.0.0.1".to_string(), Ok(1)).unwrap();
    let pending = server.register(StreamOptions {
        context: "c".to_string(),
        request_stream: None,
        response_stream: Some(77),
    });
    (server, pending.recv_stream.unwrap().subject)
}

fn header(bytes: &[u8]) -> Incoming {
    Incoming::Frame(TwoPartMessage::from_header(bytes.to_vec()))
}

fn error_of(output: ConnectionOutput<u32>) -> (Option<(u32, String)>, String) {
    match output {
        ConnectionOutput::Finish { notify, outcome } => (notify, outcome.unwrap_err()),
        _ => panic!("expected the connection to end"),
    }
}

fn accepted(server: &mut Server, subject: &str) -> Phase {
    let (phase, output) = Phase::Opened.step(server, ConnectionInput::Read(header(b"h")));
    assert!(matches!(output, ConnectionOutput::ParseHandshake(h) if h == b"h"));
    let handshake = CallHomeHandshake {
        subject: subject.to_string(),
        stream_type: StreamType::Response,
    };
    let (phase, output) = phase.step(server, ConnectionInput::HandshakeParsed(Ok(handshake)));
    assert!(matches!(output, ConnectionOutput::ReadPrologue));
    phase
}

#[test]
fn response_connection_streams() {
    let (mut server, subject) = server_with_subject();
    let phase = accepted(&mut server, &subject);
    let (phase, output) = phase.step(&mut server, ConnectionInput::Read(header(b"p")));
    assert!(matches!(output, ConnectionOutput::ParsePrologue(h) if h == b"p"));
    let prologue = ResponseStreamPrologue { error: None };
    let (phase, output) = phase.step(&mut server, ConnectionInput::PrologueParsed(Ok(prologue)));
    assert!(matches!(output, ConnectionOutput::HandOver(77)));
    let (phase, output) = phase.step(&mut server, ConnectionInput::HandedOver(true));
    assert!(matches!(output, ConnectionOutput::StartTasks));
    let (phase, output) = phase.step(&mut server, ConnectionInput::TasksJoined(Ok(()), Ok(())));
    assert!(matches!(phase, ConnectionPhase::Closed));
    assert!(matches!(output, ConnectionOutput::Finish { notify: None, outcome: Ok(()) }));
    assert!(server.take_response_stream(&subject).is_err());
}

#[test]
fn first_message_has_to_carry_a_handshake() {
    let (mut server, _) = server_with_subject();
    let cases = vec![
        (Incoming::Closed, "Connection closed without a ControlMessage"),
        (Incoming::Failed("rst".to_string()), "rst"),
        (
            Incoming::Frame(TwoPartMessage::from_data(vec![1])),
            "Expected ControlMessage, got DataMessage",
        ),
    ];
    for (first, text) in cases {
        let (phase, output) = Phase::Opened.step(&mut server, ConnectionInput::Read(first));
        assert!(matches!(phase, ConnectionPhase::Closed));
        assert_eq!(error_of(output), (None, text.to_string()));
    }
}

#[test]
fn handshake_is_routed() {
    let (mut server, _) = server_with_subject();
    let (_, output) = Phase::Greeting.step(
        &mut server,
        ConnectionInput::HandshakeParsed(Err("bad".to_string())),
    );
    assert_eq!(
        error_of(output).1,
        "Failed to deserialize the first message as a valid `CallHomeHandshake`: bad"
    );
    let request = CallHomeHandshake { subject: "s".to_string(), stream_type: StreamType::Request };
    let (_, output) =
        Phase::Greeting.step(&mut server, ConnectionInput::HandshakeParsed(Ok(request)));
    assert!(matches!(output, ConnectionOutput::Finish { notify: None, outcome: Ok(()) }));
    let unknown = CallHomeHandshake { subject: "s".to_string(), stream_type: StreamType::Response };
    let (_, output) =
        Phase::Greeting.step(&mut server, ConnectionInput::HandshakeParsed(Ok(unknown)));
    assert!(error_of(output).1.starts_with("Subject not found: s; "));
}

#[test]
fn test_tcp_stream_server_returns_error_on_invalid_prologue() {
    let (mut server, subject) = server_with_subject();
    let phase = accepted(&mut server, &subject);
    let frame = TwoPartMessage { header: vec![1], data: vec![2] };
    let (phase, output) = phase.step(&mut server, ConnectionInput::Read(Incoming::Frame(frame)));
    assert!(matches!(phase, ConnectionPhase::Closed));
    let text = "malformed prologue: expected HeaderOnly ControlMessage".to_string();
    assert_eq!(error_of(output), (Some((77, text.clone())), text));
}

#[test]
fn worker_error_reaches_the_requester() {
    let (mut server, subject) = server_with_subject();
    let phase = accepted(&mut server, &subject);
    let (phase, _) = phase.step(&mut server, ConnectionInput::Read(header(b"p")));
    let prologue = ResponseStreamPrologue { error: Some("no memory".to_string()) };
    let (_, output) = phase.step(&mut server, ConnectionInput::PrologueParsed(Ok(prologue)));
    assert_eq!(
        error_of(output),
        (
            Some((77, "no memory".to_string())),
            "Received error prologue: no memory".to_string()
        )
    );
}

#[test]
fn prologue_that_does_not_come_or_read_ends_silently() {
    for (second, text) in [
        (Incoming::Closed, "Connection closed without a ControlMessge"),
        (Incoming::Failed("eof".to_string()), "eof"),
    ] {
        let (mut server, subject) = server_with_subject();
        let phase = accepted(&mut server, &subject);
        let (_, output) = phase.step(&mut server, ConnectionInput::Read(second));
        assert_eq!(error_of(output), (None, text.to_string()));
    }
    let (mut server, _) = server_with_subject();
    let (_, output) = Phase::Announced(1).step(
        &mut server,
        ConnectionInput::PrologueParsed(Err("j".to_string())),
    );
    assert_eq!(error_of(output), (None, "Failed to deserialize ControlMessage: j".to_string()));
    let (_, output) = Phase::HandingOver.step(&mut server, ConnectionInput::HandedOver(false));
    assert_eq!(
        error_of(output).1,
        "The requester of the stream has been dropped before the connection was established"
    );
}

#[test]
fn sending_task_failure_comes_first() {
    let e = |s: &str| Err::<(), String>(s.to_string());
    assert_eq!(joined_tasks(e("s"), e("r")), e("s"));
    assert_eq!(joined_tasks(Ok(()), e("r")), e("r"));
    assert_eq!(joined_tasks(Ok(()), Ok(())), Ok(()));
}

#[test]
fn listener_reports_its_start() {
    let ok = listener_start("h:1", Ok(9));
    assert_eq!(ok.ready, Ok(9));
    assert_eq!(ok.task, Ok(()));
    let failed = listener_start("h:1", Err("busy".to_string()));
    assert_eq!(failed.ready, Err("Failed to start TcpListender on h:1: busy".to_string()));
    assert_eq!(failed.task, Err("Failed to start TcpListender on h:1".to_string()));
}

fn ready(received: Option<Received>) -> ReceiveReady {
    ReceiveReady { response_closed: false, killed: false, stopped: false, received }
}

fn frame(control: Option<Result<ControlMessage, String>>, data: &[u8]) -> Option<Received> {
    Some(Received::Frame { control, data: data.to_vec() })
}

#[test]
fn data_is_forwarded() {
    let mut handler = ReceiveHandler::new();
    let mut r = ready(frame(None, b"abc"));
    assert!(matches!(handler.step(&mut r), ReceiveAction::Forward(d) if d == b"abc"));
    assert!(r.received.is_none());
    assert!(matches!(handler.step(&mut ready(frame(None, b""))), ReceiveAction::Skip));
    assert!(matches!(handler.step(&mut ready(None)), ReceiveAction::Wait));
    assert_eq!(handler.forwarded(true), None);
    assert_eq!(handler.forwarded(false), Some(ControlMessage::Kill));
}

#[test]
fn test_tcp_stream_server_sends_kill_on_unexpected_control_message() {
    for control in [Ok(ControlMessage::Kill), Ok(ControlMessage::Stop), Err("bad".to_string())] {
        let mut handler = ReceiveHandler::new();
        assert!(matches!(
            handler.step(&mut ready(frame(Some(control), b""))),
            ReceiveAction::End(Some(ControlMessage::Kill))
        ));
    }
}

#[test]
fn test_tcp_stream_server_sends_kill_on_read_error() {
    let mut handler = ReceiveHandler::new();
    assert!(matches!(
        handler.step(&mut ready(Some(Received::Failed))),
        ReceiveAction::End(Some(ControlMessage::Kill))
    ));
}

#[test]
fn test_tcp_stream_server_sends_kill_on_sentinel_with_data() {
    let mut handler = ReceiveHandler::new();
    assert!(matches!(
        handler.step(&mut ready(frame(Some(Ok(ControlMessage::Sentinel)), b"x"))),
        ReceiveAction::End(Some(ControlMessage::Kill))
    ));
    assert!(matches!(
        handler.step(&mut ready(frame(Some(Ok(ControlMessage::Sentinel)), b""))),
        ReceiveAction::End(None)
    ));
    assert!(matches!(
        handler.step(&mut ready(Some(Received::Closed))),
        ReceiveAction::End(None)
    ));
}

#[test]
fn stop_is_passed_on_once_and_before_data() {
    let mut handler = ReceiveHandler::new();
    assert!(handler.can_stop());
    let mut r = ready(frame(None, b"d"));
    r.stopped = true;
    assert!(matches!(handler.step(&mut r), ReceiveAction::Issue(ControlMessage::Stop)));
    assert!(!handler.can_stop());
    assert!(r.received.is_some());
    assert!(matches!(handler.step(&mut r), ReceiveAction::Forward(d) if d == b"d"));
    r.received = frame(None, b"e");
    r.killed = true;
    assert!(matches!(
        handler.step(&mut r),
        ReceiveAction::End(Some(ControlMessage::Kill))
    ));
    let mut closed = ready(None);
    closed.response_closed = true;
    closed.stopped = true;
    assert!(matches!(
        ReceiveHandler::new().step(&mut closed),
        ReceiveAction::End(Some(ControlMessage::Kill))
    ));
}

#[test]
fn only_the_sentinel_may_come_from_a_worker() {
    assert_eq!(process_control_message(Ok(ControlMessage::Sentinel)), Ok(ControlAction::Shutdown));
    assert_eq!(
        process_control_message(Ok(ControlMessage::Kill)),
        Err("unexpected control message on response stream".to_string())
    );
    assert_eq!(process_control_message(Err("j".to_string())), Err("j".to_string()));
    assert!(issues_control(ControlMessage::Kill));
    assert!(issues_control(ControlMessage::Stop));
    assert!(!issues_control(ControlMessage::Sentinel));
}

#[test]
fn frames_are_told_apart_by_their_parts() {
    let kind = |h: &[u8], d: &[u8]| {
        TwoPartMessage { header: h.to_vec(), data: d.to_vec() }.into_message_type()
    };
    assert!(matches!(kind(b"h", b""), TwoPartMessageType::HeaderOnly(h) if h == b"h"));
    assert!(matches!(kind(b"", b"d"), TwoPartMessageType::DataOnly(d) if d == b"d"));
    assert!(matches!(kind(b"h", b"d"), TwoPartMessageType::HeaderAndData(_, _)));
    assert!(matches!(kind(b"", b""), TwoPartMessageType::Empty));
}
