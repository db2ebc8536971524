use pagoda_runtime::pipeline::tcp::client::{
    awaits_server_shutdown, handle_writer, wait_for_connection_tasks, wait_for_server_shutdown,
    writer_sent, ConnectOutcome, ConnectStep, ContextSignal, ReaderEvent, ReaderState,
    ShutdownRead, TcpClient, WriterReady, WriterStep, SHUTDOWN_DEADLINE_SECS,
};
use pagoda_runtime::pipeline::tcp::message::{
    ControlMessage, StreamType, TcpStreamConnectionInfo, TwoPartMessage, TwoPartMessageType,
};

fn info(stream_type: StreamType, context: &str) -> TcpStreamConnectionInfo {
    TcpStreamConnectionInfo {
        address: "h:1".to_string(),
        subject: "s-1".to_string(),
        context: context.to_string(),
        stream_type,
    }
}

#[test]
fn clients_have_an_identifier() {
    assert_eq!(TcpClient::new("w".to_string()).worker_id(), "w");
    let a = TcpClient::default();
    let b = TcpClient::default();
    assert_eq!(a.worker_id().len(), 36);
    assert_ne!(a.worker_id(), b.worker_id());
}

#[test]
fn only_a_missing_local_address_is_retried() {
    assert!(matches!(
        TcpClient::connect::<u8>(ConnectOutcome::AddrNotAvailable),
        ConnectStep::RetryAfterMs(200)
    ));
    assert!(matches!(
        TcpClient::connect(ConnectOutcome::Connected(3u8)),
        ConnectStep::Done(Ok(3))
    ));
    assert!(matches!(
        TcpClient::connect::<u8>(ConnectOutcome::Failed("refused".to_string())),
        ConnectStep::Done(Err(text)) if text == "refused"
    ));
}

#[test]
fn response_stream_is_planned() {
    let plan = TcpClient::create_response_stream("ctx", Ok(info(StreamType::Response, "ctx")))
        .ok()
        .unwrap();
    assert_eq!(plan.address, "h:1");
    assert_eq!(plan.handshake.subject, "s-1");
    assert_eq!(plan.handshake.stream_type, StreamType::Response);
    assert!(plan.prologue.unwrap().error.is_none());
}

#[test]
fn unfit_connection_info_is_refused() {
    let error = |context: &str, given| {
        TcpClient::create_response_stream(context, given).err().unwrap()
    };
    assert_eq!(
        error("ctx", Err("x".to_string())),
        "tcp-stream-connection-info-error"
    );
    assert_eq!(
        error("ctx", Ok(info(StreamType::Request, "ctx"))),
        "Invalid stream type; TcpClient requires the stream type to be `response`; however Request was passed"
    );
    assert_eq!(
        error("a\"b", Ok(info(StreamType::Response, "é\n"))),
        format!(
            "Invalid context; TcpClient requires the context to be {:?}; however {:?} was passed",
            "a\"b", "é\n"
        )
    );
}

#[test]
fn reader_failure_surfaces_first() {
    let e = |s: &str| s.to_string();
    assert_eq!(wait_for_connection_tasks::<u8, u8>(Ok(1), Ok(Ok(2))), Ok((1, 2)));
    assert_eq!(wait_for_connection_tasks::<u8, u8>(Ok(1), Ok(Err(e("w")))), Err(e("w")));
    assert_eq!(wait_for_connection_tasks::<u8, u8>(Ok(1), Err(e("j"))), Err(e("j")));
    assert_eq!(wait_for_connection_tasks::<u8, u8>(Err(e("r")), Ok(Ok(2))), Err(e("r")));
    assert_eq!(wait_for_connection_tasks::<u8, u8>(Err(e("r")), Err(e("j"))), Err(e("r")));
}

#[test]
fn test_wait_for_server_shutdown_skips_terminal_context() {
    assert!(!awaits_server_shutdown(true, false));
    assert!(!awaits_server_shutdown(false, true));
    assert!(!awaits_server_shutdown(true, true));
    assert!(awaits_server_shutdown(false, false));
    assert_eq!(SHUTDOWN_DEADLINE_SECS, 10);
}

#[test]
fn server_shutdown_is_awaited_until_no_bytes_come() {
    assert_eq!(wait_for_server_shutdown(ShutdownRead::Bytes(5)), None);
    assert_eq!(wait_for_server_shutdown(ShutdownRead::Bytes(0)), Some(Ok(())));
    assert_eq!(
        wait_for_server_shutdown(ShutdownRead::TimedOut("late".to_string())),
        Some(Err("late".to_string()))
    );
    assert_eq!(
        wait_for_server_shutdown(ShutdownRead::Failed("rst".to_string())),
        Some(Err("rst".to_string()))
    );
}

fn read(event: ReaderEvent) -> (ContextSignal, bool, u64) {
    let mut reader = ReaderState::new();
    let step = reader.step(event);
    (step.signal, step.end, reader.cancellations())
}

#[test]
fn test_handle_reader_stop_control_message() {
    assert!(read(ReaderEvent::Control(Ok(ControlMessage::Stop))) == (ContextSignal::Stop, false, 1));
}

#[test]
fn test_handle_reader_kill_control_message() {
    assert!(read(ReaderEvent::Control(Ok(ControlMessage::Kill))) == (ContextSignal::Kill, false, 1));
}

#[test]
fn test_handle_reader_exits_on_alive_channel_closed() {
    assert!(read(ReaderEvent::WriterGone) == (ContextSignal::Leave, true, 0));
}

#[test]
fn test_handle_reader_exits_on_stream_closed() {
    assert!(read(ReaderEvent::Closed) == (ContextSignal::Leave, true, 1));
}

#[test]
fn test_handle_reader_stop_then_kill() {
    let mut reader = ReaderState::new();
    assert!(reader.step(ReaderEvent::Control(Ok(ControlMessage::Stop))).signal == ContextSignal::Stop);
    assert!(reader.step(ReaderEvent::Control(Ok(ControlMessage::Kill))).signal == ContextSignal::Kill);
    assert!(reader.step(ReaderEvent::WriterGone).end);
    assert_eq!(reader.cancellations(), 1);
}

#[test]
fn test_handle_reader_increments_cancellation_counter_on_read_error() {
    assert!(read(ReaderEvent::Failed) == (ContextSignal::Kill, true, 1));
}

#[test]
fn test_handle_reader_kills_on_protocol_violations() {
    for event in [
        ReaderEvent::Control(Ok(ControlMessage::Sentinel)),
        ReaderEvent::Control(Err("not json".to_string())),
        ReaderEvent::NonControl,
    ] {
        assert!(read(event) == (ContextSignal::Kill, true, 1));
    }
}

fn writer(killed: bool, stopped: bool, message: Option<Option<u8>>) -> WriterStep<u8> {
    handle_writer(WriterReady { killed, stopped, message })
}

#[test]
fn test_handle_writer_forwards_messages() {
    assert!(matches!(writer(false, false, Some(Some(9))), WriterStep::Send(9)));
    assert!(matches!(writer(false, false, None), WriterStep::Wait));
    assert!(writer_sent::<u8>(true).is_none());
}

#[test]
fn test_handle_writer_sends_sentinel_on_normal_closure() {
    assert!(matches!(writer(false, false, Some(None)), WriterStep::End { sentinel: true }));
}

#[test]
fn test_handle_writer_no_sentinel_on_context_killed() {
    assert!(matches!(writer(true, false, Some(Some(1))), WriterStep::End { sentinel: false }));
    assert!(matches!(writer(true, true, Some(None)), WriterStep::End { sentinel: false }));
}

#[test]
fn test_handle_writer_no_sentinel_on_context_stopped() {
    assert!(matches!(writer(false, true, Some(None)), WriterStep::End { sentinel: false }));
    assert!(matches!(writer_sent::<u8>(false), Some(WriterStep::End { sentinel: false })));
}

fn write_all(messages: Vec<TwoPartMessage>) -> (Vec<TwoPartMessageType>, bool) {
    let mut offered = messages.into_iter();
    let mut wire = Vec::new();
    loop {
        let message = Some(offered.next());
        match handle_writer(WriterReady { killed: false, stopped: false, message }) {
            WriterStep::Send(message) => wire.push(message.into_message_type()),
            WriterStep::End { sentinel } => return (wire, sentinel),
            WriterStep::Wait => unreachable!(),
        }
    }
}

#[test]
fn test_handle_writer_multiple_messages() {
    let messages = (0..5)
        .map(|i| TwoPartMessage::from_data(format!("message {}", i).into_bytes()))
        .collect();
    let (wire, sentinel) = write_all(messages);
    assert_eq!(wire.len(), 5);
    for (i, message) in wire.into_iter().enumerate() {
        assert!(matches!(
            message,
            TwoPartMessageType::DataOnly(data) if data == format!("message {}", i).into_bytes()
        ));
    }
    assert!(sentinel);
}

#[test]
fn test_handle_writer_header_only_messages() {
    let (wire, sentinel) = write_all(vec![TwoPartMessage::from_header(b"header content".to_vec())]);
    assert_eq!(wire.len(), 1);
    assert!(matches!(
        &wire[0],
        TwoPartMessageType::HeaderOnly(header) if header == b"header content"
    ));
    assert!(sentinel);
}

#[test]
fn test_handle_writer_mixed_messages() {
    let (wire, sentinel) = write_all(vec![
        TwoPartMessage::from_header(b"header1".to_vec()),
        TwoPartMessage::from_data(b"data1".to_vec()),
        TwoPartMessage { header: b"header2".to_vec(), data: b"data2".to_vec() },
    ]);
    assert_eq!(wire.len(), 3);
    assert!(matches!(&wire[0], TwoPartMessageType::HeaderOnly(header) if header == b"header1"));
    assert!(matches!(&wire[1], TwoPartMessageType::DataOnly(data) if data == b"data1"));
    assert!(matches!(
        &wire[2],
        TwoPartMessageType::HeaderAndData(header, data) if header == b"header2" && data == b"data2"
    ));
    assert!(sentinel);
}

#[test]
fn test_handle_reader_multiple_control_messages() {
    let mut reader = ReaderState::new();
    for _ in 0..2 {
        let step = reader.step(ReaderEvent::Control(Ok(ControlMessage::Stop)));
        assert!(step.signal == ContextSignal::Stop);
        assert!(!step.end);
    }
    assert!(reader.step(ReaderEvent::Closed).end);
    assert_eq!(reader.cancellations(), 1);
}

#[test]
fn test_connection_monitor_skips_fin_wait_after_read_error_kills_context() {
    let mut reader = ReaderState::new();
    let step = reader.step(ReaderEvent::Failed);
    assert!(step.signal == ContextSignal::Kill && step.end);
    let killed = step.signal == ContextSignal::Kill;
    assert!(matches!(writer(killed, false, None), WriterStep::End { sentinel: false }));
    assert_eq!(wait_for_connection_tasks::<u8, u8>(Ok(1), Ok(Ok(2))), Ok((1, 2)));
    assert!(!awaits_server_shutdown(killed, false));
}
