//! The worker side of the response plane: what a connection back to the requester decides.

use vstd::prelude::*;
use vstd::string::*;

use crate::ids::{fresh_uuid, is_uuid_text};
use crate::pipeline::tcp::message::{
    CallHomeHandshake, ControlMessage, ResponseStreamPrologue, StreamType, TcpStreamConnectionInfo,
};
use crate::text::{concat2, debug_quoted, quoted, same_text};

verus! {

/// A worker's end of response streams.
pub struct TcpClient {
    worker_id: String,
}

impl Default for TcpClient {
    fn default() -> (client: Self)
        ensures
            is_uuid_text(client.spec_worker_id()),
    {
        TcpClient { worker_id: fresh_uuid() }
    }
}

/// How long, in milliseconds, to wait before a connection attempt is repeated.
pub const CONNECT_BACKOFF_MS: u64 = 200;

/// How long, in seconds, to wait for the server to close a finished stream.
pub const SHUTDOWN_DEADLINE_SECS: u64 = 10;

/// What a connection attempt came to.
pub enum ConnectOutcome<S> {
    Connected(S),
    AddrNotAvailable,
    Failed(String),
}

/// What follows a connection attempt.
pub enum ConnectStep<S> {
    Done(Result<S, String>),
    RetryAfterMs(u64),
}

/// What a response stream needs, once its connection info was found to fit the request.
pub struct ResponseStreamPlan {
    /// The address to connect to.
    pub address: String,
    /// The first message to send.
    pub handshake: CallHomeHandshake,
    /// The prologue that the stream sender starts with.
    pub prologue: Option<ResponseStreamPrologue>,
}

/// The `Debug` name of a stream type.
pub open spec fn stream_type_name(stream_type: StreamType) -> Seq<char> {
    match stream_type {
        StreamType::Request => "Request"@,
        StreamType::Response => "Response"@,
    }
}

impl TcpClient {
    /// The identifier of the worker.
    pub closed spec fn spec_worker_id(&self) -> Seq<char> {
        self.worker_id@
    }

    /// A client of the named worker.
    pub fn new(worker_id: String) -> (client: Self)
        ensures
            client.spec_worker_id() == worker_id@,
    {
        TcpClient { worker_id }
    }

    /// The identifier of the worker.
    pub fn worker_id(&self) -> (id: &str)
        ensures
            id@ == self.spec_worker_id(),
    {
        self.worker_id.as_str()
    }

    /// Repeats an attempt for which no local address was free; any other outcome is final.
    pub fn connect<S>(outcome: ConnectOutcome<S>) -> (step: ConnectStep<S>)
        ensures
            step == match outcome {
                ConnectOutcome::Connected(socket) => ConnectStep::Done(Ok(socket)),
                ConnectOutcome::AddrNotAvailable => ConnectStep::RetryAfterMs(CONNECT_BACKOFF_MS),
                ConnectOutcome::Failed(text) => ConnectStep::Done(Err(text)),
            },
    {
        match outcome {
            ConnectOutcome::Connected(socket) => ConnectStep::Done(Ok(socket)),
            ConnectOutcome::AddrNotAvailable => ConnectStep::RetryAfterMs(CONNECT_BACKOFF_MS),
            ConnectOutcome::Failed(text) => ConnectStep::Done(Err(text)),
        }
    }

    /// Plans the response stream of a request, from the connection info that came with it.
    ///
    /// `info` is an error where the transport's info could not be read.
    pub fn create_response_stream(
        context_id: &str,
        info: Result<TcpStreamConnectionInfo, String>,
    ) -> (plan: Result<ResponseStreamPlan, String>)
        ensures
            match info {
                Err(_) => plan is Err && plan->Err_0@ == "tcp-stream-connection-info-error"@,
                Ok(info) => if info.stream_type != StreamType::Response {
                    plan is Err && plan->Err_0@
                        == "Invalid stream type; TcpClient requires the stream type to be `response`; however "@
                        + stream_type_name(info.stream_type) + " was passed"@
                } else if info.context@ != context_id@ {
                    plan is Err && plan->Err_0@
                        == "Invalid context; TcpClient requires the context to be "@ + debug_quoted(
                        context_id@,
                    ) + "; however "@ + debug_quoted(info.context@) + " was passed"@
                } else {
                    &&& plan is Ok
                    &&& plan->Ok_0.address == info.address
                    &&& plan->Ok_0.handshake.subject == info.subject
                    &&& plan->Ok_0.handshake.stream_type == StreamType::Response
                    &&& plan->Ok_0.prologue == Some(ResponseStreamPrologue { error: None })
                },
            },
    {
        let info = match info {
            Ok(info) => info,
            Err(_) => {
                return Err("tcp-stream-connection-info-error".to_owned());
            },
        };
        match info.stream_type {
            StreamType::Response => {},
            StreamType::Request => {
                let mut text = concat2(
                    "Invalid stream type; TcpClient requires the stream type to be `response`; however ",
                    "Request",
                );
                text.append(" was passed");
                return Err(text);
            },
        }
        if !same_text(info.context.as_str(), context_id) {
            let mut text = concat2(
                "Invalid context; TcpClient requires the context to be ",
                quoted(context_id).as_str(),
            );
            text.append("; however ");
            text.append(quoted(info.context.as_str()).as_str());
            text.append(" was passed");
            return Err(text);
        }
        Ok(
            ResponseStreamPlan {
                address: info.address,
                handshake: CallHomeHandshake {
                    subject: info.subject,
                    stream_type: StreamType::Response,
                },
                prologue: Some(ResponseStreamPrologue { error: None }),
            },
        )
    }
}

/// What follows once the reader and the writer of a connection were joined: the halves, with
/// which to wait for the server to close, or the error of the connection. A reader that could not
/// be joined comes first.
pub fn wait_for_connection_tasks<A, B>(
    reader: Result<A, String>,
    writer: Result<Result<B, String>, String>,
) -> (outcome: Result<(A, B), String>)
    ensures
        outcome == match (reader, writer) {
            (Ok(a), Ok(Ok(b))) => Ok::<(A, B), String>((a, b)),
            (Ok(_), Ok(Err(text))) => Err(text),
            (Err(text), _) => Err(text),
            (Ok(_), Err(text)) => Err(text),
        },
{
    match (reader, writer) {
        (Ok(a), Ok(Ok(b))) => Ok((a, b)),
        (Ok(_), Ok(Err(text))) => Err(text),
        (Err(text), _) => Err(text),
        (Ok(_), Err(text)) => Err(text),
    }
}

/// Whether to wait for the server to close the connection: a killed or stopped stream sent no
/// sentinel, so the server has nothing to answer.
pub fn awaits_server_shutdown(killed: bool, stopped: bool) -> (wait: bool)
    ensures
        wait == (!killed && !stopped),
{
    !killed && !stopped
}

/// What a read under the shutdown deadline yielded.
pub enum ShutdownRead {
    /// The deadline passed.
    TimedOut(String),
    /// The read failed.
    Failed(String),
    /// So many bytes came; zero means that the server closed.
    Bytes(usize),
}

/// Whether waiting for the server ends with this read, and how.
pub fn wait_for_server_shutdown(read: ShutdownRead) -> (end: Option<Result<(), String>>)
    ensures
        end == match read {
            ShutdownRead::TimedOut(text) | ShutdownRead::Failed(text) => Some(
                Err::<(), String>(text),
            ),
            ShutdownRead::Bytes(n) => if n == 0 {
                Some(Ok::<(), String>(()))
            } else {
                None
            },
        },
{
    match read {
        ShutdownRead::TimedOut(text) => Some(Err(text)),
        ShutdownRead::Failed(text) => Some(Err(text)),
        ShutdownRead::Bytes(n) => if n == 0 {
            Some(Ok(()))
        } else {
            None
        },
    }
}

/// What happened to the reader of a connection.
pub enum ReaderEvent {
    /// A frame with a header alone; what the header parses to.
    Control(Result<ControlMessage, String>),
    /// A frame of any other shape.
    NonControl,
    /// A read or decode error.
    Failed,
    /// The server closed the stream.
    Closed,
    /// The writer ended.
    WriterGone,
}

/// What the reader does to the request's context.
#[derive(Clone, Copy, PartialEq, Eq, Structural)]
pub enum ContextSignal {
    Leave,
    Stop,
    Kill,
}

/// What the reader does on an event.
#[derive(Clone, Copy, PartialEq, Eq, Structural)]
pub struct ReaderStep {
    pub signal: ContextSignal,
    /// Whether the reader ends.
    pub end: bool,
}

/// The reader's reaction to an event: stop and kill are passed on and reading goes on, so that a
/// later message can escalate; whatever violates the protocol, or a failed read, kills the context
/// and ends the reader.
pub open spec fn reader_step(event: ReaderEvent) -> ReaderStep {
    match event {
        ReaderEvent::Control(Ok(ControlMessage::Stop)) => ReaderStep {
            signal: ContextSignal::Stop,
            end: false,
        },
        ReaderEvent::Control(Ok(ControlMessage::Kill)) => ReaderStep {
            signal: ContextSignal::Kill,
            end: false,
        },
        ReaderEvent::Control(Ok(ControlMessage::Sentinel)) | ReaderEvent::Control(Err(_))
        | ReaderEvent::NonControl | ReaderEvent::Failed => ReaderStep {
            signal: ContextSignal::Kill,
            end: true,
        },
        ReaderEvent::Closed | ReaderEvent::WriterGone => ReaderStep {
            signal: ContextSignal::Leave,
            end: true,
        },
    }
}

/// The reader of a connection.
pub struct ReaderState {
    cancellation_seen: bool,
}

impl ReaderState {
    /// Whether something that counts as a cancellation was seen.
    pub closed spec fn spec_cancelled(&self) -> bool {
        self.cancellation_seen
    }

    /// A reader that has seen nothing.
    pub fn new() -> (reader: Self)
        ensures
            !reader.spec_cancelled(),
    {
        ReaderState { cancellation_seen: false }
    }

    /// Reacts to an event. Everything but the end of the writer counts as a cancellation.
    pub fn step(&mut self, event: ReaderEvent) -> (step: ReaderStep)
        ensures
            step == reader_step(event),
            final(self).spec_cancelled() == (old(self).spec_cancelled() || !(event
                is WriterGone)),
    {
        match event {
            ReaderEvent::WriterGone => ReaderStep { signal: ContextSignal::Leave, end: true },
            other => {
                self.cancellation_seen = true;
                match other {
                    ReaderEvent::Control(Ok(ControlMessage::Stop)) => ReaderStep {
                        signal: ContextSignal::Stop,
                        end: false,
                    },
                    ReaderEvent::Control(Ok(ControlMessage::Kill)) => ReaderStep {
                        signal: ContextSignal::Kill,
                        end: false,
                    },
                    ReaderEvent::Closed => ReaderStep { signal: ContextSignal::Leave, end: true },
                    _ => ReaderStep { signal: ContextSignal::Kill, end: true },
                }
            },
        }
    }

    /// How much the cancellation counter grows once the reader has ended: a connection counts once.
    pub fn cancellations(&self) -> (count: u64)
        ensures
            count == if self.spec_cancelled() {
                1u64
            } else {
                0u64
            },
    {
        if self.cancellation_seen {
            1
        } else {
            0
        }
    }
}

/// The events that a reader gets to see: all up to the one that ends it.
pub open spec fn seen_events(events: Seq<ReaderEvent>) -> Seq<ReaderEvent>
    decreases events.len(),
{
    if events.len() == 0 {
        events
    } else if reader_step(events[0]).end {
        events.take(1)
    } else {
        seq![events[0]] + seen_events(events.drop_first())
    }
}

/// Whether a reader that goes through `events` has seen a cancellation.
pub open spec fn cancelled_after(before: bool, events: Seq<ReaderEvent>) -> bool
    decreases events.len(),
{
    if events.len() == 0 {
        before
    } else {
        cancelled_after(before || !(events[0] is WriterGone), events.drop_first())
    }
}

/// A connection is counted as cancelled exactly when, before its writer ended, the reader saw
/// anything at all: a control message, a violation, a failed read or the end of the stream.
pub proof fn law_cancellation_is_counted(events: Seq<ReaderEvent>)
    ensures
        cancelled_after(false, seen_events(events)) == (events.len() > 0 && !(events[0]
            is WriterGone)),
{
    reveal_with_fuel(cancelled_after, 2);
    let seen = seen_events(events);
    if events.len() > 0 {
        assert(seen[0] == events[0]);
        lemma_cancelled_stays(seen.drop_first());
        if events[0] is WriterGone {
            assert(seen.drop_first() =~= Seq::empty());
        }
    }
}

proof fn lemma_cancelled_stays(events: Seq<ReaderEvent>)
    ensures
        cancelled_after(true, events),
    decreases events.len(),
{
    if events.len() > 0 {
        lemma_cancelled_stays(events.drop_first());
    }
}

/// What is ready in one round of the writing loop.
pub struct WriterReady<M> {
    pub killed: bool,
    pub stopped: bool,
    /// What the response channel yielded, if it yielded anything.
    pub message: Option<Option<M>>,
}

/// What the writing loop does in one round.
pub enum WriterStep<M> {
    /// Nothing is ready.
    Wait,
    /// Put a message on the wire.
    Send(M),
    /// Leave the loop, after a sentinel if so told.
    End { sentinel: bool },
}

/// The writer's reaction: a kill comes before a stop, a stop before a message; only a response
/// channel that closed by itself is finished with a sentinel.
pub fn handle_writer<M>(ready: WriterReady<M>) -> (step: WriterStep<M>)
    ensures
        step == writer_step(ready),
{
    if ready.killed || ready.stopped {
        return WriterStep::End { sentinel: false };
    }
    match ready.message {
        None => WriterStep::Wait,
        Some(Some(message)) => WriterStep::Send(message),
        Some(None) => WriterStep::End { sentinel: true },
    }
}

/// The writer's reaction to what is ready.
pub open spec fn writer_step<M>(ready: WriterReady<M>) -> WriterStep<M> {
    if ready.killed || ready.stopped {
        WriterStep::End { sentinel: false }
    } else {
        match ready.message {
            None => WriterStep::Wait,
            Some(Some(message)) => WriterStep::Send(message),
            Some(None) => WriterStep::End { sentinel: true },
        }
    }
}

/// What follows an attempt to send: a failure ends the loop without a sentinel.
pub fn writer_sent<M>(sent: bool) -> (end: Option<WriterStep<M>>)
    ensures
        end == if sent {
            None
        } else {
            Some(WriterStep::<M>::End { sentinel: false })
        },
{
    if sent {
        None
    } else {
        Some(WriterStep::End { sentinel: false })
    }
}

/// One round of the writing loop: what is ready, and whether a send would succeed.
pub struct WriterRound<M> {
    pub ready: WriterReady<M>,
    pub sendable: bool,
}

/// What a writer puts on the wire.
pub enum Written<M> {
    Message(M),
    Sentinel,
}

/// Everything that a writer puts on the wire over a run of rounds.
pub open spec fn written<M>(rounds: Seq<WriterRound<M>>) -> Seq<Written<M>>
    decreases rounds.len(),
{
    if rounds.len() == 0 {
        Seq::empty()
    } else {
        match writer_step(rounds[0].ready) {
            WriterStep::Wait => written(rounds.drop_first()),
            WriterStep::Send(message) => if rounds[0].sendable {
                seq![Written::Message(message)] + written(rounds.drop_first())
            } else {
                Seq::empty()
            },
            WriterStep::End { sentinel } => if sentinel {
                seq![Written::Sentinel]
            } else {
                Seq::empty()
            },
        }
    }
}

/// A sentinel is the last thing on the wire, and there is none unless some round finds the response
/// channel closed while the context is neither killed nor stopped.
pub proof fn law_sentinel_ends_the_stream<M>(rounds: Seq<WriterRound<M>>)
    ensures
        forall|i: int|
            0 <= i < written(rounds).len() && #[trigger] written(rounds)[i]
                == Written::<M>::Sentinel ==> i == written(rounds).len() - 1,
        (forall|k: int|
            0 <= k < rounds.len() ==> !(writer_step((#[trigger] rounds[k]).ready)
                == WriterStep::<M>::End { sentinel: true })) ==> forall|i: int|
            0 <= i < written(rounds).len() ==> #[trigger] written(rounds)[i]
                != Written::<M>::Sentinel,
    decreases rounds.len(),
{
    if rounds.len() > 0 {
        let rest = rounds.drop_first();
        law_sentinel_ends_the_stream(rest);
        assert(forall|k: int| 0 <= k < rest.len() ==> rest[k] == rounds[k + 1]);
        if writer_step(rounds[0].ready) is Send && rounds[0].sendable {
            assert forall|i: int| 1 <= i < written(rounds).len() implies #[trigger] written(
                rounds,
            )[i] == written(rest)[i - 1] by {}
        }
    }
}

/// A round in which nothing is killed or stopped and the response channel yields `message`, or is
/// closed.
pub open spec fn offering<M>(message: Option<M>) -> WriterRound<M> {
    WriterRound {
        ready: WriterReady { killed: false, stopped: false, message: Some(message) },
        sendable: true,
    }
}

/// Every message that is offered is written, in order, and the sentinel follows once the response
/// channel is closed.
pub proof fn law_messages_are_written_in_order<M>(messages: Seq<M>)
    ensures
        written(messages.map_values(|m: M| offering(Some(m))).push(offering(None)))
            == messages.map_values(|m: M| Written::Message(m)).push(Written::Sentinel),
    decreases messages.len(),
{
    let rounds = messages.map_values(|m: M| offering(Some(m))).push(offering(None));
    let expected = messages.map_values(|m: M| Written::Message(m)).push(Written::Sentinel);
    if messages.len() == 0 {
        assert(rounds[0] == offering(None::<M>));
        assert(written(rounds) =~= expected);
    } else {
        let rest = messages.drop_first();
        law_messages_are_written_in_order(rest);
        assert(rounds[0] == offering(Some(messages[0])));
        assert(rounds.drop_first() =~= rest.map_values(|m: M| offering(Some(m))).push(
            offering(None),
        ));
        assert(written(rounds) =~= expected);
    }
}

/// Only an attempt for which no local address was free is repeated.
pub proof fn law_connection_attempts<S>(
    socket: S,
    text: String,
    connected: ConnectStep<S>,
    busy: ConnectStep<S>,
    failed: ConnectStep<S>,
)
    requires
        call_ensures(TcpClient::connect::<S>, (ConnectOutcome::Connected(socket),), connected),
        call_ensures(TcpClient::connect::<S>, (ConnectOutcome::<S>::AddrNotAvailable,), busy),
        call_ensures(TcpClient::connect::<S>, (ConnectOutcome::<S>::Failed(text),), failed),
    ensures
        connected == ConnectStep::Done(Ok(socket)),
        busy == ConnectStep::<S>::RetryAfterMs(200),
        failed == ConnectStep::<S>::Done(Err(text)),
{
}

/// A worker calls home exactly for a response stream of its own request, at the address and under
/// the subject that it was given.
pub proof fn law_worker_calls_home_as_told(
    context: &str,
    info: TcpStreamConnectionInfo,
    plan: Result<ResponseStreamPlan, String>,
    text: String,
    unread: Result<ResponseStreamPlan, String>,
)
    requires
        call_ensures(
            TcpClient::create_response_stream,
            (context, Ok::<TcpStreamConnectionInfo, String>(info)),
            plan,
        ),
        call_ensures(
            TcpClient::create_response_stream,
            (context, Err::<TcpStreamConnectionInfo, String>(text)),
            unread,
        ),
    ensures
        plan is Ok <==> info.stream_type == StreamType::Response && info.context@ == context@,
        plan is Ok ==> plan->Ok_0.address@ == info.address@ && plan->Ok_0.handshake.subject@
            == info.subject@ && plan->Ok_0.handshake.stream_type == StreamType::Response,
        plan is Ok ==> plan->Ok_0.prologue is Some && plan->Ok_0.prologue->Some_0.error is None,
        info.stream_type == StreamType::Request ==> plan->Err_0@
            == "Invalid stream type; TcpClient requires the stream type to be `response`; however "@
            + "Request"@ + " was passed"@,
        info.stream_type == StreamType::Response && info.context@ != context@ ==> plan->Err_0@
            == "Invalid context; TcpClient requires the context to be "@ + debug_quoted(context@)
            + "; however "@ + debug_quoted(info.context@) + " was passed"@,
        unread is Err && unread->Err_0@ == "tcp-stream-connection-info-error"@,
{
}

/// The halves of a connection come back exactly where both tasks ended in order; the failure of the
/// reader is told before that of the writer.
pub proof fn law_halves_come_back<A, B>(
    reader: Result<A, String>,
    writer: Result<Result<B, String>, String>,
    outcome: Result<(A, B), String>,
)
    requires
        call_ensures(wait_for_connection_tasks::<A, B>, (reader, writer), outcome),
    ensures
        outcome is Ok <==> reader is Ok && writer is Ok && writer->Ok_0 is Ok,
        outcome is Ok ==> outcome->Ok_0.0 == reader->Ok_0 && outcome->Ok_0.1 == writer->Ok_0->Ok_0,
        reader is Err ==> outcome->Err_0 == reader->Err_0,
        reader is Ok && writer is Err ==> outcome->Err_0 == writer->Err_0,
        reader is Ok && writer is Ok && writer->Ok_0 is Err ==> outcome->Err_0
            == writer->Ok_0->Err_0,
{
}

/// The server is waited for exactly where a sentinel was sent, until it closes, fails or takes too
/// long; bytes that still come are read past.
pub proof fn law_waiting_for_the_server(
    killed: bool,
    stopped: bool,
    wait: bool,
    read: ShutdownRead,
    end: Option<Result<(), String>>,
)
    requires
        call_ensures(awaits_server_shutdown, (killed, stopped), wait),
        call_ensures(wait_for_server_shutdown, (read,), end),
    ensures
        wait <==> !killed && !stopped,
        end is None <==> read is Bytes && read->Bytes_0 > 0,
        end == Some(Ok::<(), String>(())) <==> read == ShutdownRead::Bytes(0),
        read is TimedOut ==> end == Some(Err::<(), String>(read->TimedOut_0)),
        read is Failed ==> end == Some(Err::<(), String>(read->Failed_0)),
{
}

/// A stop or a kill is passed on and reading goes on; whatever else a server sends, and a failed read,
/// kills the request and ends the reader; the end of the stream or of the writer leaves the request
/// alone.
pub proof fn law_reader_passes_on(
    reader: &mut ReaderState,
    event: ReaderEvent,
    step: ReaderStep,
    before: u64,
    after: u64,
)
    requires
        call_ensures(ReaderState::cancellations, (&*old(reader),), before),
        call_ensures(ReaderState::step, (reader, event), step),
        call_ensures(ReaderState::cancellations, (&*final(reader),), after),
    ensures
        step.signal == ContextSignal::Stop <==> event == ReaderEvent::Control(
            Ok(ControlMessage::Stop),
        ),
        !step.end <==> event == ReaderEvent::Control(Ok(ControlMessage::Stop)) || event
            == ReaderEvent::Control(Ok(ControlMessage::Kill)),
        step.signal == ContextSignal::Leave <==> event is Closed || event is WriterGone,
        event == ReaderEvent::Control(Ok(ControlMessage::Kill)) ==> step.signal
            == ContextSignal::Kill,
        before <= 1,
        after == if event is WriterGone {
            before
        } else {
            1u64
        },
{
}

/// A reader starts out without a cancellation.
pub proof fn law_fresh_reader(reader: ReaderState, count: u64)
    requires
        call_ensures(ReaderState::new, (), reader),
        call_ensures(ReaderState::cancellations, (&reader,), count),
    ensures
        count == 0,
{
}

/// What the writer does with what is ready: nothing is sent once the request was killed or stopped,
/// also no sentinel; else a message is sent, and a closed channel is finished with a sentinel. A
/// failed send ends the writer without one.
pub proof fn law_round_of_the_writer<M>(
    ready: WriterReady<M>,
    step: WriterStep<M>,
    sent: bool,
    end: Option<WriterStep<M>>,
)
    requires
        call_ensures(handle_writer::<M>, (ready,), step),
        call_ensures(writer_sent::<M>, (sent,), end),
    ensures
        step is Send <==> !ready.killed && !ready.stopped && ready.message is Some
            && ready.message->Some_0 is Some,
        step is Send ==> step->Send_0 == ready.message->Some_0->Some_0,
        step is Wait <==> !ready.killed && !ready.stopped && ready.message is None,
        step == (WriterStep::<M>::End { sentinel: true }) <==> !ready.killed && !ready.stopped
            && ready.message is Some && ready.message->Some_0 is None,
        ready.killed || ready.stopped ==> step == (WriterStep::<M>::End { sentinel: false }),
        sent ==> end is None,
        !sent ==> end == Some(WriterStep::<M>::End { sentinel: false }),
{
}

/// A client goes by the name of its worker.
pub proof fn law_client_goes_by_its_worker(worker: String, client: TcpClient, id: &str)
    requires
        call_ensures(TcpClient::new, (worker,), client),
        call_ensures(TcpClient::worker_id, (&client,), id),
    ensures
        id@ == worker@,
{
}

} // verus!
