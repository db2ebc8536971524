//! What a connection task of the server decides: the handshake, the prologue, and the loop that
//! forwards response data and issues control messages.

use vstd::prelude::*;
use vstd::string::*;

use crate::pipeline::tcp::message::{
    CallHomeHandshake, ControlMessage, Incoming, ResponseStreamPrologue, StreamType,
    TwoPartMessageType,
};
use crate::pipeline::tcp::server::{Subjects, TcpStreamServer};
use crate::text::{concat2, yields};

verus! {

/// How the listener task starts: what it reports to the server and whether it goes on.
pub struct ListenerStart {
    /// Sent to the server that waits for the listener.
    pub ready: Result<u16, String>,
    /// The listener task itself ends with this error, or accepts connections.
    pub task: Result<(), String>,
}

/// Reports the outcome of binding `address`.
pub fn listener_start(address: &str, bound: Result<u16, String>) -> (start: ListenerStart)
    ensures
        match bound {
            Ok(port) => start.ready == Ok::<u16, String>(port) && start.task is Ok,
            Err(text) => start.ready is Err && start.ready->Err_0@
                == "Failed to start TcpListender on "@ + address@ + ": "@ + text@
                && start.task is Err && start.task->Err_0@ == "Failed to start TcpListender on "@
                + address@,
        },
{
    match bound {
        Ok(port) => ListenerStart { ready: Ok(port), task: Ok(()) },
        Err(text) => {
            let task = concat2("Failed to start TcpListender on ", address);
            let mut ready = task.clone();
            ready.append(": ");
            ready.append(text.as_str());
            ListenerStart { ready: Err(ready), task: Err(task) }
        },
    }
}

/// The header of the first message of a connection, or why there is none.
pub open spec fn first_header(first: Incoming) -> Result<Vec<u8>, Seq<char>> {
    match first {
        Incoming::Closed => Err("Connection closed without a ControlMessage"@),
        Incoming::Failed(text) => Err(text@),
        Incoming::Frame(frame) => if frame.header@.len() == 0 {
            Err("Expected ControlMessage, got DataMessage"@)
        } else {
            Ok(frame.header)
        },
    }
}

/// The header of the first message of a connection, which has to hold the handshake.
pub fn handshake_header(first: Incoming) -> (header: Result<Vec<u8>, String>)
    ensures
        yields(header, first_header(first)),
{
    match first {
        Incoming::Closed => Err("Connection closed without a ControlMessage".to_owned()),
        Incoming::Failed(text) => Err(text),
        Incoming::Frame(frame) => if frame.header.len() == 0 {
            Err("Expected ControlMessage, got DataMessage".to_owned())
        } else {
            Ok(frame.header)
        },
    }
}

/// Where a connection goes after its handshake.
pub enum Route {
    /// A request stream: nothing is left to do.
    Request,
    /// A response stream for the named subject.
    Response(String),
}

/// Where a handshake sends a connection, or why it cannot be read.
pub open spec fn handshake_route(parsed: Result<CallHomeHandshake, String>) -> Result<
    Route,
    Seq<char>,
> {
    match parsed {
        Err(text) => Err(
            "Failed to deserialize the first message as a valid `CallHomeHandshake`: "@ + text@,
        ),
        Ok(handshake) => Ok(
            match handshake.stream_type {
                StreamType::Request => Route::Request,
                StreamType::Response => Route::Response(handshake.subject),
            },
        ),
    }
}

/// Routes a connection by its handshake.
pub fn route_handshake(parsed: Result<CallHomeHandshake, String>) -> (route: Result<Route, String>)
    ensures
        yields(route, handshake_route(parsed)),
{
    match parsed {
        Err(text) => Err(
            concat2(
                "Failed to deserialize the first message as a valid `CallHomeHandshake`: ",
                text.as_str(),
            ),
        ),
        Ok(handshake) => Ok(
            match handshake.stream_type {
                StreamType::Request => Route::Request,
                StreamType::Response => Route::Response(handshake.subject),
            },
        ),
    }
}

/// Why a response connection ends before any data flows.
pub struct Rejection {
    /// What the waiting requester is told, if anything.
    pub notify: Option<String>,
    /// The error with which the connection task ends.
    pub error: String,
}

/// What a rejection tells the requester, if anything, and the error that it ends with.
pub open spec fn rejection_texts(rejection: Rejection) -> (Option<Seq<char>>, Seq<char>) {
    (
        match rejection.notify {
            Some(text) => Some(text@),
            None => None,
        },
        rejection.error@,
    )
}

/// Whether `outcome` is the specified one, of which a rejection is specified by its texts.
pub open spec fn admits<V>(
    outcome: Result<V, Rejection>,
    expected: Result<V, (Option<Seq<char>>, Seq<char>)>,
) -> bool {
    match expected {
        Ok(value) => outcome == Ok::<V, Rejection>(value),
        Err(texts) => outcome is Err && rejection_texts(outcome->Err_0) == texts,
    }
}

/// The header of the second message of a response connection, or why there is none: only a frame of
/// another shape is told to the requester.
pub open spec fn second_header(second: Incoming) -> Result<
    Vec<u8>,
    (Option<Seq<char>>, Seq<char>),
> {
    match second {
        Incoming::Closed => Err((None, "Connection closed without a ControlMessge"@)),
        Incoming::Failed(text) => Err((None, text@)),
        Incoming::Frame(frame) => if frame.header@.len() > 0 && frame.data@.len() == 0 {
            Ok(frame.header)
        } else {
            Err(
                (
                    Some("malformed prologue: expected HeaderOnly ControlMessage"@),
                    "malformed prologue: expected HeaderOnly ControlMessage"@,
                ),
            )
        },
    }
}

/// The header of the second message of a response connection, which has to hold the prologue.
pub fn prologue_header(second: Incoming) -> (header: Result<Vec<u8>, Rejection>)
    ensures
        admits(header, second_header(second)),
{
    match second {
        Incoming::Closed => Err(
            Rejection {
                notify: None,
                error: "Connection closed without a ControlMessge".to_owned(),
            },
        ),
        Incoming::Failed(text) => Err(Rejection { notify: None, error: text }),
        Incoming::Frame(frame) => match frame.into_message_type() {
            TwoPartMessageType::HeaderOnly(header) => Ok(header),
            _ => {
                let text = "malformed prologue: expected HeaderOnly ControlMessage".to_owned();
                Err(Rejection { notify: Some(text.clone()), error: text })
            },
        },
    }
}

/// Whether a prologue lets data flow, or why it does not: an error of the worker is told to the
/// requester.
pub open spec fn prologue_verdict(parsed: Result<ResponseStreamPrologue, String>) -> Result<
    (),
    (Option<Seq<char>>, Seq<char>),
> {
    match parsed {
        Err(text) => Err((None, "Failed to deserialize ControlMessage: "@ + text@)),
        Ok(prologue) => match prologue.error {
            Some(text) => Err((Some(text@), "Received error prologue: "@ + text@)),
            None => Ok(()),
        },
    }
}

/// Whether the prologue lets data flow.
pub fn judge_prologue(parsed: Result<ResponseStreamPrologue, String>) -> (verdict: Result<
    (),
    Rejection,
>)
    ensures
        admits(verdict, prologue_verdict(parsed)),
{
    match parsed {
        Err(text) => Err(
            Rejection {
                notify: None,
                error: concat2("Failed to deserialize ControlMessage: ", text.as_str()),
            },
        ),
        Ok(prologue) => match prologue.error {
            Some(text) => {
                let error = concat2("Received error prologue: ", text.as_str());
                Err(Rejection { notify: Some(text), error })
            },
            None => Ok(()),
        },
    }
}

/// Whether a requester took the receiving half.
pub open spec fn handover(delivered: bool) -> Result<(), Seq<char>> {
    if delivered {
        Ok(())
    } else {
        Err("The requester of the stream has been dropped before the connection was established"@)
    }
}

/// Whether the requester still waits once the receiving half was handed over.
pub fn requester_present(delivered: bool) -> (outcome: Result<(), String>)
    ensures
        yields(outcome, handover(delivered)),
{
    if delivered {
        Ok(())
    } else {
        Err(
            "The requester of the stream has been dropped before the connection was established".to_owned(),
        )
    }
}

/// The outcome of a connection whose two tasks were joined: the sending task's failure comes first.
pub fn joined_tasks(send: Result<(), String>, receive: Result<(), String>) -> (outcome: Result<
    (),
    String,
>)
    ensures
        outcome == if send is Err {
            send
        } else {
            receive
        },
{
    match send {
        Ok(()) => receive,
        Err(text) => Err(text),
    }
}

/// What a control message of the worker asks for.
#[derive(Debug, PartialEq, Eq, Structural)]
pub enum ControlAction {
    Continue,
    Shutdown,
}

/// Only the sentinel may come from a worker.
pub fn process_control_message(parsed: Result<ControlMessage, String>) -> (action: Result<
    ControlAction,
    String,
>)
    ensures
        match parsed {
            Ok(ControlMessage::Sentinel) => action == Ok::<ControlAction, String>(
                ControlAction::Shutdown,
            ),
            Ok(_) => action is Err && action->Err_0@
                == "unexpected control message on response stream"@,
            Err(text) => action == Err::<ControlAction, String>(text),
        },
{
    match parsed {
        Ok(ControlMessage::Sentinel) => Ok(ControlAction::Shutdown),
        Ok(_) => Err("unexpected control message on response stream".to_owned()),
        Err(text) => Err(text),
    }
}

/// What a read of the worker's stream yielded.
pub enum Received {
    /// A frame; `control` is what its header parses to, if it has a header.
    Frame { control: Option<Result<ControlMessage, String>>, data: Vec<u8> },
    /// A read or decode error.
    Failed,
    /// The worker closed the stream.
    Closed,
}

/// What is ready in one round of the receiving loop.
pub struct ReceiveReady {
    /// Nobody receives the response any more.
    pub response_closed: bool,
    /// The request's context was killed.
    pub killed: bool,
    /// The request's context was stopped.
    pub stopped: bool,
    /// What was read, if something was.
    pub received: Option<Received>,
}

/// What the receiving loop does in one round.
pub enum ReceiveAction {
    /// Nothing is ready.
    Wait,
    /// Issue a control message; what was read stays unread.
    Issue(ControlMessage),
    /// Forward data to the requester.
    Forward(Vec<u8>),
    /// The frame carried nothing.
    Skip,
    /// Leave the loop, after a last control message if there is one.
    End(Option<ControlMessage>),
}

/// The receiving loop's action on what was read.
pub open spec fn received_action(received: Received) -> ReceiveAction {
    match received {
        Received::Failed => ReceiveAction::End(Some(ControlMessage::Kill)),
        Received::Closed => ReceiveAction::End(None),
        Received::Frame { control, data } => match control {
            Some(Ok(ControlMessage::Sentinel)) => if data@.len() == 0 {
                ReceiveAction::End(None)
            } else {
                ReceiveAction::End(Some(ControlMessage::Kill))
            },
            Some(_) => ReceiveAction::End(Some(ControlMessage::Kill)),
            None => if data@.len() == 0 {
                ReceiveAction::Skip
            } else {
                ReceiveAction::Forward(data)
            },
        },
    }
}

/// The receiving loop's action in one round. A closed response comes before a kill, a kill before
/// a stop, and a stop, which is passed on once, before what was read.
pub open spec fn receive_action(can_stop: bool, ready: ReceiveReady) -> ReceiveAction {
    if ready.response_closed || ready.killed {
        ReceiveAction::End(Some(ControlMessage::Kill))
    } else if ready.stopped && can_stop {
        ReceiveAction::Issue(ControlMessage::Stop)
    } else {
        match ready.received {
            Some(received) => received_action(received),
            None => ReceiveAction::Wait,
        }
    }
}

/// The loop that reads a worker's stream.
pub struct ReceiveHandler {
    can_stop: bool,
}

impl ReceiveHandler {
    /// Whether a stop of the context has yet to be passed on.
    pub closed spec fn spec_can_stop(&self) -> bool {
        self.can_stop
    }

    /// The loop before its first round.
    pub fn new() -> (handler: Self)
        ensures
            handler.spec_can_stop(),
    {
        ReceiveHandler { can_stop: true }
    }

    /// Whether a stop of the context has yet to be passed on.
    pub fn can_stop(&self) -> (can_stop: bool)
        ensures
            can_stop == self.spec_can_stop(),
    {
        self.can_stop
    }

    /// One round. Where a stop is issued, what was read is handed back in `ready`.
    pub fn step(&mut self, ready: &mut ReceiveReady) -> (action: ReceiveAction)
        ensures
            action == receive_action(old(self).spec_can_stop(), *old(ready)),
            final(self).spec_can_stop() == (old(self).spec_can_stop() && !(action is Issue)),
            action is Issue ==> *final(ready) == *old(ready),
            !(action is Issue) ==> final(ready).received is None,
    {
        let received = ready.received.take();
        if ready.response_closed || ready.killed {
            return ReceiveAction::End(Some(ControlMessage::Kill));
        }
        if ready.stopped && self.can_stop {
            self.can_stop = false;
            ready.received = received;
            return ReceiveAction::Issue(ControlMessage::Stop);
        }
        match received {
            None => ReceiveAction::Wait,
            Some(Received::Failed) => ReceiveAction::End(Some(ControlMessage::Kill)),
            Some(Received::Closed) => ReceiveAction::End(None),
            Some(Received::Frame { control, data }) => {
                match control {
                    None => {},
                    Some(parsed) => match process_control_message(parsed) {
                        Ok(ControlAction::Continue) => {},
                        Ok(ControlAction::Shutdown) => {
                            if data.len() > 0 {
                                return ReceiveAction::End(Some(ControlMessage::Kill));
                            }
                            return ReceiveAction::End(None);
                        },
                        Err(_) => {
                            return ReceiveAction::End(Some(ControlMessage::Kill));
                        },
                    },
                }
                if data.len() > 0 {
                    ReceiveAction::Forward(data)
                } else {
                    ReceiveAction::Skip
                }
            },
        }
    }

    /// What follows an attempt to forward data: a requester that is gone ends the loop.
    pub fn forwarded(&self, delivered: bool) -> (end: Option<ControlMessage>)
        ensures
            end == if delivered {
                None
            } else {
                Some(ControlMessage::Kill)
            },
    {
        if delivered {
            None
        } else {
            Some(ControlMessage::Kill)
        }
    }
}

/// One round of the receiving loop: what is ready, and whether forwarding would succeed.
pub struct ReceiveRound {
    pub ready: ReceiveReady,
    pub deliverable: bool,
}

/// What the receiving loop lets out.
pub enum ReceiveEffect {
    Control(ControlMessage),
    Data(Vec<u8>),
}

/// Everything that the receiving loop lets out over a run of rounds.
pub open spec fn receive_effects(can_stop: bool, rounds: Seq<ReceiveRound>) -> Seq<ReceiveEffect>
    decreases rounds.len(),
{
    if rounds.len() == 0 {
        Seq::empty()
    } else {
        let action = receive_action(can_stop, rounds[0].ready);
        let rest = receive_effects(can_stop && !(action is Issue), rounds.drop_first());
        match action {
            ReceiveAction::Wait | ReceiveAction::Skip => rest,
            ReceiveAction::Issue(message) => seq![ReceiveEffect::Control(message)] + rest,
            ReceiveAction::Forward(data) => if rounds[0].deliverable {
                seq![ReceiveEffect::Data(data)] + rest
            } else {
                seq![ReceiveEffect::Control(ControlMessage::Kill)]
            },
            ReceiveAction::End(Some(message)) => seq![ReceiveEffect::Control(message)],
            ReceiveAction::End(None) => Seq::empty(),
        }
    }
}

/// Over a whole run the worker is sent at most one stop; a kill is the last thing that happens;
/// and the sentinel, which only workers send, is never issued.
pub proof fn law_control_messages_of_a_run(can_stop: bool, rounds: Seq<ReceiveRound>)
    ensures
        forall|i: int| #![trigger receive_effects(can_stop, rounds)[i]]
            0 <= i < receive_effects(can_stop, rounds).len() ==> {
                let effect = receive_effects(can_stop, rounds)[i];
                &&& effect != ReceiveEffect::Control(ControlMessage::Sentinel)
                &&& effect == ReceiveEffect::Control(ControlMessage::Kill) ==> i
                    == receive_effects(can_stop, rounds).len() - 1
                &&& effect == ReceiveEffect::Control(ControlMessage::Stop) ==> can_stop
            },
        forall|i: int, j: int|
            #![trigger receive_effects(can_stop, rounds)[i], receive_effects(can_stop, rounds)[j]]
            0 <= i < j < receive_effects(can_stop, rounds).len() && receive_effects(
                can_stop,
                rounds,
            )[i] == ReceiveEffect::Control(ControlMessage::Stop) ==> receive_effects(
                can_stop,
                rounds,
            )[j] != ReceiveEffect::Control(ControlMessage::Stop),
    decreases rounds.len(),
{
    if rounds.len() > 0 {
        let action = receive_action(can_stop, rounds[0].ready);
        let next = can_stop && !(action is Issue);
        let rest = receive_effects(next, rounds.drop_first());
        let all = receive_effects(can_stop, rounds);
        law_control_messages_of_a_run(next, rounds.drop_first());
        let shifted = (action is Issue) || (action is Forward && rounds[0].deliverable);
        if shifted {
            assert(all =~= seq![all[0]] + rest);
            assert forall|i: int| 1 <= i < all.len() implies #[trigger] all[i] == rest[i - 1] by {}
        }
    }
}

/// The data of the frames that a run consumes, up to the round that ends it.
pub open spec fn consumed_data(can_stop: bool, rounds: Seq<ReceiveRound>) -> Seq<Vec<u8>>
    decreases rounds.len(),
{
    if rounds.len() == 0 {
        Seq::empty()
    } else {
        let action = receive_action(can_stop, rounds[0].ready);
        let rest = consumed_data(can_stop && !(action is Issue), rounds.drop_first());
        match action {
            ReceiveAction::Wait | ReceiveAction::Skip | ReceiveAction::Issue(_) => rest,
            ReceiveAction::Forward(data) => if rounds[0].deliverable {
                seq![data] + rest
            } else {
                Seq::empty()
            },
            ReceiveAction::End(_) => Seq::empty(),
        }
    }
}

/// The data among what a run lets out.
pub open spec fn effect_data(effects: Seq<ReceiveEffect>) -> Seq<Vec<u8>>
    decreases effects.len(),
{
    if effects.len() == 0 {
        Seq::empty()
    } else {
        let rest = effect_data(effects.drop_first());
        match effects[0] {
            ReceiveEffect::Data(data) => seq![data] + rest,
            ReceiveEffect::Control(_) => rest,
        }
    }
}

/// The requester receives the data of the consumed frames, whole and in order.
pub proof fn law_data_is_forwarded_in_order(can_stop: bool, rounds: Seq<ReceiveRound>)
    ensures
        effect_data(receive_effects(can_stop, rounds)) == consumed_data(can_stop, rounds),
    decreases rounds.len(),
{
    reveal_with_fuel(effect_data, 2);
    if rounds.len() > 0 {
        let action = receive_action(can_stop, rounds[0].ready);
        let next = can_stop && !(action is Issue);
        let rest = receive_effects(next, rounds.drop_first());
        let all = receive_effects(can_stop, rounds);
        law_data_is_forwarded_in_order(next, rounds.drop_first());
        match action {
            ReceiveAction::Issue(message) => {
                assert(all.drop_first() =~= rest);
            },
            ReceiveAction::Forward(data) => {
                if rounds[0].deliverable {
                    assert(all.drop_first() =~= rest);
                } else {
                    assert(all.drop_first() =~= Seq::empty());
                }
            },
            ReceiveAction::End(Some(message)) => {
                assert(all.drop_first() =~= Seq::empty());
            },
            _ => {},
        }
    }
}

/// Whether the sending task puts a control message on the wire: a sentinel that reaches it is
/// dropped.
pub fn issues_control(message: ControlMessage) -> (issued: bool)
    ensures
        issued == (message != ControlMessage::Sentinel),
{
    match message {
        ControlMessage::Sentinel => false,
        _ => true,
    }
}

/// How far a connection has come. `R` is what waits for its response stream.
pub enum ConnectionPhase<R> {
    /// The first message is awaited.
    Opened,
    /// The handshake is being read.
    Greeting,
    /// The second message is awaited.
    Accepted(R),
    /// The prologue is being read.
    Announced(R),
    /// The receiving half is being handed to the requester.
    HandingOver,
    /// Data flows.
    Streaming,
    /// The connection is done with.
    Closed,
}

/// What happens to a connection.
pub enum ConnectionInput {
    /// A message was awaited, and this came.
    Read(Incoming),
    /// The header of the first message reads so.
    HandshakeParsed(Result<CallHomeHandshake, String>),
    /// The header of the second message reads so.
    PrologueParsed(Result<ResponseStreamPrologue, String>),
    /// Whether the requester took the receiving half.
    HandedOver(bool),
    /// How the sending and the receiving task ended.
    TasksJoined(Result<(), String>, Result<(), String>),
}

/// What a connection does next.
pub enum ConnectionOutput<R> {
    /// Read the handshake in a header.
    ParseHandshake(Vec<u8>),
    /// Await the second message.
    ReadPrologue,
    /// Read the prologue in a header.
    ParsePrologue(Vec<u8>),
    /// Hand the receiving half to the requester.
    HandOver(R),
    /// Start the sending and the receiving task.
    StartTasks,
    /// Tell the requester why there will be no stream, if it is to be told, and end.
    Finish { notify: Option<(R, String)>, outcome: Result<(), String> },
}

/// Whether an input can come in a phase.
pub open spec fn fits<R>(phase: ConnectionPhase<R>, input: ConnectionInput) -> bool {
    match phase {
        ConnectionPhase::Opened => input is Read,
        ConnectionPhase::Greeting => input is HandshakeParsed,
        ConnectionPhase::Accepted(_) => input is Read,
        ConnectionPhase::Announced(_) => input is PrologueParsed,
        ConnectionPhase::HandingOver => input is HandedOver,
        ConnectionPhase::Streaming => input is TasksJoined,
        ConnectionPhase::Closed => false,
    }
}

/// Whether a connection ends with that error and tells the requester nothing.
pub open spec fn ends_with<R>(
    next: ConnectionPhase<R>,
    output: ConnectionOutput<R>,
    error: Seq<char>,
) -> bool {
    &&& next is Closed
    &&& match output {
        ConnectionOutput::Finish { notify, outcome } => notify is None && outcome is Err
            && outcome->Err_0@ == error,
        _ => false,
    }
}

/// Whether a connection ends with those texts: what the requester is told, if anything, and the error.
pub open spec fn rejects_with<R>(
    next: ConnectionPhase<R>,
    output: ConnectionOutput<R>,
    waiting: R,
    texts: (Option<Seq<char>>, Seq<char>),
) -> bool {
    &&& next is Closed
    &&& match output {
        ConnectionOutput::Finish { notify, outcome } => outcome is Err && outcome->Err_0@ == texts.1
            && match texts.0 {
            Some(text) => notify is Some && notify->Some_0.0 == waiting && notify->Some_0.1@
                == text,
            None => notify is None,
        },
        _ => false,
    }
}

/// Whether a connection goes on so. Only the handshake of a response stream touches the server: it
/// takes out what waits for the subject.
pub open spec fn connection_follows<T, R>(
    phase: ConnectionPhase<R>,
    before: Subjects<T, R>,
    input: ConnectionInput,
    next: ConnectionPhase<R>,
    after: Subjects<T, R>,
    output: ConnectionOutput<R>,
) -> bool {
    match (phase, input) {
        (ConnectionPhase::Opened, ConnectionInput::Read(first)) => after == before && match
        first_header(first) {
            Ok(header) => next is Greeting && output == ConnectionOutput::<R>::ParseHandshake(
                header,
            ),
            Err(text) => ends_with(next, output, text),
        },
        (ConnectionPhase::Greeting, ConnectionInput::HandshakeParsed(parsed)) => match
        handshake_route(parsed) {
            Err(text) => after == before && ends_with(next, output, text),
            Ok(Route::Request) => after == before && next is Closed && output
                == ConnectionOutput::Finish { notify: None::<(R, String)>, outcome: Ok(()) },
            Ok(Route::Response(subject)) => if before.rx.contains_key(subject@) {
                &&& next == ConnectionPhase::Accepted(before.rx[subject@])
                &&& output is ReadPrologue
                &&& after == before.recv_cancelled(subject@)
            } else {
                &&& after == before
                &&& ends_with(
                    next,
                    output,
                    "Subject not found: "@ + subject@
                        + "; upstream publisher specified a subject unknown to the downsteam subscriber"@,
                )
            },
        },
        (ConnectionPhase::Accepted(waiting), ConnectionInput::Read(second)) => after == before
            && match second_header(second) {
            Ok(header) => next == ConnectionPhase::Announced(waiting) && output
                == ConnectionOutput::<R>::ParsePrologue(header),
            Err(texts) => rejects_with(next, output, waiting, texts),
        },
        (ConnectionPhase::Announced(waiting), ConnectionInput::PrologueParsed(parsed)) => after
            == before && match prologue_verdict(parsed) {
            Ok(_) => next is HandingOver && output == ConnectionOutput::HandOver(waiting),
            Err(texts) => rejects_with(next, output, waiting, texts),
        },
        (ConnectionPhase::HandingOver, ConnectionInput::HandedOver(delivered)) => after == before
            && match handover(delivered) {
            Ok(_) => next is Streaming && output is StartTasks,
            Err(text) => ends_with(next, output, text),
        },
        (ConnectionPhase::Streaming, ConnectionInput::TasksJoined(send, receive)) => after
            == before && next is Closed && output == ConnectionOutput::Finish {
            notify: None::<(R, String)>,
            outcome: if send is Err {
                send
            } else {
                receive
            },
        },
        _ => false,
    }
}

impl<R> ConnectionPhase<R> {
    /// Goes on with a connection.
    pub fn step<T>(self, server: &mut TcpStreamServer<T, R>, input: ConnectionInput) -> (going: (
        ConnectionPhase<R>,
        ConnectionOutput<R>,
    ))
        requires
            fits(self, input),
        ensures
            connection_follows(self, old(server)@, input, going.0, final(server)@, going.1),
            final(server).spec_address() == old(server).spec_address(),
            old(server)@.consistent() ==> final(server)@.consistent(),
    {
        match (self, input) {
            (ConnectionPhase::Opened, ConnectionInput::Read(first)) => match handshake_header(
                first,
            ) {
                Ok(header) => (
                    ConnectionPhase::Greeting,
                    ConnectionOutput::ParseHandshake(header),
                ),
                Err(text) => finished(None, Err(text)),
            },
            (ConnectionPhase::Greeting, ConnectionInput::HandshakeParsed(parsed)) => match
            route_handshake(parsed) {
                Err(text) => finished(None, Err(text)),
                Ok(Route::Request) => finished(None, Ok(())),
                Ok(Route::Response(subject)) => match server.take_response_stream(
                    subject.as_str(),
                ) {
                    Ok(waiting) => (
                        ConnectionPhase::Accepted(waiting),
                        ConnectionOutput::ReadPrologue,
                    ),
                    Err(text) => finished(None, Err(text)),
                },
            },
            (ConnectionPhase::Accepted(waiting), ConnectionInput::Read(second)) => match
            prologue_header(second) {
                Ok(header) => (
                    ConnectionPhase::Announced(waiting),
                    ConnectionOutput::ParsePrologue(header),
                ),
                Err(rejection) => rejected(waiting, rejection),
            },
            (ConnectionPhase::Announced(waiting), ConnectionInput::PrologueParsed(parsed)) => match
            judge_prologue(parsed) {
                Ok(()) => (ConnectionPhase::HandingOver, ConnectionOutput::HandOver(waiting)),
                Err(rejection) => rejected(waiting, rejection),
            },
            (ConnectionPhase::HandingOver, ConnectionInput::HandedOver(delivered)) => match
            requester_present(delivered) {
                Ok(()) => (ConnectionPhase::Streaming, ConnectionOutput::StartTasks),
                Err(text) => finished(None, Err(text)),
            },
            (ConnectionPhase::Streaming, ConnectionInput::TasksJoined(send, receive)) => {
                finished(None, joined_tasks(send, receive))
            },
            (_, _) => finished(None, Ok(())),
        }
    }
}

fn finished<R>(notify: Option<(R, String)>, outcome: Result<(), String>) -> (end: (
    ConnectionPhase<R>,
    ConnectionOutput<R>,
))
    ensures
        end.0 is Closed,
        end.1 == (ConnectionOutput::Finish { notify, outcome }),
{
    (ConnectionPhase::Closed, ConnectionOutput::Finish { notify, outcome })
}

fn rejected<R>(waiting: R, rejection: Rejection) -> (end: (
    ConnectionPhase<R>,
    ConnectionOutput<R>,
))
    ensures
        rejects_with(end.0, end.1, waiting, rejection_texts(rejection)),
{
    let Rejection { notify, error } = rejection;
    match notify {
        Some(text) => finished(Some((waiting, text)), Err(error)),
        None => finished(None, Err(error)),
    }
}

/// Data only flows to a requester whose worker announced, without an error, that it started: a
/// connection that hands the receiving half over does so right after such a prologue.
pub proof fn law_stream_is_announced<T, R>(
    phase: ConnectionPhase<R>,
    before: Subjects<T, R>,
    input: ConnectionInput,
    next: ConnectionPhase<R>,
    after: Subjects<T, R>,
    output: ConnectionOutput<R>,
)
    requires
        connection_follows(phase, before, input, next, after, output),
        output is HandOver,
    ensures
        phase is Announced,
        output->HandOver_0 == phase->Announced_0,
        input is PrologueParsed,
        input->PrologueParsed_0 is Ok,
        input->PrologueParsed_0->Ok_0.error is None,
{
}

/// A worker that reports an error has it told to the requester, word for word.
pub proof fn law_worker_error_reaches_requester<T, R>(
    waiting: R,
    before: Subjects<T, R>,
    error: String,
    next: ConnectionPhase<R>,
    after: Subjects<T, R>,
    output: ConnectionOutput<R>,
)
    requires
        connection_follows(
            ConnectionPhase::Announced(waiting),
            before,
            ConnectionInput::PrologueParsed(Ok(ResponseStreamPrologue { error: Some(error) })),
            next,
            after,
            output,
        ),
    ensures
        next is Closed,
        match output {
            ConnectionOutput::Finish { notify, outcome } => notify is Some && notify->Some_0.0
                == waiting && notify->Some_0.1@ == error@ && outcome is Err,
            _ => false,
        },
{
}

/// A listener that is bound tells its port; one that is not tells the address, and the server also
/// the reason.
pub proof fn law_listener_tells_its_port(
    address: &str,
    port: u16,
    text: String,
    bound: ListenerStart,
    unbound: ListenerStart,
)
    requires
        call_ensures(listener_start, (address, Ok::<u16, String>(port)), bound),
        call_ensures(listener_start, (address, Err::<u16, String>(text)), unbound),
    ensures
        bound.ready == Ok::<u16, String>(port),
        bound.task is Ok,
        unbound.task is Err && unbound.task->Err_0@ == "Failed to start TcpListender on "@ + address@,
        unbound.ready is Err && unbound.ready->Err_0@ == unbound.task->Err_0@ + ": "@ + text@,
{
}

/// A handshake is read from the header of the first frame, whatever data come with it; without a
/// header there is none.
pub proof fn law_first_message(first: Incoming, header: Result<Vec<u8>, String>)
    requires
        call_ensures(handshake_header, (first,), header),
    ensures
        header is Ok <==> first is Frame && first->Frame_0.header@.len() > 0,
        header is Ok ==> header->Ok_0 == first->Frame_0.header,
        first is Failed ==> header->Err_0@ == first->Failed_0@,
        first is Closed ==> header->Err_0@ == "Connection closed without a ControlMessage"@,
        first is Frame && header is Err ==> header->Err_0@
            == "Expected ControlMessage, got DataMessage"@,
{
}

/// The direction in the handshake decides: a response stream goes to its subject, and a request
/// stream nowhere.
pub proof fn law_handshake_names_the_subject(
    handshake: CallHomeHandshake,
    route: Result<Route, String>,
    text: String,
    unread: Result<Route, String>,
)
    requires
        call_ensures(route_handshake, (Ok::<CallHomeHandshake, String>(handshake),), route),
        call_ensures(route_handshake, (Err::<CallHomeHandshake, String>(text),), unread),
    ensures
        route is Ok,
        handshake.stream_type == StreamType::Response ==> route->Ok_0 == Route::Response(
            handshake.subject,
        ),
        handshake.stream_type == StreamType::Request ==> route->Ok_0 is Request,
        unread is Err && unread->Err_0@
            == "Failed to deserialize the first message as a valid `CallHomeHandshake`: "@ + text@,
{
}

/// A prologue is read from a frame with a header alone. The requester is told of a frame of another
/// shape, and of nothing else.
pub proof fn law_second_message(second: Incoming, header: Result<Vec<u8>, Rejection>)
    requires
        call_ensures(prologue_header, (second,), header),
    ensures
        header is Ok <==> second is Frame && second->Frame_0.header@.len() > 0
            && second->Frame_0.data@.len() == 0,
        header is Ok ==> header->Ok_0 == second->Frame_0.header,
        header is Err ==> header->Err_0.notify is Some == second is Frame,
        header is Err && second is Frame ==> header->Err_0.notify->Some_0@ == header->Err_0.error@
            && header->Err_0.error@ == "malformed prologue: expected HeaderOnly ControlMessage"@,
        second is Failed ==> header->Err_0.error@ == second->Failed_0@,
        second is Closed ==> header->Err_0.error@ == "Connection closed without a ControlMessge"@,
{
}

/// Data flow exactly where the worker reports no error; an error of the worker is told word for word.
pub proof fn law_prologue_decides(
    parsed: Result<ResponseStreamPrologue, String>,
    verdict: Result<(), Rejection>,
)
    requires
        call_ensures(judge_prologue, (parsed,), verdict),
    ensures
        verdict is Ok <==> parsed is Ok && parsed->Ok_0.error is None,
        parsed is Ok && parsed->Ok_0.error is Some ==> verdict->Err_0.notify is Some
            && verdict->Err_0.notify->Some_0@ == parsed->Ok_0.error->Some_0@
            && verdict->Err_0.error@ == "Received error prologue: "@
            + parsed->Ok_0.error->Some_0@,
        parsed is Err ==> verdict->Err_0.notify is None && verdict->Err_0.error@
            == "Failed to deserialize ControlMessage: "@ + parsed->Err_0@,
{
}

/// Only the sentinel ends a stream in order; a stop or a kill from a worker is refused.
pub proof fn law_worker_may_only_end(
    message: ControlMessage,
    action: Result<ControlAction, String>,
    text: String,
    unread: Result<ControlAction, String>,
    issued: bool,
)
    requires
        call_ensures(process_control_message, (Ok::<ControlMessage, String>(message),), action),
        call_ensures(process_control_message, (Err::<ControlMessage, String>(text),), unread),
        call_ensures(issues_control, (message,), issued),
    ensures
        action is Ok <==> message == ControlMessage::Sentinel,
        action is Ok ==> action->Ok_0 == ControlAction::Shutdown,
        action is Err ==> action->Err_0@ == "unexpected control message on response stream"@,
        unread == Err::<ControlAction, String>(text),
        issued <==> message == ControlMessage::Stop || message == ControlMessage::Kill,
{
}

/// What one round of the receiving loop does: a response that nobody takes, or a kill, ends the loop
/// with a kill whatever was read; a stop is issued once, and what was read is kept for the next
/// round; else the data of a frame without a control message are forwarded whole.
pub proof fn law_round_of_the_receiving_loop(
    handler: &mut ReceiveHandler,
    ready: &mut ReceiveReady,
    action: ReceiveAction,
    could_stop: bool,
    can_stop: bool,
)
    requires
        call_ensures(ReceiveHandler::can_stop, (&*old(handler),), could_stop),
        call_ensures(ReceiveHandler::step, (handler, ready), action),
        call_ensures(ReceiveHandler::can_stop, (&*final(handler),), can_stop),
    ensures
        old(ready).response_closed || old(ready).killed ==> action == ReceiveAction::End(
            Some(ControlMessage::Kill),
        ),
        action is Issue <==> !old(ready).response_closed && !old(ready).killed && old(ready).stopped
            && could_stop,
        action is Issue ==> action->Issue_0 == ControlMessage::Stop && !can_stop && final(
            ready
        ).received == old(ready).received,
        !(action is Issue) ==> can_stop == could_stop,
        action is Forward ==> old(ready).received is Some && old(ready).received->Some_0 is Frame
            && old(ready).received->Some_0->control is None
            && old(ready).received->Some_0->data == action->Forward_0 && action->Forward_0@.len() > 0,
        !old(ready).response_closed && !old(ready).killed && !(old(ready).stopped && could_stop)
            ==> match old(ready).received {
            None => action is Wait,
            Some(Received::Failed) => action == ReceiveAction::End(Some(ControlMessage::Kill)),
            Some(Received::Closed) => action == ReceiveAction::End(None),
            Some(Received::Frame { control, data }) => {
                &&& control is None && data@.len() > 0 ==> action == ReceiveAction::Forward(data)
                &&& control is None && data@.len() == 0 ==> action is Skip
                &&& control is Some ==> action is End
                &&& control is Some ==> (action->End_0 is None <==> data@.len() == 0
                    && control->Some_0 == Ok::<ControlMessage, String>(ControlMessage::Sentinel))
                &&& control is Some && action->End_0 is Some ==> action->End_0 == Some(
                    ControlMessage::Kill,
                )
            },
        },
{
}

/// A loop that has not started can still pass on a stop, and one whose requester is gone ends with a
/// kill.
pub proof fn law_receiving_loop_starts_and_ends(
    handler: ReceiveHandler,
    can_stop: bool,
    delivered: bool,
    end: Option<ControlMessage>,
)
    requires
        call_ensures(ReceiveHandler::new, (), handler),
        call_ensures(ReceiveHandler::can_stop, (&handler,), can_stop),
        call_ensures(ReceiveHandler::forwarded, (&handler, delivered), end),
    ensures
        can_stop,
        delivered ==> end is None,
        !delivered ==> end == Some(ControlMessage::Kill),
{
}

/// A stream of nothing but frames with data, which somebody takes, is let out frame by frame.
pub proof fn law_open_stream_is_let_out(can_stop: bool, rounds: Seq<ReceiveRound>)
    requires
        forall|i: int| 0 <= i < rounds.len() ==> {
            let round = #[trigger] rounds[i];
            &&& round.deliverable
            &&& !round.ready.response_closed && !round.ready.killed && !round.ready.stopped
            &&& round.ready.received is Some
            &&& round.ready.received->Some_0 is Frame
            &&& round.ready.received->Some_0->control is None
            &&& round.ready.received->Some_0->data@.len() > 0
        },
    ensures
        receive_effects(can_stop, rounds) == rounds.map_values(
            |round: ReceiveRound| ReceiveEffect::Data(round.ready.received->Some_0->data),
        ),
    decreases rounds.len(),
{
    let f = |round: ReceiveRound| ReceiveEffect::Data(round.ready.received->Some_0->data);
    if rounds.len() > 0 {
        let rest = rounds.drop_first();
        assert forall|i: int| 0 <= i < rest.len() implies {
            let round = #[trigger] rest[i];
            &&& round.deliverable
            &&& !round.ready.response_closed && !round.ready.killed && !round.ready.stopped
            &&& round.ready.received is Some
            &&& round.ready.received->Some_0 is Frame
            &&& round.ready.received->Some_0->control is None
            &&& round.ready.received->Some_0->data@.len() > 0
        } by {
            assert(rest[i] == rounds[i + 1]);
        }
        law_open_stream_is_let_out(can_stop, rest);
        assert(rounds[0].deliverable);
        assert(receive_effects(can_stop, rounds) =~= seq![f(rounds[0])] + rest.map_values(f));
        assert(rounds.map_values(f) =~= seq![f(rounds[0])] + rest.map_values(f));
    } else {
        assert(receive_effects(can_stop, rounds) =~= rounds.map_values(f));
    }
}

/// The requester has to be there for a stream to start, and of two failures the sending one is told.
pub proof fn law_connection_outcome(
    delivered: bool,
    present: Result<(), String>,
    send: Result<(), String>,
    receive: Result<(), String>,
    outcome: Result<(), String>,
)
    requires
        call_ensures(requester_present, (delivered,), present),
        call_ensures(joined_tasks, (send, receive), outcome),
    ensures
        present is Ok == delivered,
        outcome is Ok <==> send is Ok && receive is Ok,
        send is Err ==> outcome == send,
        send is Ok ==> outcome == receive,
{
}

/// A connection that calls home for a response takes what waits for its subject and nothing else; any
/// other step leaves the server alone.
pub proof fn law_connection_takes_its_own<T, R>(
    phase: ConnectionPhase<R>,
    server: &mut TcpStreamServer<T, R>,
    input: ConnectionInput,
    going: (ConnectionPhase<R>, ConnectionOutput<R>),
    other: Seq<char>,
)
    requires
        fits(phase, input),
        call_ensures(ConnectionPhase::<R>::step::<T>, (phase, server, input), going),
    ensures
        going.0 is Accepted ==> {
            &&& phase is Greeting
            &&& input is HandshakeParsed
            &&& input->HandshakeParsed_0 is Ok
            &&& input->HandshakeParsed_0->Ok_0.stream_type == StreamType::Response
            &&& old(server)@.rx.contains_key(input->HandshakeParsed_0->Ok_0.subject@)
            &&& going.0->Accepted_0 == old(server)@.rx[input->HandshakeParsed_0->Ok_0.subject@]
            &&& going.1 is ReadPrologue
            &&& !final(server)@.rx.contains_key(input->HandshakeParsed_0->Ok_0.subject@)
            &&& other != input->HandshakeParsed_0->Ok_0.subject@
                ==> crate::pipeline::tcp::server::same_subject(
                final(server)@,
                old(server)@,
                other,
            )
        },
        !(going.0 is Accepted) ==> final(server)@ == old(server)@,
        final(server)@.tx == old(server)@.tx,
        final(server)@.removed == old(server)@.removed,
        phase is Greeting && input->HandshakeParsed_0 is Ok
            && input->HandshakeParsed_0->Ok_0.stream_type == StreamType::Response && old(
            server
        )@.rx.contains_key(input->HandshakeParsed_0->Ok_0.subject@) ==> going.0 is Accepted,
{
    if going.0 is Accepted {
        let subject = input->HandshakeParsed_0->Ok_0.subject@;
        if other != subject {
            crate::pipeline::tcp::server::law_cancelled_subject_leaves_the_rest(
                old(server)@,
                subject,
                other,
            );
        }
    }
}

/// What waits for a response is handed on from step to step until it gets the receiving half, or is
/// told why there is none: no step exchanges it for another.
pub proof fn law_waiter_is_kept<T, R>(
    phase: ConnectionPhase<R>,
    server: &mut TcpStreamServer<T, R>,
    input: ConnectionInput,
    going: (ConnectionPhase<R>, ConnectionOutput<R>),
)
    requires
        fits(phase, input),
        call_ensures(ConnectionPhase::<R>::step::<T>, (phase, server, input), going),
    ensures
        phase is Accepted ==> (going.0 is Announced && going.0->Announced_0 == phase->Accepted_0)
            || going.0 is Closed,
        phase is Announced ==> (going.0 is HandingOver && going.1 == ConnectionOutput::HandOver(
            phase->Announced_0,
        )) || going.0 is Closed,
        phase is HandingOver ==> going.0 is Streaming || going.0 is Closed,
        phase is Streaming ==> going.0 is Closed,
        phase is Opened ==> going.0 is Greeting || going.0 is Closed,
        phase is Greeting ==> going.0 is Accepted || going.0 is Closed,
        going.0 is Closed <==> going.1 is Finish,
        going.0 is Greeting <==> going.1 is ParseHandshake,
        going.0 is Announced <==> going.1 is ParsePrologue,
        going.0 is Streaming <==> going.1 is StartTasks,
        going.1 is Finish && going.1->notify is Some ==> (phase is Accepted
            && going.1->notify->Some_0.0 == phase->Accepted_0) || (phase is Announced
            && going.1->notify->Some_0.0 == phase->Announced_0),
        going.1 is Finish && going.1->outcome is Ok ==> phase is Greeting || phase is Streaming,
        going.1 is Finish && going.1->notify is Some ==> going.1->outcome is Err,
        phase is HandingOver ==> going.0 is Streaming == input->HandedOver_0,
        phase is Streaming ==> (going.1->outcome is Ok <==> input->TasksJoined_0 is Ok
            && input->TasksJoined_1 is Ok),
{
}

/// A connection that ends early tells why in the words of the step that failed, and tells the
/// requester what that step tells it.
pub proof fn law_early_end_tells_why<T, R>(
    phase: ConnectionPhase<R>,
    server: &mut TcpStreamServer<T, R>,
    input: ConnectionInput,
    going: (ConnectionPhase<R>, ConnectionOutput<R>),
    first: Result<Vec<u8>, String>,
    route: Result<Route, String>,
    second: Result<Vec<u8>, Rejection>,
    verdict: Result<(), Rejection>,
    present: Result<(), String>,
    joined: Result<(), String>,
)
    requires
        fits(phase, input),
        call_ensures(ConnectionPhase::<R>::step::<T>, (phase, server, input), going),
        call_ensures(handshake_header, (input->Read_0,), first),
        call_ensures(route_handshake, (input->HandshakeParsed_0,), route),
        call_ensures(prologue_header, (input->Read_0,), second),
        call_ensures(judge_prologue, (input->PrologueParsed_0,), verdict),
        call_ensures(requester_present, (input->HandedOver_0,), present),
        call_ensures(joined_tasks, (input->TasksJoined_0, input->TasksJoined_1), joined),
    ensures
        final(server).spec_address() == old(server).spec_address(),
        phase is Opened ==> going.0 is Closed == first is Err,
        phase is Opened && first is Ok ==> going.1 == ConnectionOutput::<R>::ParseHandshake(
            first->Ok_0,
        ),
        phase is Opened && first is Err ==> going.1->outcome->Err_0@ == first->Err_0@,
        phase is Greeting && route is Err ==> going.0 is Closed && going.1->outcome->Err_0@
            == route->Err_0@,
        phase is Greeting && route is Ok && route->Ok_0 is Request ==> going.0 is Closed
            && going.1->outcome is Ok,
        phase is Greeting && route is Ok && route->Ok_0 is Response && !old(
            server
        )@.rx.contains_key(route->Ok_0->Response_0@) ==> going.0 is Closed
            && going.1->outcome->Err_0@ == "Subject not found: "@ + route->Ok_0->Response_0@
            + "; upstream publisher specified a subject unknown to the downsteam subscriber"@,
        phase is Accepted ==> going.0 is Closed == second is Err,
        phase is Accepted && second is Ok ==> going.1 == ConnectionOutput::<R>::ParsePrologue(
            second->Ok_0,
        ),
        phase is Accepted && second is Err ==> going.1->outcome->Err_0@ == second->Err_0.error@
            && going.1->notify is Some == second->Err_0.notify is Some,
        phase is Accepted && second is Err && second->Err_0.notify is Some
            ==> going.1->notify->Some_0.1@ == second->Err_0.notify->Some_0@,
        phase is Announced ==> going.0 is Closed == verdict is Err,
        phase is Announced && verdict is Err ==> going.1->outcome->Err_0@ == verdict->Err_0.error@
            && going.1->notify is Some == verdict->Err_0.notify is Some,
        phase is Announced && verdict is Err && verdict->Err_0.notify is Some
            ==> going.1->notify->Some_0.1@ == verdict->Err_0.notify->Some_0@,
        phase is HandingOver ==> going.0 is Closed == present is Err,
        phase is HandingOver && present is Err ==> going.1->outcome->Err_0@ == present->Err_0@
            && present->Err_0@
            == "The requester of the stream has been dropped before the connection was established"@,
        phase is Streaming ==> going.1->outcome == joined,
{
}

} // verus!
