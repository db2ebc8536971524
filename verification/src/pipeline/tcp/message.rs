//! Messages of the TCP response plane.

use vstd::prelude::*;

verus! {

/// A frame with an optional header part and an optional data part.
#[derive(Debug, Clone)]
pub struct TwoPartMessage {
    pub header: Vec<u8>,
    pub data: Vec<u8>,
}

/// A frame told apart by which of its parts are present.
#[derive(Debug, Clone)]
pub enum TwoPartMessageType {
    HeaderOnly(Vec<u8>),
    DataOnly(Vec<u8>),
    HeaderAndData(Vec<u8>, Vec<u8>),
    Empty,
}

impl TwoPartMessage {
    /// A frame with a header and no data.
    pub fn from_header(header: Vec<u8>) -> (message: Self)
        ensures
            message.header@ == header@,
            message.data@ == Seq::<u8>::empty(),
    {
        TwoPartMessage { header, data: Vec::new() }
    }

    /// A frame with data and no header.
    pub fn from_data(data: Vec<u8>) -> (message: Self)
        ensures
            message.header@ == Seq::<u8>::empty(),
            message.data@ == data@,
    {
        TwoPartMessage { header: Vec::new(), data }
    }

    /// Tells which parts are present.
    pub fn into_message_type(self) -> (kind: TwoPartMessageType)
        ensures
            match kind {
                TwoPartMessageType::HeaderOnly(h) => h == self.header && self.header@.len() > 0
                    && self.data@.len() == 0,
                TwoPartMessageType::DataOnly(d) => d == self.data && self.header@.len() == 0
                    && self.data@.len() > 0,
                TwoPartMessageType::HeaderAndData(h, d) => h == self.header && d == self.data
                    && self.header@.len() > 0 && self.data@.len() > 0,
                TwoPartMessageType::Empty => self.header@.len() == 0 && self.data@.len() == 0,
            },
    {
        let TwoPartMessage { header, data } = self;
        if header.len() > 0 {
            if data.len() > 0 {
                TwoPartMessageType::HeaderAndData(header, data)
            } else {
                TwoPartMessageType::HeaderOnly(header)
            }
        } else if data.len() > 0 {
            TwoPartMessageType::DataOnly(data)
        } else {
            TwoPartMessageType::Empty
        }
    }
}

/// What a framed reader yields: a frame, a read or decode error, or the end of the stream.
#[derive(Debug, Clone)]
pub enum Incoming {
    Frame(TwoPartMessage),
    Failed(String),
    Closed,
}

/// A control message of the response plane.
#[derive(Debug, Clone, Copy, PartialEq, Eq, Structural)]
pub enum ControlMessage {
    Stop,
    Kill,
    Sentinel,
}

/// Direction in which a stream carries data.
#[derive(Debug, Clone, Copy, PartialEq, Eq, Structural)]
pub enum StreamType {
    Request,
    Response,
}

/// The first message of a connection: which subject it serves, in which direction.
#[derive(Debug, Clone)]
pub struct CallHomeHandshake {
    pub subject: String,
    pub stream_type: StreamType,
}

/// The second message of a response connection: whether generation started.
#[derive(Debug, Clone)]
pub struct ResponseStreamPrologue {
    pub error: Option<String>,
}

/// What a worker needs in order to call home.
#[derive(Debug, Clone)]
pub struct TcpStreamConnectionInfo {
    pub address: String,
    pub subject: String,
    pub context: String,
    pub stream_type: StreamType,
}

/// A frame that was made of a header or of data alone is told as such, with what it was made of; a
/// part that is empty does not count.
pub proof fn law_parts_of_a_frame(
    header: Vec<u8>,
    with_header: TwoPartMessage,
    header_kind: TwoPartMessageType,
    data: Vec<u8>,
    with_data: TwoPartMessage,
    data_kind: TwoPartMessageType,
    both_kind: TwoPartMessageType,
)
    requires
        call_ensures(TwoPartMessage::from_header, (header,), with_header),
        call_ensures(TwoPartMessage::into_message_type, (with_header,), header_kind),
        call_ensures(TwoPartMessage::from_data, (data,), with_data),
        call_ensures(TwoPartMessage::into_message_type, (with_data,), data_kind),
        call_ensures(
            TwoPartMessage::into_message_type,
            (TwoPartMessage { header, data },),
            both_kind,
        ),
    ensures
        header@.len() > 0 ==> header_kind is HeaderOnly && header_kind->HeaderOnly_0@ == header@,
        header@.len() == 0 ==> header_kind is Empty,
        data@.len() > 0 ==> data_kind is DataOnly && data_kind->DataOnly_0@ == data@,
        data@.len() == 0 ==> data_kind is Empty,
        header@.len() > 0 && data@.len() > 0 ==> both_kind == TwoPartMessageType::HeaderAndData(
            header,
            data,
        ),
        header@.len() > 0 && data@.len() == 0 ==> both_kind == TwoPartMessageType::HeaderOnly(
            header,
        ),
        header@.len() == 0 && data@.len() > 0 ==> both_kind == TwoPartMessageType::DataOnly(data),
        header@.len() == 0 && data@.len() == 0 ==> both_kind is Empty,
{
}

} // verus!
