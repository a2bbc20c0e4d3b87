//! Framing for the request/response style of exchange over a persistent
//! connection: a two-byte `(term, type)` header for requests and a single
//! response code byte for replies.
use vstd::prelude::*;

verus! {

/// A request frame: the sender's term and the kind of request.
#[derive(Clone, Copy, Debug, PartialEq, Eq, Structural)]
pub struct Message {
    pub term: u8,
    pub body: MessageType,
}

/// Kind of a request frame.
#[derive(Clone, Copy, Debug, PartialEq, Eq, Structural)]
pub enum MessageType {
    /// A candidate solicits a vote for its term.
    RequestVote,
    /// The leader announces it is alive.
    Heartbeat,
    /// Log replication placeholder; acknowledged without further action.
    AppendEntry,
}

/// A single-byte reply to a request frame.
#[derive(Clone, Copy, Debug, PartialEq, Eq, Structural)]
pub enum Response {
    Ack,
    Nack,
    ImNotLeader,
}

/// Byte form of a request frame: `[term, type]`.
pub open spec fn spec_encode_message(message: Message) -> Seq<u8> {
    match message.body {
        MessageType::RequestVote => seq![message.term, 0u8],
        MessageType::Heartbeat => seq![message.term, 1u8],
        MessageType::AppendEntry => seq![message.term, 2u8],
    }
}

/// The request frame a byte buffer decodes to, if any: a buffer shorter than
/// the header or with an unknown type byte decodes to nothing. Bytes past the
/// header are ignored, as a frame reader would leave them on the stream.
pub open spec fn spec_decode_message(bytes: Seq<u8>) -> Option<Message> {
    if bytes.len() < 2 {
        None
    } else if bytes[1] == 0 {
        Some(Message { term: bytes[0], body: MessageType::RequestVote })
    } else if bytes[1] == 1 {
        Some(Message { term: bytes[0], body: MessageType::Heartbeat })
    } else if bytes[1] == 2 {
        Some(Message { term: bytes[0], body: MessageType::AppendEntry })
    } else {
        None
    }
}

/// Byte form of a response: its single code byte.
pub open spec fn spec_encode_response(response: Response) -> Seq<u8> {
    match response {
        Response::Ack => seq![0u8],
        Response::Nack => seq![1u8],
        Response::ImNotLeader => seq![2u8],
    }
}

/// The response a byte buffer decodes to, if any.
pub open spec fn spec_decode_response(bytes: Seq<u8>) -> Option<Response> {
    if bytes.len() < 1 {
        None
    } else if bytes[0] == 0 {
        Some(Response::Ack)
    } else if bytes[0] == 1 {
        Some(Response::Nack)
    } else if bytes[0] == 2 {
        Some(Response::ImNotLeader)
    } else {
        None
    }
}

impl Message {
    /// Decode a request frame from bytes read off a connection.
    pub fn from_bytes(bytes: &[u8]) -> (r: Result<Self, ()>)
        ensures
            r matches Ok(message) ==> spec_decode_message(bytes@) == Some(message),
            r is Err <==> spec_decode_message(bytes@) is None,
    {
        if bytes.len() < 2 {
            return Err(());
        }
        let term = *vstd::slice::slice_index_get(bytes, 0);
        let kind = *vstd::slice::slice_index_get(bytes, 1);
        let body = if kind == 0 {
            MessageType::RequestVote
        } else if kind == 1 {
            MessageType::Heartbeat
        } else if kind == 2 {
            MessageType::AppendEntry
        } else {
            return Err(());
        };
        Ok(Self { term, body })
    }

    /// Encode the request frame for writing to a connection.
    pub fn to_bytes(&self) -> (r: Vec<u8>)
        ensures
            r@ == spec_encode_message(*self),
    {
        let mut ret: Vec<u8> = Vec::new();
        ret.push(self.term);
        match self.body {
            MessageType::RequestVote => ret.push(0),
            MessageType::Heartbeat => ret.push(1),
            MessageType::AppendEntry => ret.push(2),
        }
        proof {
            assert(ret@ =~= spec_encode_message(*self));
        }
        ret
    }
}

impl Response {
    /// Decode a response from its code byte.
    pub fn from_bytes(bytes: &[u8]) -> (r: Result<Self, ()>)
        ensures
            r matches Ok(response) ==> spec_decode_response(bytes@) == Some(response),
            r is Err <==> spec_decode_response(bytes@) is None,
    {
        if bytes.len() < 1 {
            return Err(());
        }
        let code = *vstd::slice::slice_index_get(bytes, 0);
        if code == 0 {
            Ok(Self::Ack)
        } else if code == 1 {
            Ok(Self::Nack)
        } else if code == 2 {
            Ok(Self::ImNotLeader)
        } else {
            Err(())
        }
    }

    /// Encode the response for writing back on the same connection.
    pub fn to_bytes(&self) -> (r: Vec<u8>)
        ensures
            r@ == spec_encode_response(*self),
    {
        let mut ret: Vec<u8> = Vec::new();
        match self {
            Response::Ack => ret.push(0),
            Response::Nack => ret.push(1),
            Response::ImNotLeader => ret.push(2),
        }
        proof {
            assert(ret@ =~= spec_encode_response(*self));
        }
        ret
    }
}

/// Law: decoding an encoded request frame gives the frame back.
pub proof fn lemma_message_round_trip(message: Message)
    ensures
        spec_decode_message(spec_encode_message(message)) == Some(message),
{
}

/// Law: decoding an encoded response gives the response back.
pub proof fn lemma_response_round_trip(response: Response)
    ensures
        spec_decode_response(spec_encode_response(response)) == Some(response),
{
}

} // verus!
