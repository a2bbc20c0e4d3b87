//! Self-describing wire form for election operations: a vote request carries
//! the sender's listen address as its payload, a granted vote and a heartbeat
//! are bare opcodes.
use vstd::prelude::*;
use vstd::utf8::decode_utf8;
use vstd::utf8::encode_utf8;
use vstd::utf8::valid_utf8;

verus! {

/// An election operation in its self-describing form.
#[derive(Debug)]
pub enum Operation {
    /// `Vote(Some(address))`: please vote for me, and reply to this address.
    /// `Vote(None)`: I vote for you.
    Vote(Option<String>),
    /// I am the alive leader.
    Heartbeat,
}

/// What an operation says, with its address read as a character sequence.
pub enum OperationModel {
    Vote(Option<Seq<char>>),
    Heartbeat,
}

/// Answer of [`Operation::process`]: how a same-term operation was taken.
#[derive(Debug)]
pub enum OperationResult {
    /// The operation does not apply to the current role.
    Rejected,
    /// The operation was applied to the local state alone.
    Applied,
    /// The operation asks for an answer to the whole cluster.
    Broadcast(Operation),
    /// The operation asks for an answer to its sender.
    Response(Operation),
}

impl Operation {
    /// The operation's meaning.
    pub open spec fn model(&self) -> OperationModel {
        match self {
            Operation::Vote(Some(a)) => OperationModel::Vote(Some(a@)),
            Operation::Vote(None) => OperationModel::Vote(None),
            Operation::Heartbeat => OperationModel::Heartbeat,
        }
    }
}

/// Byte form of an operation: opcode `0` plus the UTF-8 bytes of the address
/// for a vote request, the bare opcode `0` for a granted vote, the bare
/// opcode `1` for a heartbeat.
pub open spec fn spec_encode_op(m: OperationModel) -> Seq<u8> {
    match m {
        OperationModel::Vote(Some(a)) => seq![0u8] + encode_utf8(a),
        OperationModel::Vote(None) => seq![0u8],
        OperationModel::Heartbeat => seq![1u8],
    }
}

/// The operation a byte buffer decodes to, if any: an empty buffer, an
/// unknown opcode, or a vote payload that is not well-formed UTF-8 decode to
/// nothing. Bytes after a heartbeat opcode are ignored, as a frame reader
/// would.
pub open spec fn spec_decode_op(bytes: Seq<u8>) -> Option<OperationModel> {
    if bytes.len() < 1 {
        None
    } else if bytes[0] == 0 {
        if bytes.len() == 1 {
            Some(OperationModel::Vote(None))
        } else if valid_utf8(bytes.skip(1)) {
            Some(OperationModel::Vote(Some(decode_utf8(bytes.skip(1)))))
        } else {
            None
        }
    } else if bytes[0] == 1 {
        Some(OperationModel::Heartbeat)
    } else {
        None
    }
}

/// Relies on `std::str::from_utf8`: it succeeds exactly on well-formed UTF-8
/// input, and the returned string slice reads that input back as characters;
/// `str::to_owned` copies it into an owned `String`.
#[verifier::external_body]
fn utf8_to_string(bytes: &[u8]) -> (r: Option<String>)
    ensures
        r is Some <==> valid_utf8(bytes@),
        r matches Some(s) ==> s@ == decode_utf8(bytes@),
{
    match std::str::from_utf8(bytes) {
        Ok(s) => Some(s.to_owned()),
        Err(_) => None,
    }
}

impl Operation {
    /// Decode an operation from the payload bytes of a frame.
    pub fn try_from(value: Vec<u8>) -> (r: Result<Self, ()>)
        ensures
            r matches Ok(operation) ==> spec_decode_op(value@) == Some(operation.model()),
            r is Err <==> spec_decode_op(value@) is None,
    {
        if value.len() < 1 {
            return Err(());
        }
        let opcode = value[0];
        if opcode == 0 {
            if value.len() == 1 {
                Ok(Self::Vote(None))
            } else {
                let payload = vstd::slice::slice_subrange(value.as_slice(), 1, value.len());
                proof {
                    assert(payload@ =~= value@.skip(1));
                }
                match utf8_to_string(payload) {
                    Some(address) => Ok(Self::Vote(Some(address))),
                    None => Err(()),
                }
            }
        } else if opcode == 1 {
            Ok(Self::Heartbeat)
        } else {
            Err(())
        }
    }

    /// Encode the operation into the payload bytes of a frame.
    pub fn to_bytes(self) -> (r: Vec<u8>)
        ensures
            r@ == spec_encode_op(self.model()),
    {
        let ghost m = self.model();
        let mut ret: Vec<u8> = Vec::new();
        match self {
            Operation::Vote(request) => {
                ret.push(0);
                if let Some(address) = request {
                    let mut tail = address.as_str().as_bytes_vec();
                    ret.append(&mut tail);
                }
            }
            Operation::Heartbeat => {
                ret.push(1);
            }
        }
        proof {
            assert(ret@ =~= spec_encode_op(m));
        }
        ret
    }
}

/// The UTF-8 encoding of a nonempty character sequence is nonempty: its first
/// scalar alone takes at least one byte.
proof fn lemma_encode_utf8_nonempty(chars: Seq<char>)
    requires
        chars.len() > 0,
    ensures
        encode_utf8(chars).len() >= 1,
{
    assert(encode_utf8(chars).len() >= vstd::utf8::encode_scalar(chars[0] as u32).len());
}

/// Law: decoding an encoded operation gives an operation of the same meaning
/// back, for every variant. The one exception is a vote request with an empty
/// address, whose payload is indistinguishable from a granted vote on the
/// wire.
pub proof fn lemma_operation_model_round_trip(m: OperationModel)
    requires
        m matches OperationModel::Vote(Some(a)) ==> a.len() > 0,
    ensures
        spec_decode_op(spec_encode_op(m)) == Some(m),
{
    broadcast use vstd::utf8::encode_utf8_valid_utf8;
    broadcast use vstd::utf8::encode_utf8_decode_utf8;

    match m {
        OperationModel::Vote(Some(a)) => {
            let bytes = spec_encode_op(m);
            lemma_encode_utf8_nonempty(a);
            assert(bytes.skip(1) =~= encode_utf8(a));
            assert(spec_decode_op(bytes) == Some(OperationModel::Vote(Some(decode_utf8(
                encode_utf8(a),
            )))));
        }
        OperationModel::Vote(None) => {}
        OperationModel::Heartbeat => {}
    }
}

} // verus!
