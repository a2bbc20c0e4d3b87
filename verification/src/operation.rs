//! Compact wire form for election operations: a vote message carries an
//! explicit `granted` flag in its payload byte, a heartbeat is a bare opcode.
use vstd::prelude::*;

verus! {

/// An election operation in its compact form.
#[derive(Clone, Copy, Debug, PartialEq, Eq, Structural)]
pub enum Operation {
    /// `Vote(true)`: please vote for me. `Vote(false)`: I vote for you.
    Vote(bool),
    /// I am the alive leader.
    Heartbeat,
}

/// What processing an operation did to the receiving node's state.
#[derive(Clone, Copy, Debug, PartialEq, Eq, Structural)]
pub enum OperationResult {
    /// The message was stale or malformed and changed nothing worth waking for.
    Ignore,
    /// The message was current and was acted on.
    Applied,
}

/// Byte form of an operation: opcode `0` plus a flag byte for a vote,
/// opcode `1` alone for a heartbeat.
pub open spec fn spec_encode(operation: Operation) -> Seq<u8> {
    match operation {
        Operation::Vote(granted) => seq![0u8, if granted { 1u8 } else { 0u8 }],
        Operation::Heartbeat => seq![1u8],
    }
}

/// The operation a byte buffer decodes to, if any: an empty buffer, a vote
/// missing its flag byte, or an unknown opcode decode to nothing. Bytes after
/// a heartbeat opcode or a vote flag are ignored, as a frame reader would.
pub open spec fn spec_decode(bytes: Seq<u8>) -> Option<Operation> {
    if bytes.len() < 1 {
        None
    } else if bytes[0] == 0 {
        if bytes.len() < 2 {
            None
        } else {
            Some(Operation::Vote(bytes[1] != 0))
        }
    } else if bytes[0] == 1 {
        Some(Operation::Heartbeat)
    } else {
        None
    }
}

impl Operation {
    /// Decode an operation from its byte form.
    pub fn try_from(value: Vec<u8>) -> (r: Result<Self, ()>)
        ensures
            r matches Ok(operation) ==> spec_decode(value@) == Some(operation),
            r is Err <==> spec_decode(value@) is None,
    {
        if value.len() < 1 {
            return Err(());
        }
        let opcode = value[0];
        if opcode == 0 {
            if value.len() < 2 {
                Err(())
            } else {
                Ok(Self::Vote(value[1] != 0))
            }
        } else if opcode == 1 {
            Ok(Self::Heartbeat)
        } else {
            Err(())
        }
    }

    /// Encode the operation into its byte form.
    pub fn to_bytes(self) -> (r: Vec<u8>)
        ensures
            r@ == spec_encode(self),
    {
        let mut ret: Vec<u8> = Vec::new();
        match self {
            Operation::Vote(granted) => {
                ret.push(0);
                ret.push(if granted { 1 } else { 0 });
            }
            Operation::Heartbeat => {
                ret.push(1);
            }
        }
        proof {
            assert(ret@ =~= spec_encode(self));
        }
        ret
    }
}

/// Law: decoding an encoded operation gives the operation back, for every
/// variant.
pub proof fn lemma_operation_round_trip(operation: Operation)
    ensures
        spec_decode(spec_encode(operation)) == Some(operation),
{
}

} // verus!
