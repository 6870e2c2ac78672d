//! Transceiver: turns a framed payload into a typed message by dispatching
//! on its leading packet-type byte, and a typed message back into its
//! payload bytes.

use vstd::prelude::*;

use crate::command::{CommandPacket, CommandPacketModel, spec_serialize, COMMAND_PACKET_TAG};
use crate::framing::FrameError;
use crate::protocol::{Packet, ParseError};

verus! {

/// The typed messages that travel over the link.
#[derive(Debug, Clone)]
pub enum Message {
    Command(CommandPacket),
}

/// Failure of the transceiver layer.
#[derive(Debug, Clone, Copy, PartialEq, Eq, Structural)]
pub enum TransceiverError {
    /// The framing layer failed at the raw-stream level.
    Io(FrameError),
    /// The payload carried a known packet type whose packet did not decode.
    Parse(ParseError),
    /// The payload's leading packet-type byte is not recognised; carries
    /// the offending byte.
    UnknownPacketType(u8),
}

/// The payload bytes that a message serializes to.
pub open spec fn spec_message_bytes(m: Message) -> Seq<u8> {
    match m {
        Message::Command(c) => spec_serialize(c@),
    }
}

/// What dispatching on a framed payload yields: nothing for an empty
/// payload, the decoded packet model for a recognised packet type, and
/// the precise error otherwise.
pub open spec fn spec_decode_message(b: Seq<u8>) -> Result<
    Option<CommandPacketModel>,
    TransceiverError,
> {
    if b.len() == 0 {
        Ok(None)
    } else if b[0] == COMMAND_PACKET_TAG {
        match crate::command::spec_deserialize(b) {
            Ok(pm) => Ok(Some(pm)),
            Err(e) => Err(TransceiverError::Parse(e)),
        }
    } else {
        Err(TransceiverError::UnknownPacketType(b[0]))
    }
}

impl Message {
    /// Unwraps the packet carried by this message.
    pub fn into_inner(self) -> (r: CommandPacket)
        ensures
            self == Message::Command(r),
    {
        match self {
            Self::Command(c) => c,
        }
    }
}

/// Decodes one framed payload into a typed message. An empty payload
/// means nothing was received and is not an error.
pub fn decode_message(bytes: &[u8]) -> (r: Result<Option<Message>, TransceiverError>)
    ensures
        (spec_decode_message(bytes@) matches Ok(Some(pm)) ==> r matches Ok(Some(m))
            && m matches Message::Command(c) && c@ == pm && c.wf()),
        (spec_decode_message(bytes@) matches Ok(None) ==> r matches Ok(None)),
        (spec_decode_message(bytes@) matches Err(e) ==> r == Err::<
            Option<Message>,
            TransceiverError,
        >(e)),
{
    if bytes.len() == 0 {
        return Ok(None);
    }
    if bytes[0] == COMMAND_PACKET_TAG {
        match CommandPacket::deserialize(bytes) {
            Ok(p) => Ok(Some(Message::Command(p))),
            Err(e) => Err(TransceiverError::Parse(e)),
        }
    } else {
        Err(TransceiverError::UnknownPacketType(bytes[0]))
    }
}

/// Serializes a typed message into the payload bytes to be framed.
pub fn encode_message(m: Message) -> (r: Vec<u8>)
    ensures
        r@ == spec_message_bytes(m),
{
    match m {
        Message::Command(c) => c.serialize(),
    }
}

} // verus!
