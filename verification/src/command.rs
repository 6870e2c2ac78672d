//! Command packet codec: the wire layout of the one supported packet kind
//! (a command envelope with a fixed 8-byte header and a type-tagged body)
//! and its conversions to and from bytes.

use vstd::prelude::*;

use crate::packet::{
    decode_u16, decode_u32, encode_u16, encode_u32, lemma_u16_decode_encode,
    lemma_u32_decode_encode, spec_decode_u16, spec_decode_u32, spec_encode_u16, spec_encode_u32,
};
use crate::protocol::{Packet, ParseError};

verus! {

/// Leading packet-type tag of every command packet.
pub const COMMAND_PACKET_TAG: u8 = 0x01;

/// Bit of the flags byte that marks an acknowledgement.
pub const IS_ACK_BIT: u8 = 0x80;

/// A command envelope: header fields plus one typed command body.
#[derive(Debug, Clone)]
pub struct CommandPacket {
    pub serial_number: u32,
    pub ack_id: u16,
    pub flags: Vec<CommandFlags>,
    pub command: Command,
}

/// Named bits of the header's flags byte.
#[derive(Debug, Clone, Copy, PartialEq, Eq, Structural)]
pub enum CommandFlags {
    IsAck,
}

/// The typed body of a command packet.
#[derive(Debug, Clone, Copy, PartialEq, Eq, Structural)]
pub enum Command {
    TurnOnOff { on: bool, relay_index: u8 },
}

/// Mathematical model of a `CommandPacket`: the flag vector collapses to
/// the one named bit it can carry.
pub struct CommandPacketModel {
    pub serial_number: u32,
    pub ack_id: u16,
    pub is_ack: bool,
    pub command: Command,
}

impl View for CommandPacket {
    type V = CommandPacketModel;

    open spec fn view(&self) -> CommandPacketModel {
        CommandPacketModel {
            serial_number: self.serial_number,
            ack_id: self.ack_id,
            is_ack: self.flags@.contains(CommandFlags::IsAck),
            command: self.command,
        }
    }
}

/// The flags byte encoding the given acknowledgement mark.
pub open spec fn spec_flags_byte(is_ack: bool) -> u8 {
    if is_ack {
        IS_ACK_BIT
    } else {
        0
    }
}

/// The 2-byte command-type tag of a command body.
pub open spec fn spec_command_type(c: Command) -> u16 {
    match c {
        Command::TurnOnOff { .. } => 0x01,
    }
}

/// The command-specific body bytes that follow the command-type tag.
pub open spec fn spec_command_body(c: Command) -> Seq<u8> {
    match c {
        Command::TurnOnOff { on, relay_index } => seq![
            if on {
                1u8
            } else {
                0u8
            },
            relay_index,
        ],
    }
}

/// The full wire encoding of a command packet: packet-type tag, serial
/// number, ack id, flags byte, command-type tag, command body.
pub open spec fn spec_serialize(p: CommandPacketModel) -> Seq<u8> {
    seq![COMMAND_PACKET_TAG] + spec_encode_u32(p.serial_number) + spec_encode_u16(p.ack_id)
        + seq![spec_flags_byte(p.is_ack)] + spec_encode_u16(spec_command_type(p.command))
        + spec_command_body(p.command)
}

/// What decoding a byte sequence yields: the packet model on success, and
/// the precise parse error otherwise. Inputs shorter than the 10-byte
/// header are rejected before any field is read; a known command type is
/// then held to its own minimum length before its body bytes are read.
pub open spec fn spec_deserialize(b: Seq<u8>) -> Result<CommandPacketModel, ParseError> {
    if b.len() < 10 {
        Err(ParseError::InvalidLength { expected: 10, got: b.len() as usize })
    } else if spec_decode_u16(b[8], b[9]) == 0x01 {
        if b.len() < 12 {
            Err(ParseError::InvalidLength { expected: 12, got: b.len() as usize })
        } else {
            Ok(
                CommandPacketModel {
                    serial_number: spec_decode_u32(b[1], b[2], b[3], b[4]),
                    ack_id: spec_decode_u16(b[5], b[6]),
                    is_ack: b[7] & IS_ACK_BIT != 0,
                    command: Command::TurnOnOff { on: b[10] == 1, relay_index: b[11] },
                },
            )
        }
    } else {
        Err(ParseError::InvalidValue)
    }
}

impl CommandPacket {
    /// A packet is well formed when its flag vector is in normal form:
    /// each named bit occurs at most once, so currently at most one entry.
    pub open spec fn wf(self) -> bool {
        self.flags@.len() <= 1
    }

    fn decode_flags(v: u8) -> (r: Vec<CommandFlags>)
        ensures
            r@ == (if v & IS_ACK_BIT != 0 {
                seq![CommandFlags::IsAck]
            } else {
                Seq::<CommandFlags>::empty()
            }),
    {
        let mut r: Vec<CommandFlags> = Vec::new();
        if v & IS_ACK_BIT != 0 {
            r.push(CommandFlags::IsAck);
        }
        proof {
            if v & IS_ACK_BIT != 0 {
                assert(r@ =~= seq![CommandFlags::IsAck]);
            } else {
                assert(r@ =~= Seq::<CommandFlags>::empty());
            }
        }
        r
    }

    fn encode_command_body(&self) -> (r: Vec<u8>)
        ensures
            r@ == spec_encode_u16(spec_command_type(self.command)) + spec_command_body(
                self.command,
            ),
    {
        let cmd_type = encode_u16(self.encode_command_type());
        match self.command {
            Command::TurnOnOff { on, relay_index } => {
                let r = vec![
                    cmd_type[0],
                    cmd_type[1],
                    if on {
                        1
                    } else {
                        0
                    },
                    relay_index,
                ];
                proof {
                    assert(r@ =~= spec_encode_u16(spec_command_type(self.command))
                        + spec_command_body(self.command));
                }
                r
            },
        }
    }

    fn encode_command_type(&self) -> (r: u16)
        ensures
            r == spec_command_type(self.command),
    {
        match self.command {
            Command::TurnOnOff { .. } => 0x01,
        }
    }

    fn encode_flags(&self) -> (r: u8)
        ensures
            r == spec_flags_byte(self@.is_ack),
    {
        let mut acc: u8 = 0;
        let mut i: usize = 0;
        while i < self.flags.len()
            invariant
                i <= self.flags@.len(),
                acc == spec_flags_byte(self.flags@.take(i as int).contains(CommandFlags::IsAck)),
            decreases self.flags@.len() - i,
        {
            match self.flags[i] {
                CommandFlags::IsAck => {
                    acc = acc | IS_ACK_BIT;
                },
            }
            proof {
                assert(0u8 | 0x80u8 == 0x80u8) by (bit_vector);
                assert(0x80u8 | 0x80u8 == 0x80u8) by (bit_vector);
                assert(self.flags@.take(i + 1 as int)[i as int] == CommandFlags::IsAck);
                assert(self.flags@.take(i + 1 as int).contains(CommandFlags::IsAck));
            }
            i = i + 1;
        }
        proof {
            assert(self.flags@.take(self.flags@.len() as int) =~= self.flags@);
        }
        acc
    }
}

impl Packet for CommandPacket {
    open spec fn wire(self) -> Seq<u8> {
        spec_serialize(self@)
    }

    open spec fn parse_ok(b: Seq<u8>) -> bool {
        spec_deserialize(b) is Ok
    }

    open spec fn parses_to(b: Seq<u8>, p: Self) -> bool {
        spec_deserialize(b) == Ok::<CommandPacketModel, ParseError>(p@) && p.wf()
    }

    open spec fn parse_err(b: Seq<u8>) -> ParseError {
        spec_deserialize(b)->Err_0
    }

    fn serialize(self) -> (r: Vec<u8>) {
        let sn = encode_u32(self.serial_number);
        let ack = encode_u16(self.ack_id);
        let flags = self.encode_flags();
        let mut r = vec![COMMAND_PACKET_TAG, sn[0], sn[1], sn[2], sn[3], ack[0], ack[1], flags];
        let mut body = self.encode_command_body();
        r.append(&mut body);
        proof {
            assert(r@ =~= spec_serialize(self@));
        }
        r
    }

    fn deserialize(v: &[u8]) -> (r: Result<Self, ParseError>) {
        if v.len() < 10 {
            return Err(ParseError::new_invalid_length(10, v.len()));
        }
        let serial_number = decode_u32(vstd::slice::slice_subrange(v, 1, 5));
        let ack_id = decode_u16(vstd::slice::slice_subrange(v, 5, 7));
        let flags = Self::decode_flags(v[7]);
        let cmd_type = decode_u16(vstd::slice::slice_subrange(v, 8, 10));

        let command = match cmd_type {
            0x01 => {
                if v.len() < 12 {
                    return Err(ParseError::new_invalid_length(12, v.len()));
                }
                Command::TurnOnOff { on: v[10] == 1, relay_index: v[11] }
            },
            _ => {
                return Err(ParseError::InvalidValue);
            },
        };

        let r = Self { serial_number, ack_id, flags, command };
        proof {
            if v@[7] & IS_ACK_BIT != 0 {
                assert(flags@[0] == CommandFlags::IsAck);
                assert(flags@.contains(CommandFlags::IsAck));
            } else {
                assert(!flags@.contains(CommandFlags::IsAck));
            }
            assert(r@ == spec_deserialize(v@)->Ok_0);
        }
        Ok(r)
    }
}

/// Round trip: deserializing the serialized form of any packet model gives
/// the model back.
pub proof fn lemma_packet_round_trip(p: CommandPacketModel)
    ensures
        spec_deserialize(spec_serialize(p)) == Ok::<CommandPacketModel, ParseError>(p),
{
    let b = spec_serialize(p);
    assert(b.len() == 12);
    assert(b[0] == COMMAND_PACKET_TAG);
    assert(b[1] == spec_encode_u32(p.serial_number)[0]);
    assert(b[2] == spec_encode_u32(p.serial_number)[1]);
    assert(b[3] == spec_encode_u32(p.serial_number)[2]);
    assert(b[4] == spec_encode_u32(p.serial_number)[3]);
    assert(b[5] == spec_encode_u16(p.ack_id)[0]);
    assert(b[6] == spec_encode_u16(p.ack_id)[1]);
    assert(b[7] == spec_flags_byte(p.is_ack));
    assert(b[8] == spec_encode_u16(spec_command_type(p.command))[0]);
    assert(b[9] == spec_encode_u16(spec_command_type(p.command))[1]);
    assert(b[10] == spec_command_body(p.command)[0]);
    assert(b[11] == spec_command_body(p.command)[1]);

    lemma_u32_decode_encode(p.serial_number);
    lemma_u16_decode_encode(p.ack_id);
    lemma_u16_decode_encode(spec_command_type(p.command));

    assert(0x80u8 & 0x80u8 != 0) by (bit_vector);
    assert(0u8 & 0x80u8 == 0) by (bit_vector);
}

/// A well-formed packet is determined by its model: two well-formed
/// packets with the same model agree field by field. Together with the
/// serialize/deserialize round trip this means decoding the encoding of
/// a well-formed packet gives that packet back.
pub proof fn lemma_model_determines_wf_packet(p: CommandPacket, q: CommandPacket)
    requires
        p.wf(),
        q.wf(),
        p@ == q@,
    ensures
        p.serial_number == q.serial_number,
        p.ack_id == q.ack_id,
        p.flags@ == q.flags@,
        p.command == q.command,
{
    if p@.is_ack {
        assert(p.flags@.len() == 1 && p.flags@[0] == CommandFlags::IsAck);
        assert(q.flags@.len() == 1 && q.flags@[0] == CommandFlags::IsAck);
        assert(p.flags@ =~= q.flags@);
    } else {
        if p.flags@.len() > 0 {
            assert(p.flags@[0] == CommandFlags::IsAck);
            assert(p.flags@.contains(CommandFlags::IsAck));
        }
        if q.flags@.len() > 0 {
            assert(q.flags@[0] == CommandFlags::IsAck);
            assert(q.flags@.contains(CommandFlags::IsAck));
        }
        assert(p.flags@ =~= q.flags@);
    }
}

/// Any input shorter than the 10-byte header is rejected with a length
/// error that reports the expected length 10.
pub proof fn lemma_short_input_rejected(b: Seq<u8>)
    requires
        b.len() < 10,
    ensures
        spec_deserialize(b) == Err::<CommandPacketModel, ParseError>(
            ParseError::InvalidLength { expected: 10, got: b.len() as usize },
        ),
{
}

/// Any long-enough input whose 2-byte command-type tag is unrecognized is
/// rejected with an invalid-value error.
pub proof fn lemma_unknown_command_type_rejected(b: Seq<u8>)
    requires
        b.len() >= 10,
        spec_decode_u16(b[8], b[9]) != 0x01,
    ensures
        spec_deserialize(b) == Err::<CommandPacketModel, ParseError>(ParseError::InvalidValue),
{
}

impl PartialEq for CommandPacket {
    fn eq(&self, other: &Self) -> (r: bool) {
        let mut flags_eq = self.flags.len() == other.flags.len();
        if flags_eq {
            let mut i: usize = 0;
            while i < self.flags.len()
                invariant
                    flags_eq,
                    i <= self.flags@.len(),
                    self.flags@.len() == other.flags@.len(),
                    forall|j: int| 0 <= j < i ==> self.flags@[j] == other.flags@[j],
                decreases self.flags@.len() - i,
            {
                if self.flags[i] != other.flags[i] {
                    flags_eq = false;
                    break ;
                }
                i = i + 1;
            }
            proof {
                if flags_eq {
                    assert(self.flags@ =~= other.flags@);
                }
            }
        }
        flags_eq && self.serial_number == other.serial_number && self.ack_id == other.ack_id
            && self.command == other.command
    }
}

impl vstd::std_specs::cmp::PartialEqSpecImpl for CommandPacket {
    open spec fn obeys_eq_spec() -> bool {
        true
    }

    open spec fn eq_spec(&self, other: &Self) -> bool {
        &&& self.serial_number == other.serial_number
        &&& self.ack_id == other.ack_id
        &&& self.flags@ == other.flags@
        &&& self.command == other.command
    }
}

} // verus!
