use relay_bridge::command::{Command, CommandFlags, CommandPacket};
use relay_bridge::framing::{frame_payload, FrameScanner};
use relay_bridge::protocol::{Packet, ParseError};
use relay_bridge::transceiver::{decode_message, encode_message, Message, TransceiverError};

#[test]
fn empty_payload_means_nothing_received() {
    let r = decode_message(&[]).expect("no error");
    assert!(r.is_none());
}

#[test]
fn unknown_packet_type_is_reported_with_byte() {
    let bytes = vec![0x7F, 0, 0, 0, 0, 0, 0, 0, 0, 0, 0, 0];
    let e = decode_message(&bytes).unwrap_err();
    assert_eq!(e, TransceiverError::UnknownPacketType(0x7F));
}

#[test]
fn parse_errors_propagate() {
    // A recognised packet type whose packet is too short.
    let bytes = vec![0x01, 0, 0];
    let e = decode_message(&bytes).unwrap_err();
    assert_eq!(
        e,
        TransceiverError::Parse(ParseError::InvalidLength {
            expected: 10,
            got: 3
        })
    );
}

#[test]
fn into_inner_unwraps_packet() {
    let p = CommandPacket {
        serial_number: 4,
        ack_id: 2,
        flags: vec![],
        command: Command::TurnOnOff {
            on: false,
            relay_index: 1,
        },
    };
    let m = Message::Command(p.clone());
    assert_eq!(m.into_inner(), p);
}

#[test]
fn end_to_end_scenario() {
    // Encoding a turn-on command for relay 5 with serial number 100 and
    // ack id 7 gives the twelve documented payload bytes.
    let p = CommandPacket {
        serial_number: 100,
        ack_id: 7,
        flags: vec![],
        command: Command::TurnOnOff {
            on: true,
            relay_index: 5,
        },
    };
    let payload = encode_message(Message::Command(p.clone()));
    assert_eq!(
        payload,
        vec![0x01, 0x00, 0x00, 0x00, 0x64, 0x00, 0x07, 0x00, 0x00, 0x01, 0x01, 0x05]
    );

    // Wrapping in sentinels gives the full wire frame.
    let wire = frame_payload(&payload);
    assert_eq!(
        wire,
        vec![
            0xAE, 0xEA, 0x01, 0x00, 0x00, 0x00, 0x64, 0x00, 0x07, 0x00, 0x00, 0x01, 0x01, 0x05,
            0xCA, 0xAC
        ]
    );

    // Feeding that stream back through the scanner and the decoder yields
    // the original message.
    let mut scanner = FrameScanner::new();
    let mut extracted = None;
    for &b in &wire {
        if let Some(f) = scanner.push_byte(b).expect("no framing error") {
            extracted = Some(f);
        }
    }
    let extracted = extracted.expect("a complete frame");
    let m = decode_message(&extracted)
        .expect("no error")
        .expect("a message");
    match m {
        Message::Command(de) => assert_eq!(de, p),
    }
}

#[test]
fn serialized_ack_flag_survives_dispatch() {
    let p = CommandPacket {
        serial_number: 1,
        ack_id: 99,
        flags: vec![CommandFlags::IsAck],
        command: Command::TurnOnOff {
            on: false,
            relay_index: 8,
        },
    };
    let bytes = p.clone().serialize();
    let m = decode_message(&bytes).expect("no error").expect("a message");
    match m {
        Message::Command(de) => assert_eq!(de, p),
    }
}
