use relay_bridge::bridge::encode_pending;
use relay_bridge::command::{Command, CommandPacket};
use relay_bridge::framing::frame_payload;
use relay_bridge::transceiver::{encode_message, Message};

fn message(serial_number: u32, relay_index: u8) -> Message {
    Message::Command(CommandPacket {
        serial_number,
        ack_id: 0,
        flags: vec![],
        command: Command::TurnOnOff {
            on: true,
            relay_index,
        },
    })
}

#[test]
fn pending_messages_are_encoded_in_queue_order() {
    // Two producers enqueue 50 messages each, interleaved; the drained
    // queue holds the arrival order. The encoded buffers keep that order,
    // so each producer's messages go out first-in first-out.
    let mut queue = Vec::new();
    for i in 0..50_u32 {
        queue.push(message(i, 1)); // producer one
        queue.push(message(1000 + i, 2)); // producer two
    }
    let expected: Vec<Vec<u8>> = queue
        .iter()
        .map(|m| frame_payload(&encode_message(m.clone())))
        .collect();

    let buffers = encode_pending(queue);

    assert_eq!(buffers.len(), 100);
    assert_eq!(buffers, expected);

    // Per-producer FIFO: the serial numbers of each producer's buffers
    // appear in increasing order of enqueueing.
    let serials: Vec<u32> = buffers
        .iter()
        .map(|b| u32::from_be_bytes([b[3], b[4], b[5], b[6]]))
        .collect();
    let one: Vec<u32> = serials.iter().copied().filter(|s| *s < 1000).collect();
    let two: Vec<u32> = serials.iter().copied().filter(|s| *s >= 1000).collect();
    assert_eq!(one, (0..50).collect::<Vec<u32>>());
    assert_eq!(two, (1000..1050).collect::<Vec<u32>>());
}

#[test]
fn empty_queue_encodes_nothing() {
    let buffers = encode_pending(Vec::new());
    assert!(buffers.is_empty());
}
