//! Protocol stack for a point-to-point relay-control link: big-endian byte
//! codec, command packet codec, sentinel-delimited framing, and the pure
//! decisions of the polling bridge that moves messages between the
//! application's queues and the transport.

pub mod packet;
pub mod protocol;
pub mod command;
pub mod framing;
pub mod transceiver;
pub mod bridge;
