//! Packet codec for a length-prefixed remote console protocol.

pub mod bits;
pub mod command;
pub mod packet;
pub mod receive;
pub mod wire;

pub use command::{command_frame, parse_command, Command};
pub use packet::{
    max_packet_size_bytes, min_packet_size_bytes, packet_type_to_int, str_to_packet_type, Packet,
    PacketError, PacketType,
};
pub use receive::{on_read, ReadOutcome};
