//! Packets and their frames.
//!
//! A frame is, in order and little-endian: the `size` field (4 bytes), the
//! `id` (4 bytes, signed), the type code (4 bytes, signed), the body, and two
//! zero padding bytes. `size` counts the bytes that follow it in the frame:
//! id, type, body and padding, that is the body length plus ten.

use crate::bits::{
    bits_extend_from_raw_slice, bits_into_vec, bits_new, bytes_bits, frame_bits,
    lemma_bytes_bits_concat, lemma_bytes_bits_injective,
};
use crate::wire::{
    i32_from_le_at, i32_le, i32_to_le, le_signed_value, le_value, lemma_i32_le_round_trip,
    lemma_u32_le_round_trip, u32_from_le_at, u32_le, u32_to_le,
};
use vstd::prelude::*;
use vstd::slice::{slice_subrange, slice_to_vec};
use vstd::utf8::encode_utf8;

verus! {

/// Bytes of padding at the end of every frame.
pub const PACKET_PADDING_SIZE_BYTES: usize = 2;

/// Bytes of the id and type fields.
pub const PACKET_HEADER_SIZE_BYTES: usize = 8;

/// The longest body a packet may carry.
pub const MAX_BODY_SIZE_BYTES: usize = 4096;

/// The bytes a frame holds before its body: size, id and type fields.
pub const FRAME_PREFIX_BYTES: usize = 12;

/// The smallest frame length `from_bytes` accepts as a length: header and
/// padding with an empty body.
pub fn min_packet_size_bytes() -> (r: usize)
    ensures
        r == 10,
{
    PACKET_PADDING_SIZE_BYTES + PACKET_HEADER_SIZE_BYTES
}

/// The largest frame length `from_bytes` accepts, and the capacity of one read.
pub fn max_packet_size_bytes() -> (r: usize)
    ensures
        r == 4106,
{
    min_packet_size_bytes() + MAX_BODY_SIZE_BYTES
}

/// What a packet asks of, or tells, the peer.
#[derive(Clone, Copy, Debug, PartialEq, Eq, Structural)]
pub enum PacketType {
    ServerDataAuth,
    ServerDataAuthResponse,
    ServerDataExecCommand,
    ServerDataResponseValue,
}

/// Why a packet could not be built, read, or parsed.
#[derive(Clone, Copy, Debug, PartialEq, Eq, Structural)]
pub enum PacketError {
    /// The body is longer than `MAX_BODY_SIZE_BYTES`.
    BodyTooLarge,
    /// The buffer is shorter than `min_packet_size_bytes()` or longer than
    /// `max_packet_size_bytes()`.
    InvalidLength,
    /// The buffer is within those bounds but too short to hold the three
    /// fields and the padding.
    Truncated,
    /// The name is none of the four packet type names.
    UnrecognizedPacketType,
    /// A command line lacks a field, or its id is not a 32-bit integer.
    MalformedInput,
}

/// The wire code of a packet type. Two types share code 2.
pub open spec fn type_code(pt: PacketType) -> i32 {
    match pt {
        PacketType::ServerDataAuth => 3,
        PacketType::ServerDataAuthResponse => 2,
        PacketType::ServerDataExecCommand => 2,
        PacketType::ServerDataResponseValue => 0,
    }
}

/// The packet type a console name stands for, matched exactly.
pub open spec fn type_of_name(s: Seq<char>) -> Option<PacketType> {
    if s == "SERVER_DATA_AUTH"@ {
        Some(PacketType::ServerDataAuth)
    } else if s == "SERVER_DATA_AUTH_RESPONSE"@ {
        Some(PacketType::ServerDataAuthResponse)
    } else if s == "SERVER_DATA_EXEC_COMMAND"@ {
        Some(PacketType::ServerDataExecCommand)
    } else if s == "SERVER_DATA_RESPONSE_VALUE"@ {
        Some(PacketType::ServerDataResponseValue)
    } else {
        None
    }
}

pub fn packet_type_to_int(pt: PacketType) -> (r: i32)
    ensures
        r == type_code(pt),
{
    match pt {
        PacketType::ServerDataAuth => 3,
        PacketType::ServerDataAuthResponse | PacketType::ServerDataExecCommand => 2,
        PacketType::ServerDataResponseValue => 0,
    }
}

/// Whether two strings hold the same characters.
fn str_equal(a: &str, b: &str) -> (r: bool)
    ensures
        r == (a@ == b@),
{
    let x = a.as_bytes();
    let y = b.as_bytes();
    proof {
        vstd::utf8::encode_utf8_decode_utf8(a@);
        vstd::utf8::encode_utf8_decode_utf8(b@);
    }
    if x.len() != y.len() {
        return false;
    }
    let mut i: usize = 0;
    while i < x.len()
        invariant
            x@ == encode_utf8(a@),
            y@ == encode_utf8(b@),
            x@.len() == y@.len(),
            i <= x@.len(),
            x@.subrange(0, i as int) == y@.subrange(0, i as int),
        decreases x@.len() - i,
    {
        if x[i] != y[i] {
            assert(x@[i as int] != y@[i as int]);
            return false;
        }
        assert(x@.subrange(0, i + 1) =~= x@.subrange(0, i as int).push(x@[i as int]));
        assert(y@.subrange(0, i + 1) =~= y@.subrange(0, i as int).push(y@[i as int]));
        i = i + 1;
    }
    assert(x@ =~= x@.subrange(0, i as int));
    assert(y@ =~= y@.subrange(0, i as int));
    true
}

pub fn str_to_packet_type(packet_type_as_str: &str) -> (r: Result<PacketType, PacketError>)
    ensures
        match type_of_name(packet_type_as_str@) {
            Some(t) => r == Ok::<PacketType, PacketError>(t),
            None => r == Err::<PacketType, PacketError>(PacketError::UnrecognizedPacketType),
        },
{
    if str_equal(packet_type_as_str, "SERVER_DATA_AUTH") {
        Ok(PacketType::ServerDataAuth)
    } else if str_equal(packet_type_as_str, "SERVER_DATA_AUTH_RESPONSE") {
        Ok(PacketType::ServerDataAuthResponse)
    } else if str_equal(packet_type_as_str, "SERVER_DATA_EXEC_COMMAND") {
        Ok(PacketType::ServerDataExecCommand)
    } else if str_equal(packet_type_as_str, "SERVER_DATA_RESPONSE_VALUE") {
        Ok(PacketType::ServerDataResponseValue)
    } else {
        Err(PacketError::UnrecognizedPacketType)
    }
}

/// The frame of a packet with these fields.
pub open spec fn frame(size: u32, id: i32, typ: i32, body: Seq<u8>) -> Seq<u8> {
    u32_le(size) + i32_le(id) + i32_le(typ) + body + seq![0u8, 0u8]
}

/// Why a buffer is not read as a frame, if it is not.
pub open spec fn decode_error(b: Seq<u8>) -> Option<PacketError> {
    if b.len() < 10 || b.len() > 4106 {
        Some(PacketError::InvalidLength)
    } else if b.len() < 14 {
        Some(PacketError::Truncated)
    } else {
        None
    }
}

/// The `size` field read from a frame.
pub open spec fn frame_size(b: Seq<u8>) -> int {
    le_value(b.subrange(0, 4))
}

/// The `id` field read from a frame.
pub open spec fn frame_id(b: Seq<u8>) -> int {
    le_signed_value(b.subrange(4, 8))
}

/// The type code read from a frame.
pub open spec fn frame_type(b: Seq<u8>) -> int {
    le_signed_value(b.subrange(8, 12))
}

/// The body of a frame: what lies between the type code and the padding.
pub open spec fn frame_body(b: Seq<u8>) -> Seq<u8> {
    b.subrange(12, b.len() - 2)
}

/// `r` is what reading the frame `b` gives: the error `decode_error` names,
/// or the packet of the fields read from the frame.
pub open spec fn decodes_to(b: Seq<u8>, r: Result<Packet, PacketError>) -> bool {
    match decode_error(b) {
        Some(e) => r == Err::<Packet, PacketError>(e),
        None => r matches Ok(p) && {
            &&& p.size == frame_size(b)
            &&& p.id == frame_id(b)
            &&& p.typ == frame_type(b)
            &&& p.body@ == frame_body(b)
        },
    }
}

/// One packet of the protocol.
#[derive(Debug, Clone, PartialEq, Eq)]
pub struct Packet {
    /// The count of frame bytes after this field; see the module docs.
    pub size: u32,
    pub id: i32,
    /// The wire code of the packet's type.
    pub typ: i32,
    pub body: Vec<u8>,
}

impl Packet {
    /// The frame that `to_bytes` writes for this packet.
    pub open spec fn wire(&self) -> Seq<u8> {
        frame(self.size, self.id, self.typ, self.body@)
    }

    /// A packet of the given type and id whose body is the UTF-8 bytes of
    /// `body`; fails when those are more than `MAX_BODY_SIZE_BYTES`.
    pub fn new(packet_type: PacketType, packet_id: i32, body: String) -> (r: Result<
        Packet,
        PacketError,
    >)
        ensures
            encode_utf8(body@).len() > 4096 <==> r is Err,
            r is Err ==> r == Err::<Packet, PacketError>(PacketError::BodyTooLarge),
            r matches Ok(p) ==> {
                &&& p.size == encode_utf8(body@).len() + 10
                &&& p.id == packet_id
                &&& p.typ == type_code(packet_type)
                &&& p.body@ == encode_utf8(body@)
                &&& p.wire().len() == p.size + 4
            },
    {
        let text = body.as_str();
        let bytes = text.as_bytes();
        let n = bytes.len();
        if n > MAX_BODY_SIZE_BYTES {
            return Err(PacketError::BodyTooLarge);
        }
        let size = (n + PACKET_HEADER_SIZE_BYTES + PACKET_PADDING_SIZE_BYTES) as u32;
        Ok(Packet {
            size,
            id: packet_id,
            typ: packet_type_to_int(packet_type),
            body: slice_to_vec(bytes),
        })
    }

    /// The frame of `packet`. Fails only on a packet that `new` could not
    /// have built, whose body is longer than `MAX_BODY_SIZE_BYTES`.
    pub fn to_bytes(packet: Packet) -> (r: Result<Vec<u8>, PacketError>)
        ensures
            packet.body@.len() <= 4096 ==> (r matches Ok(v) && v@ == packet.wire()),
            packet.body@.len() > 4096 ==> r == Err::<Vec<u8>, PacketError>(
                PacketError::BodyTooLarge,
            ),
    {
        if packet.body.len() > MAX_BODY_SIZE_BYTES {
            return Err(PacketError::BodyTooLarge);
        }
        let size = u32_to_le(packet.size);
        let id = i32_to_le(packet.id);
        let typ = i32_to_le(packet.typ);
        let pad: Vec<u8> = vec![0u8, 0u8];
        let mut bits = bits_new();
        bits_extend_from_raw_slice(&mut bits, size.as_slice());
        bits_extend_from_raw_slice(&mut bits, id.as_slice());
        bits_extend_from_raw_slice(&mut bits, typ.as_slice());
        bits_extend_from_raw_slice(&mut bits, packet.body.as_slice());
        bits_extend_from_raw_slice(&mut bits, pad.as_slice());
        proof {
            let f = packet.wire();
            assert(pad@ =~= seq![0u8, 0u8]);
            lemma_bytes_bits_concat(size@, id@);
            lemma_bytes_bits_concat(size@ + id@, typ@);
            lemma_bytes_bits_concat(size@ + id@ + typ@, packet.body@);
            lemma_bytes_bits_concat(size@ + id@ + typ@ + packet.body@, pad@);
            assert(frame_bits(bits) == bytes_bits(f));
            assert(bytes_bits(f).len() == 8 * f.len());
            assert((8 * f.len()) % 8 == 0) by (nonlinear_arith);
        }
        let v = bits_into_vec(bits);
        proof {
            lemma_bytes_bits_injective(v@, packet.wire());
        }
        Ok(v)
    }

    /// The packet whose frame is `bytes`. The `size` field is taken as it
    /// stands, not checked against the buffer, and the padding is not checked.
    pub fn from_bytes(bytes: Vec<u8>) -> (r: Result<Packet, PacketError>)
        ensures
            decodes_to(bytes@, r),
    {
        let min = min_packet_size_bytes();
        let max = max_packet_size_bytes();
        let len = bytes.len();
        if len < min || len > max {
            return Err(PacketError::InvalidLength);
        }
        if len < FRAME_PREFIX_BYTES + PACKET_PADDING_SIZE_BYTES {
            return Err(PacketError::Truncated);
        }
        let b = bytes.as_slice();
        let size = u32_from_le_at(b, 0);
        let id = i32_from_le_at(b, 4);
        let typ = i32_from_le_at(b, 8);
        let body = slice_to_vec(slice_subrange(b, FRAME_PREFIX_BYTES, len - PACKET_PADDING_SIZE_BYTES));
        Ok(Packet { size, id, typ, body })
    }
}

/// Decoding the frame of a packet gives back its size, id, type code and
/// body, whenever that frame is no longer than `max_packet_size_bytes()`.
/// The bound counts all frame bytes, the size field included, so it holds for
/// bodies of up to 4092 bytes.
pub proof fn lemma_from_bytes_to_bytes(p: Packet)
    requires
        p.body@.len() + 14 <= 4106,
    ensures
        decode_error(p.wire()) is None,
        frame_size(p.wire()) == p.size,
        frame_id(p.wire()) == p.id,
        frame_type(p.wire()) == p.typ,
        frame_body(p.wire()) == p.body@,
{
    let f = p.wire();
    lemma_u32_le_round_trip(p.size);
    lemma_i32_le_round_trip(p.id);
    lemma_i32_le_round_trip(p.typ);
    assert(f.subrange(0, 4) =~= u32_le(p.size));
    assert(f.subrange(4, 8) =~= i32_le(p.id));
    assert(f.subrange(8, 12) =~= i32_le(p.typ));
    assert(f.subrange(12, f.len() - 2) =~= p.body@);
}

/// An authentication response and an exec command have the same wire code, 2,
/// so otherwise equal packets of the two types have the same frame, and its
/// type field holds the bytes of 2.
pub proof fn lemma_shared_type_code(size: u32, id: i32, body: Seq<u8>)
    ensures
        frame(size, id, type_code(PacketType::ServerDataAuthResponse), body) == frame(
            size,
            id,
            type_code(PacketType::ServerDataExecCommand),
            body,
        ),
        frame(size, id, type_code(PacketType::ServerDataExecCommand), body).subrange(8, 12)
            == seq![2u8, 0u8, 0u8, 0u8],
{
    let f = frame(size, id, type_code(PacketType::ServerDataExecCommand), body);
    assert(f.subrange(8, 12) =~= seq![2u8, 0u8, 0u8, 0u8]);
}

} // verus!
