//! Byte codec: pure conversions between unsigned 16/32-bit integers and
//! big-endian byte sequences.

use vstd::prelude::*;

verus! {

/// The two big-endian bytes of a 16-bit integer, most significant first.
pub open spec fn spec_encode_u16(v: u16) -> Seq<u8> {
    seq![((v >> 8) & 0xFF) as u8, (v & 0xFF) as u8]
}

/// The four big-endian bytes of a 32-bit integer, most significant first.
pub open spec fn spec_encode_u32(v: u32) -> Seq<u8> {
    seq![
        ((v >> 24) & 0xFF) as u8,
        ((v >> 16) & 0xFF) as u8,
        ((v >> 8) & 0xFF) as u8,
        (v & 0xFF) as u8,
    ]
}

/// The 16-bit integer whose big-endian bytes are `b0 b1`.
pub open spec fn spec_decode_u16(b0: u8, b1: u8) -> u16 {
    (b1 as u16) | (b0 as u16) << 8
}

/// The 32-bit integer whose big-endian bytes are `b0 b1 b2 b3`.
pub open spec fn spec_decode_u32(b0: u8, b1: u8, b2: u8, b3: u8) -> u32 {
    (b3 as u32) | (b2 as u32) << 8 | (b1 as u32) << 16 | (b0 as u32) << 24
}

pub fn encode_u16(v: u16) -> (r: [u8; 2])
    ensures
        r@ == spec_encode_u16(v),
{
    let r = [((v >> 8) & 0xFF) as u8, (v & 0xFF) as u8];
    proof {
        assert(r@ =~= spec_encode_u16(v));
    }
    r
}

pub fn encode_u32(v: u32) -> (r: [u8; 4])
    ensures
        r@ == spec_encode_u32(v),
{
    let r = [
        ((v >> 24) & 0xFF) as u8,
        ((v >> 16) & 0xFF) as u8,
        ((v >> 8) & 0xFF) as u8,
        (v & 0xFF) as u8,
    ];
    proof {
        assert(r@ =~= spec_encode_u32(v));
    }
    r
}

pub fn decode_u16(v: &[u8]) -> (r: u16)
    requires
        v@.len() >= 2,
    ensures
        r == spec_decode_u16(v@[0], v@[1]),
{
    (v[1] as u16) | (v[0] as u16) << 8
}

pub fn decode_u32(v: &[u8]) -> (r: u32)
    requires
        v@.len() >= 4,
    ensures
        r == spec_decode_u32(v@[0], v@[1], v@[2], v@[3]),
{
    (v[3] as u32) | (v[2] as u32) << 8 | (v[1] as u32) << 16 | (v[0] as u32) << 24
}

/// Round trip: decoding the big-endian encoding of a 16-bit integer gives
/// the integer back.
pub proof fn lemma_u16_decode_encode(x: u16)
    ensures
        spec_decode_u16(spec_encode_u16(x)[0], spec_encode_u16(x)[1]) == x,
{
    assert(spec_decode_u16(((x >> 8) & 0xFF) as u8, (x & 0xFF) as u8) == x) by (bit_vector);
}

/// Round trip: decoding the big-endian encoding of a 32-bit integer gives
/// the integer back.
pub proof fn lemma_u32_decode_encode(x: u32)
    ensures
        spec_decode_u32(
            spec_encode_u32(x)[0],
            spec_encode_u32(x)[1],
            spec_encode_u32(x)[2],
            spec_encode_u32(x)[3],
        ) == x,
{
    assert(spec_decode_u32(
        ((x >> 24) & 0xFF) as u8,
        ((x >> 16) & 0xFF) as u8,
        ((x >> 8) & 0xFF) as u8,
        (x & 0xFF) as u8,
    ) == x) by (bit_vector);
}

} // verus!
