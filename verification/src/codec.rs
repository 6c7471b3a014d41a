//! Byte-level codec for 4-byte integer parameter payloads.
//!
//! The kernel's creation call consumes integer parameters as exactly four
//! bytes in the host's byte order. The supported hosts are little-endian,
//! so the encoding is fixed to least-significant byte first.

use vstd::prelude::*;

verus! {

/// The unsigned 32-bit value that carries an `i32` in two's complement.
pub open spec fn u32_of_i32(v: i32) -> u32 {
    if v >= 0 {
        v as u32
    } else {
        (v + 0x1_0000_0000) as u32
    }
}

/// The `i32` carried by an unsigned 32-bit two's-complement value.
pub open spec fn i32_of_u32(u: u32) -> i32 {
    if u <= 0x7fff_ffff {
        u as i32
    } else {
        (u - 0x1_0000_0000) as i32
    }
}

/// The four bytes of `u`, least-significant first.
pub open spec fn u32_le_bytes(u: u32) -> Seq<u8> {
    seq![
        (u & 0xff) as u8,
        ((u >> 8) & 0xff) as u8,
        ((u >> 16) & 0xff) as u8,
        ((u >> 24) & 0xff) as u8,
    ]
}

/// The 32-bit value whose bytes, least-significant first, are `b0..b3`.
pub open spec fn u32_from_le(b0: u8, b1: u8, b2: u8, b3: u8) -> u32 {
    (b0 as u32) | ((b1 as u32) << 8) | ((b2 as u32) << 16) | ((b3 as u32) << 24)
}

/// The four bytes of an `i32` parameter payload on the wire.
pub open spec fn i32_payload(v: i32) -> Seq<u8> {
    u32_le_bytes(u32_of_i32(v))
}

/// The `i32` encoded by a 4-byte wire payload.
pub open spec fn i32_from_payload(p: Seq<u8>) -> i32
    recommends
        p.len() == 4,
{
    i32_of_u32(u32_from_le(p[0], p[1], p[2], p[3]))
}

pub proof fn lemma_i32_u32_roundtrip(v: i32)
    ensures
        i32_of_u32(u32_of_i32(v)) == v,
{
}

/// Reading the four bytes of `u` back yields `u`.
pub proof fn lemma_u32_le_roundtrip(u: u32)
    ensures
        u32_from_le(
            u32_le_bytes(u)[0],
            u32_le_bytes(u)[1],
            u32_le_bytes(u)[2],
            u32_le_bytes(u)[3],
        ) == u,
{
    let b0 = u32_le_bytes(u)[0];
    let b1 = u32_le_bytes(u)[1];
    let b2 = u32_le_bytes(u)[2];
    let b3 = u32_le_bytes(u)[3];
    assert((b0 as u32) | ((b1 as u32) << 8) | ((b2 as u32) << 16) | ((b3 as u32) << 24) == u)
        by (bit_vector)
        requires
            b0 == (u & 0xff) as u8,
            b1 == ((u >> 8) & 0xff) as u8,
            b2 == ((u >> 16) & 0xff) as u8,
            b3 == ((u >> 24) & 0xff) as u8,
    ;
}

/// Round-trip: decoding an encoded `i32` payload yields the value back.
pub proof fn lemma_i32_payload_roundtrip(v: i32)
    ensures
        i32_from_payload(i32_payload(v)) == v,
{
    lemma_u32_le_roundtrip(u32_of_i32(v));
    lemma_i32_u32_roundtrip(v);
}

/// Endian contract: the payload of integer `1` is the byte `1` first,
/// followed by three zero bytes — least-significant byte first.
pub proof fn lemma_integer_one_payload()
    ensures
        i32_payload(1) == seq![1u8, 0u8, 0u8, 0u8],
{
    assert(u32_of_i32(1) == 1);
    assert(1u32 & 0xff == 1) by (bit_vector);
    assert((1u32 >> 8) & 0xff == 0) by (bit_vector);
    assert((1u32 >> 16) & 0xff == 0) by (bit_vector);
    assert((1u32 >> 24) & 0xff == 0) by (bit_vector);
    assert(i32_payload(1) =~= seq![1u8, 0u8, 0u8, 0u8]);
}

/// A one-byte value's payload is that byte followed by three zero bytes.
pub proof fn lemma_small_i32_payload(v: i32)
    requires
        0 <= v <= 255,
    ensures
        i32_payload(v) == seq![v as u8, 0u8, 0u8, 0u8],
{
    let u = u32_of_i32(v);
    assert(u == v);
    assert((u & 0xff) as u8 == u as u8 && (u >> 8) & 0xff == 0 && (u >> 16) & 0xff == 0 && (u
        >> 24) & 0xff == 0) by (bit_vector)
        requires
            u <= 255,
    ;
    assert(i32_payload(v) =~= seq![v as u8, 0u8, 0u8, 0u8]);
}

/// Encodes `v` as its 4-byte wire payload.
pub fn encode_i32(v: i32) -> (r: Vec<u8>)
    ensures
        r@ == i32_payload(v),
        r@.len() == 4,
{
    let u: u32 = if v >= 0 {
        v as u32
    } else {
        ((v as i64) + 0x1_0000_0000i64) as u32
    };
    assert(u == u32_of_i32(v));
    let b0: u8 = (u & 0xff) as u8;
    let b1: u8 = ((u >> 8) & 0xff) as u8;
    let b2: u8 = ((u >> 16) & 0xff) as u8;
    let b3: u8 = ((u >> 24) & 0xff) as u8;
    let mut r: Vec<u8> = Vec::new();
    r.push(b0);
    r.push(b1);
    r.push(b2);
    r.push(b3);
    assert(r@ =~= i32_payload(v));
    r
}

/// Decodes a 4-byte wire payload back into the `i32` it encodes.
pub fn decode_i32(b0: u8, b1: u8, b2: u8, b3: u8) -> (r: i32)
    ensures
        r == i32_from_payload(seq![b0, b1, b2, b3]),
{
    let u: u32 = (b0 as u32) | ((b1 as u32) << 8) | ((b2 as u32) << 16) | ((b3 as u32) << 24);
    assert(u == u32_from_le(b0, b1, b2, b3));
    let r: i32 = if u <= 0x7fff_ffff {
        u as i32
    } else {
        ((u as i64) - 0x1_0000_0000i64) as i32
    };
    assert(r == i32_of_u32(u));
    r
}

} // verus!
