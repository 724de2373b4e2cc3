//! Little- and big-endian integer fields inside byte buffers.

use vstd::prelude::*;
use crate::bytes::splice;

verus! {

/// The value of a little-endian 16-bit field.
pub open spec fn le_u16(b0: u8, b1: u8) -> u16 {
    (b0 as u16) | ((b1 as u16) << 8)
}

/// The value of a little-endian 32-bit field.
pub open spec fn le_u32(b0: u8, b1: u8, b2: u8, b3: u8) -> u32 {
    (b0 as u32) | ((b1 as u32) << 8) | ((b2 as u32) << 16) | ((b3 as u32) << 24)
}

/// The value of a big-endian 16-bit field.
pub open spec fn be_u16(b0: u8, b1: u8) -> u16 {
    ((b0 as u16) << 8) | (b1 as u16)
}

/// The value of a big-endian 32-bit field.
pub open spec fn be_u32(b0: u8, b1: u8, b2: u8, b3: u8) -> u32 {
    ((b0 as u32) << 24) | ((b1 as u32) << 16) | ((b2 as u32) << 8) | (b3 as u32)
}

/// The big-endian bytes of a 64-bit value.
pub open spec fn u64_be_bytes(x: u64) -> Seq<u8> {
    seq![
        (x >> 56) as u8,
        ((x >> 48) & 0xff) as u8,
        ((x >> 40) & 0xff) as u8,
        ((x >> 32) & 0xff) as u8,
        ((x >> 24) & 0xff) as u8,
        ((x >> 16) & 0xff) as u8,
        ((x >> 8) & 0xff) as u8,
        (x & 0xff) as u8,
    ]
}

/// The little-endian bytes of a 16-bit value.
pub open spec fn u16_le_bytes(x: u16) -> Seq<u8> {
    seq![(x & 0xff) as u8, (x >> 8) as u8]
}

/// The little-endian bytes of a 32-bit value.
pub open spec fn u32_le_bytes(x: u32) -> Seq<u8> {
    seq![(x & 0xff) as u8, ((x >> 8) & 0xff) as u8, ((x >> 16) & 0xff) as u8, (x >> 24) as u8]
}

/// The big-endian bytes of a 32-bit value.
pub open spec fn u32_be_bytes(x: u32) -> Seq<u8> {
    seq![(x >> 24) as u8, ((x >> 16) & 0xff) as u8, ((x >> 8) & 0xff) as u8, (x & 0xff) as u8]
}

/// Reading back the little-endian bytes of a 16-bit value gives the value.
pub proof fn lemma_le_u16_round_trip(x: u16)
    ensures
        le_u16(u16_le_bytes(x)[0], u16_le_bytes(x)[1]) == x,
{
    let b0 = (x & 0xff) as u8;
    let b1 = (x >> 8) as u8;
    assert(((b0 as u16) | ((b1 as u16) << 8)) == x) by (bit_vector)
        requires
            b0 == (x & 0xff) as u8,
            b1 == (x >> 8) as u8,
    ;
}

/// Reading back the little-endian bytes of a 32-bit value gives the value.
pub proof fn lemma_le_u32_round_trip(x: u32)
    ensures
        le_u32(u32_le_bytes(x)[0], u32_le_bytes(x)[1], u32_le_bytes(x)[2], u32_le_bytes(x)[3])
            == x,
{
    let b0 = (x & 0xff) as u8;
    let b1 = ((x >> 8) & 0xff) as u8;
    let b2 = ((x >> 16) & 0xff) as u8;
    let b3 = (x >> 24) as u8;
    assert(((b0 as u32) | ((b1 as u32) << 8) | ((b2 as u32) << 16) | ((b3 as u32) << 24)) == x)
        by (bit_vector)
        requires
            b0 == (x & 0xff) as u8,
            b1 == ((x >> 8) & 0xff) as u8,
            b2 == ((x >> 16) & 0xff) as u8,
            b3 == (x >> 24) as u8,
    ;
}

/// The little-endian bytes of a 16-bit value.
pub fn u16_to_le(x: u16) -> (b: (u8, u8))
    ensures
        seq![b.0, b.1] == u16_le_bytes(x),
{
    ((x & 0xff) as u8, (x >> 8) as u8)
}

/// The little-endian bytes of a 32-bit value.
pub fn u32_to_le(x: u32) -> (b: (u8, u8, u8, u8))
    ensures
        seq![b.0, b.1, b.2, b.3] == u32_le_bytes(x),
{
    ((x & 0xff) as u8, ((x >> 8) & 0xff) as u8, ((x >> 16) & 0xff) as u8, (x >> 24) as u8)
}

/// The big-endian bytes of a 32-bit value.
pub fn u32_to_be(x: u32) -> (b: (u8, u8, u8, u8))
    ensures
        seq![b.0, b.1, b.2, b.3] == u32_be_bytes(x),
{
    ((x >> 24) as u8, ((x >> 16) & 0xff) as u8, ((x >> 8) & 0xff) as u8, (x & 0xff) as u8)
}

/// The value of a little-endian 16-bit field.
pub fn u16_from_le(b0: u8, b1: u8) -> (x: u16)
    ensures
        x == le_u16(b0, b1),
{
    (b0 as u16) | ((b1 as u16) << 8)
}

/// The value of a little-endian 32-bit field.
pub fn u32_from_le(b0: u8, b1: u8, b2: u8, b3: u8) -> (x: u32)
    ensures
        x == le_u32(b0, b1, b2, b3),
{
    (b0 as u32) | ((b1 as u32) << 8) | ((b2 as u32) << 16) | ((b3 as u32) << 24)
}

/// The value of a big-endian 16-bit field.
pub fn u16_from_be(b0: u8, b1: u8) -> (x: u16)
    ensures
        x == be_u16(b0, b1),
{
    ((b0 as u16) << 8) | (b1 as u16)
}

/// The value of a big-endian 32-bit field.
pub fn u32_from_be(b0: u8, b1: u8, b2: u8, b3: u8) -> (x: u32)
    ensures
        x == be_u32(b0, b1, b2, b3),
{
    ((b0 as u32) << 24) | ((b1 as u32) << 16) | ((b2 as u32) << 8) | (b3 as u32)
}

/// Writes `v` big-endian into `buf` at offset `at`.
pub fn put_u32_be(buf: &mut [u8], at: usize, v: u32)
    requires
        at + 4 <= old(buf)@.len(),
    ensures
        final(buf)@ == splice(old(buf)@, at as int, u32_be_bytes(v)),
{
    let (b0, b1, b2, b3) = u32_to_be(v);
    buf[at] = b0;
    buf[at + 1] = b1;
    buf[at + 2] = b2;
    buf[at + 3] = b3;
    assert(buf@ =~= splice(old(buf)@, at as int, u32_be_bytes(v)));
}

/// Writes `v` big-endian into `buf` at offset `at`.
pub fn put_u64_be(buf: &mut [u8], at: usize, v: u64)
    requires
        at + 8 <= old(buf)@.len(),
    ensures
        final(buf)@ == splice(old(buf)@, at as int, u64_be_bytes(v)),
{
    buf[at] = (v >> 56) as u8;
    buf[at + 1] = ((v >> 48) & 0xff) as u8;
    buf[at + 2] = ((v >> 40) & 0xff) as u8;
    buf[at + 3] = ((v >> 32) & 0xff) as u8;
    buf[at + 4] = ((v >> 24) & 0xff) as u8;
    buf[at + 5] = ((v >> 16) & 0xff) as u8;
    buf[at + 6] = ((v >> 8) & 0xff) as u8;
    buf[at + 7] = (v & 0xff) as u8;
    assert(buf@ =~= splice(old(buf)@, at as int, u64_be_bytes(v)));
}

/// Writes `v` little-endian into `buf` at offset `at`.
pub fn put_u16_le(buf: &mut [u8], at: usize, v: u16)
    requires
        at + 2 <= old(buf)@.len(),
    ensures
        final(buf)@ == splice(old(buf)@, at as int, u16_le_bytes(v)),
{
    let (b0, b1) = u16_to_le(v);
    buf[at] = b0;
    buf[at + 1] = b1;
    assert(buf@ =~= splice(old(buf)@, at as int, u16_le_bytes(v)));
}

/// Writes `v` little-endian into `buf` at offset `at`.
pub fn put_u32_le(buf: &mut [u8], at: usize, v: u32)
    requires
        at + 4 <= old(buf)@.len(),
    ensures
        final(buf)@ == splice(old(buf)@, at as int, u32_le_bytes(v)),
{
    let (b0, b1, b2, b3) = u32_to_le(v);
    buf[at] = b0;
    buf[at + 1] = b1;
    buf[at + 2] = b2;
    buf[at + 3] = b3;
    assert(buf@ =~= splice(old(buf)@, at as int, u32_le_bytes(v)));
}

} // verus!
