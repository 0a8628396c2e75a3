//! Big-endian byte-level primitives shared by the encoder and the decoder.
//!
//! Every integer on the wire is big-endian.  The spec functions `be16`,
//! `be32` and `be64` give the bytes of a value; `u16_of`, `u32_of` and
//! `u64_of` read a value back from the front of a byte sequence.

use vstd::prelude::*;

verus! {

pub open spec fn be16(v: u16) -> Seq<u8> {
    seq![(v >> 8) as u8, v as u8]
}

pub open spec fn be32(v: u32) -> Seq<u8> {
    seq![(v >> 24) as u8, (v >> 16) as u8, (v >> 8) as u8, v as u8]
}

pub open spec fn be64(v: u64) -> Seq<u8> {
    seq![
        (v >> 56) as u8,
        (v >> 48) as u8,
        (v >> 40) as u8,
        (v >> 32) as u8,
        (v >> 24) as u8,
        (v >> 16) as u8,
        (v >> 8) as u8,
        v as u8,
    ]
}

/// Bytes of a signed 32-bit value (two's complement, big-endian).
pub open spec fn be32i(v: i32) -> Seq<u8> {
    be32(v as u32)
}

/// Bytes of a signed 64-bit value (two's complement, big-endian).
pub open spec fn be64i(v: i64) -> Seq<u8> {
    be64(v as u64)
}

pub open spec fn u16_of(s: Seq<u8>) -> u16
    recommends
        s.len() >= 2,
{
    (((s[0] as u16) << 8) | (s[1] as u16)) as u16
}

pub open spec fn u32_of(s: Seq<u8>) -> u32
    recommends
        s.len() >= 4,
{
    (((s[0] as u32) << 24) | ((s[1] as u32) << 16) | ((s[2] as u32) << 8) | (s[3] as u32)) as u32
}

pub open spec fn u64_of(s: Seq<u8>) -> u64
    recommends
        s.len() >= 8,
{
    (((s[0] as u64) << 56) | ((s[1] as u64) << 48) | ((s[2] as u64) << 40) | ((s[3] as u64) << 32)
        | ((s[4] as u64) << 24) | ((s[5] as u64) << 16) | ((s[6] as u64) << 8) | (s[7] as u64)) as u64
}

pub open spec fn i32_of(s: Seq<u8>) -> i32
    recommends
        s.len() >= 4,
{
    u32_of(s) as i32
}

pub open spec fn i64_of(s: Seq<u8>) -> i64
    recommends
        s.len() >= 8,
{
    u64_of(s) as i64
}

pub broadcast proof fn lemma_be32_roundtrip(v: u32)
    ensures
        u32_of(#[trigger] be32(v)) == v,
{
    assert(((((v >> 24) as u8 as u32) << 24) | (((v >> 16) as u8 as u32) << 16) | (((v >> 8) as u8
        as u32) << 8) | ((v as u8) as u32)) as u32 == v) by (bit_vector);
}

pub broadcast proof fn lemma_be64_roundtrip(v: u64)
    ensures
        u64_of(#[trigger] be64(v)) == v,
{
    assert(((((v >> 56) as u8 as u64) << 56) | (((v >> 48) as u8 as u64) << 48) | (((v >> 40) as u8
        as u64) << 40) | (((v >> 32) as u8 as u64) << 32) | (((v >> 24) as u8 as u64) << 24) | (((v
        >> 16) as u8 as u64) << 16) | (((v >> 8) as u8 as u64) << 8) | ((v as u8) as u64)) as u64
        == v) by (bit_vector);
}

pub broadcast proof fn lemma_be32i_roundtrip(v: i32)
    ensures
        i32_of(#[trigger] be32i(v)) == v,
{
    lemma_be32_roundtrip(v as u32);
    assert((v as u32) as i32 == v) by (bit_vector);
}

pub broadcast proof fn lemma_be64i_roundtrip(v: i64)
    ensures
        i64_of(#[trigger] be64i(v)) == v,
{
    lemma_be64_roundtrip(v as u64);
    assert((v as u64) as i64 == v) by (bit_vector);
}

/// A nonnegative signed 32-bit value keeps its sign through the wire.
pub broadcast proof fn lemma_be32_of_nonneg(n: u32)
    requires
        n <= 0x7fffffff,
    ensures
        i32_of(#[trigger] be32(n)) == n as i32,
        i32_of(be32(n)) >= 0,
{
    lemma_be32_roundtrip(n);
    assert(n <= 0x7fffffff ==> n as i32 == n && n as i32 >= 0) by (bit_vector);
}

/// The null marker: a length prefix of -1.
pub proof fn lemma_be32_neg_one()
    ensures
        i32_of(be32(0xffffffffu32)) == -1i32,
{
    lemma_be32_roundtrip(0xffffffffu32);
    assert(0xffffffffu32 as i32 == -1i32) by (bit_vector);
}

pub fn push_u8(buf: &mut Vec<u8>, v: u8)
    ensures
        final(buf)@ == old(buf)@ + seq![v],
{
    buf.push(v);
    assert(buf@ =~= old(buf)@ + seq![v]);
}

pub fn push_u16_be(buf: &mut Vec<u8>, v: u16)
    ensures
        final(buf)@ == old(buf)@ + be16(v),
{
    buf.push((v >> 8) as u8);
    buf.push(v as u8);
    assert(buf@ =~= old(buf)@ + be16(v));
}

pub fn push_u32_be(buf: &mut Vec<u8>, v: u32)
    ensures
        final(buf)@ == old(buf)@ + be32(v),
{
    buf.push((v >> 24) as u8);
    buf.push((v >> 16) as u8);
    buf.push((v >> 8) as u8);
    buf.push(v as u8);
    assert(buf@ =~= old(buf)@ + be32(v));
}

pub fn push_u64_be(buf: &mut Vec<u8>, v: u64)
    ensures
        final(buf)@ == old(buf)@ + be64(v),
{
    buf.push((v >> 56) as u8);
    buf.push((v >> 48) as u8);
    buf.push((v >> 40) as u8);
    buf.push((v >> 32) as u8);
    buf.push((v >> 24) as u8);
    buf.push((v >> 16) as u8);
    buf.push((v >> 8) as u8);
    buf.push(v as u8);
    assert(buf@ =~= old(buf)@ + be64(v));
}

pub fn push_i32_be(buf: &mut Vec<u8>, v: i32)
    ensures
        final(buf)@ == old(buf)@ + be32i(v),
{
    push_u32_be(buf, v as u32);
}

pub fn push_i64_be(buf: &mut Vec<u8>, v: i64)
    ensures
        final(buf)@ == old(buf)@ + be64i(v),
{
    push_u64_be(buf, v as u64);
}

pub fn push_bytes(buf: &mut Vec<u8>, b: &Vec<u8>)
    ensures
        final(buf)@ == old(buf)@ + b@,
{
    buf.extend_from_slice(b.as_slice());
    assert(buf@ =~= old(buf)@ + b@);
}

pub fn read_u8_at(bytes: &Vec<u8>, pos: usize) -> (r: u8)
    requires
        pos < bytes@.len(),
    ensures
        r == bytes@[pos as int],
{
    bytes[pos]
}

pub fn read_u16_at(bytes: &Vec<u8>, pos: usize) -> (r: u16)
    requires
        pos + 2 <= bytes@.len(),
    ensures
        r == u16_of(bytes@.subrange(pos as int, pos as int + 2)),
{
    let n = bytes.len();
    let r = ((bytes[pos] as u16) << 8) | (bytes[pos + 1] as u16);
    assert(bytes@.subrange(pos as int, pos as int + 2)[0] == bytes@[pos as int]);
    assert(bytes@.subrange(pos as int, pos as int + 2)[1] == bytes@[pos as int + 1]);
    r
}

pub fn read_u32_at(bytes: &Vec<u8>, pos: usize) -> (r: u32)
    requires
        pos + 4 <= bytes@.len(),
    ensures
        r == u32_of(bytes@.subrange(pos as int, pos as int + 4)),
{
    let n = bytes.len();
    let r = ((bytes[pos] as u32) << 24) | ((bytes[pos + 1] as u32) << 16) | ((bytes[pos + 2]
        as u32) << 8) | (bytes[pos + 3] as u32);
    assert forall|i: int| 0 <= i < 4 implies #[trigger] bytes@.subrange(pos as int, pos as int
        + 4)[i] == bytes@[pos as int + i] by {}
    r
}

pub fn read_u64_at(bytes: &Vec<u8>, pos: usize) -> (r: u64)
    requires
        pos + 8 <= bytes@.len(),
    ensures
        r == u64_of(bytes@.subrange(pos as int, pos as int + 8)),
{
    let n = bytes.len();
    let r = ((bytes[pos] as u64) << 56) | ((bytes[pos + 1] as u64) << 48) | ((bytes[pos + 2]
        as u64) << 40) | ((bytes[pos + 3] as u64) << 32) | ((bytes[pos + 4] as u64) << 24) | ((
    bytes[pos + 5] as u64) << 16) | ((bytes[pos + 6] as u64) << 8) | (bytes[pos + 7] as u64);
    assert forall|i: int| 0 <= i < 8 implies #[trigger] bytes@.subrange(pos as int, pos as int
        + 8)[i] == bytes@[pos as int + i] by {}
    r
}

pub fn read_i32_at(bytes: &Vec<u8>, pos: usize) -> (r: i32)
    requires
        pos + 4 <= bytes@.len(),
    ensures
        r == i32_of(bytes@.subrange(pos as int, pos as int + 4)),
{
    read_u32_at(bytes, pos) as i32
}

pub fn read_i64_at(bytes: &Vec<u8>, pos: usize) -> (r: i64)
    requires
        pos + 8 <= bytes@.len(),
    ensures
        r == i64_of(bytes@.subrange(pos as int, pos as int + 8)),
{
    read_u64_at(bytes, pos) as i64
}

/// Copy `len` bytes starting at `pos` into a fresh buffer.
pub fn read_fixed(bytes: &Vec<u8>, pos: usize, len: usize) -> (r: Vec<u8>)
    requires
        pos + len <= bytes@.len(),
    ensures
        r@ == bytes@.subrange(pos as int, pos as int + len as int),
    decreases len,
{
    let n = bytes.len();
    let mut out: Vec<u8> = Vec::new();
    let mut i: usize = 0;
    while i < len
        invariant
            pos + len <= n == bytes@.len(),
            i <= len,
            out@ == bytes@.subrange(pos as int, pos as int + i as int),
        decreases len - i,
    {
        out.push(bytes[pos + i]);
        assert(out@ =~= bytes@.subrange(pos as int, pos as int + i as int + 1));
        i = i + 1;
    }
    out
}

} // verus!
