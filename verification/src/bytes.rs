//! Little-endian integer encoding and decimal rendering on byte sequences.

use vstd::prelude::*;

verus! {

/// The two little-endian bytes of a `u16`.
pub open spec fn le_u16(v: u16) -> Seq<u8> {
    seq![(v % 256) as u8, (v / 256) as u8]
}

/// The four little-endian bytes of a `u32`.
pub open spec fn le_u32(v: u32) -> Seq<u8> {
    seq![(v % 256) as u8, ((v / 256) % 256) as u8, ((v / 65536) % 256) as u8, (v / 16777216) as u8]
}

/// The `u16` whose little-endian bytes are `b0, b1`.
pub open spec fn from_le_u16(b0: u8, b1: u8) -> u16 {
    (b0 + 256 * b1) as u16
}

/// The `u32` whose little-endian bytes are `b0 .. b3`.
pub open spec fn from_le_u32(b0: u8, b1: u8, b2: u8, b3: u8) -> u32 {
    (b0 + 256 * b1 + 65536 * b2 + 16777216 * b3) as u32
}

/// Decimal digits of a natural number, most significant first, as ASCII bytes.
pub open spec fn dec(n: nat) -> Seq<u8>
    decreases n,
{
    if n < 10 {
        seq![(48 + n) as u8]
    } else {
        dec(n / 10).push((48 + n % 10) as u8)
    }
}

/// Decoding the little-endian bytes of a `u32` gives the value back.
pub proof fn lemma_le_u32_roundtrip(v: u32)
    ensures
        le_u32(v).len() == 4,
        from_le_u32(le_u32(v)[0], le_u32(v)[1], le_u32(v)[2], le_u32(v)[3]) == v,
{
    let b0 = v % 256;
    let b1 = (v / 256) % 256;
    let b2 = (v / 65536) % 256;
    let b3 = v / 16777216;
    assert(v / 65536 == (v / 256) / 256);
    assert(v / 16777216 == (v / 65536) / 256);
    assert(b0 + 256 * b1 + 65536 * b2 + 16777216 * b3 == v);
}

/// Decoding the little-endian bytes of a `u16` gives the value back.
pub proof fn lemma_le_u16_roundtrip(v: u16)
    ensures
        le_u16(v).len() == 2,
        from_le_u16(le_u16(v)[0], le_u16(v)[1]) == v,
{
}

/// Encoding a decoded `u32` gives the four bytes back.
pub proof fn lemma_from_le_u32_roundtrip(b0: u8, b1: u8, b2: u8, b3: u8)
    ensures
        le_u32(from_le_u32(b0, b1, b2, b3)) == seq![b0, b1, b2, b3],
{
    let v = from_le_u32(b0, b1, b2, b3);
    assert(v == b0 + 256 * b1 + 65536 * b2 + 16777216 * b3);
    assert(v % 256 == b0);
    assert(v / 256 == b1 + 256 * b2 + 65536 * b3);
    assert((v / 256) % 256 == b1);
    assert(v / 65536 == b2 + 256 * b3);
    assert((v / 65536) % 256 == b2);
    assert(v / 16777216 == b3);
    assert(le_u32(v) =~= seq![b0, b1, b2, b3]);
}

/// Appends the little-endian bytes of `v`.
pub fn put_u16(buf: &mut Vec<u8>, v: u16)
    ensures
        final(buf)@ == old(buf)@ + le_u16(v),
{
    buf.push((v % 256) as u8);
    buf.push((v / 256) as u8);
    assert(buf@ =~= old(buf)@ + le_u16(v));
}

/// Appends the little-endian bytes of `v`.
pub fn put_u32(buf: &mut Vec<u8>, v: u32)
    ensures
        final(buf)@ == old(buf)@ + le_u32(v),
{
    buf.push((v % 256) as u8);
    buf.push(((v / 256) % 256) as u8);
    buf.push(((v / 65536) % 256) as u8);
    buf.push((v / 16777216) as u8);
    assert(buf@ =~= old(buf)@ + le_u32(v));
}

/// Appends all of `bytes`.
pub fn put_bytes(buf: &mut Vec<u8>, bytes: &[u8])
    ensures
        final(buf)@ == old(buf)@ + bytes@,
{
    let ghost start = buf@;
    let mut i: usize = 0;
    while i < bytes.len()
        invariant
            i <= bytes@.len(),
            buf@ == start + bytes@.subrange(0, i as int),
        decreases bytes@.len() - i,
    {
        buf.push(bytes[i]);
        assert(bytes@.subrange(0, i + 1) =~= bytes@.subrange(0, i as int).push(bytes@[i as int]));
        i = i + 1;
    }
    assert(bytes@.subrange(0, i as int) =~= bytes@);
}

/// Reads a little-endian `u32` at `pos`.
pub fn get_u32(bytes: &[u8], pos: usize) -> (v: u32)
    requires
        pos + 4 <= bytes@.len(),
    ensures
        v == from_le_u32(bytes@[pos as int], bytes@[pos + 1], bytes@[pos + 2], bytes@[pos + 3]),
{
    let b0 = bytes[pos] as u32;
    let b1 = bytes[pos + 1] as u32;
    let b2 = bytes[pos + 2] as u32;
    let b3 = bytes[pos + 3] as u32;
    b0 + 256 * b1 + 65536 * b2 + 16777216 * b3
}

/// Reads a little-endian `u16` at `pos`.
pub fn get_u16(bytes: &[u8], pos: usize) -> (v: u16)
    requires
        pos + 2 <= bytes@.len(),
    ensures
        v == from_le_u16(bytes@[pos as int], bytes@[pos + 1]),
{
    let b0 = bytes[pos] as u16;
    let b1 = bytes[pos + 1] as u16;
    b0 + 256 * b1
}

/// Appends the decimal digits of `n`.
pub fn put_decimal(buf: &mut Vec<u8>, n: u32)
    ensures
        final(buf)@ == old(buf)@ + dec(n as nat),
    decreases n,
{
    if n < 10 {
        buf.push((48 + n) as u8);
        assert(buf@ =~= old(buf)@ + dec(n as nat));
    } else {
        put_decimal(buf, n / 10);
        buf.push((48 + n % 10) as u8);
        assert(buf@ =~= old(buf)@ + dec(n as nat));
    }
}

} // verus!
