//! Fixed-width integers as bytes on the wire.

use vstd::prelude::*;

verus! {

/// The two bytes of `v`, most significant first.
pub open spec fn be16(v: u16) -> Seq<u8> {
    seq![(v / 256) as u8, (v % 256) as u8]
}

/// The two bytes of `v`, least significant first.
pub open spec fn le16(v: u16) -> Seq<u8> {
    seq![(v % 256) as u8, (v / 256) as u8]
}

/// The four bytes of `v`, most significant first.
pub open spec fn be32(v: u32) -> Seq<u8> {
    seq![
        (v / 0x100_0000) as u8,
        (v / 0x1_0000 % 256) as u8,
        (v / 0x100 % 256) as u8,
        (v % 256) as u8,
    ]
}

/// The four bytes of `v`, least significant first.
pub open spec fn le32(v: u32) -> Seq<u8> {
    seq![
        (v % 256) as u8,
        (v / 0x100 % 256) as u8,
        (v / 0x1_0000 % 256) as u8,
        (v / 0x100_0000) as u8,
    ]
}

/// The number whose big-endian bytes are `hi`, `lo`.
pub open spec fn u16_from_be(hi: u8, lo: u8) -> u16 {
    (hi * 256 + lo) as u16
}

/// The number whose big-endian bytes are `b0` to `b3`.
pub open spec fn u32_from_be(b0: u8, b1: u8, b2: u8, b3: u8) -> u32 {
    (b0 * 0x100_0000 + b1 * 0x1_0000 + b2 * 0x100 + b3) as u32
}

/// The signed number that the 32 bits of `bits` stand for in two's complement.
pub open spec fn i32_from_bits(bits: u32) -> i32 {
    if bits < 0x8000_0000 {
        bits as i32
    } else {
        (bits - 0x1_0000_0000) as i32
    }
}

/// The 32 bits that stand for `value` in two's complement.
pub open spec fn i32_bits(value: i32) -> u32 {
    if value >= 0 {
        value as u32
    } else {
        (value + 0x1_0000_0000) as u32
    }
}

/// Reading back the big-endian bytes of a 16-bit number gives the number.
pub proof fn lemma_be16_round_trip(v: u16)
    ensures
        be16(v).len() == 2,
        u16_from_be(be16(v)[0], be16(v)[1]) == v,
{
}

/// Reading back the big-endian bytes of a 32-bit number gives the number.
pub proof fn lemma_be32_round_trip(v: u32)
    ensures
        be32(v).len() == 4,
        u32_from_be(be32(v)[0], be32(v)[1], be32(v)[2], be32(v)[3]) == v,
{
}

/// Two's complement loses nothing in either direction.
pub proof fn lemma_i32_bits_round_trip(value: i32, bits: u32)
    ensures
        i32_from_bits(i32_bits(value)) == value,
        i32_bits(i32_from_bits(bits)) == bits,
{
}

/// Appends the two bytes of `v`, most significant first.
pub(crate) fn push_be16(out: &mut Vec<u8>, v: u16)
    ensures
        final(out)@ == old(out)@ + be16(v),
{
    out.push((v / 256) as u8);
    out.push((v % 256) as u8);
}

/// Appends the two bytes of `v`, least significant first.
pub(crate) fn push_le16(out: &mut Vec<u8>, v: u16)
    ensures
        final(out)@ == old(out)@ + le16(v),
{
    out.push((v % 256) as u8);
    out.push((v / 256) as u8);
}

/// Appends the four bytes of `v`, most significant first.
pub(crate) fn push_be32(out: &mut Vec<u8>, v: u32)
    ensures
        final(out)@ == old(out)@ + be32(v),
{
    out.push((v / 0x100_0000) as u8);
    out.push((v / 0x1_0000 % 256) as u8);
    out.push((v / 0x100 % 256) as u8);
    out.push((v % 256) as u8);
}

/// Appends the four bytes of `v`, least significant first.
pub(crate) fn push_le32(out: &mut Vec<u8>, v: u32)
    ensures
        final(out)@ == old(out)@ + le32(v),
{
    out.push((v % 256) as u8);
    out.push((v / 0x100 % 256) as u8);
    out.push((v / 0x1_0000 % 256) as u8);
    out.push((v / 0x100_0000) as u8);
}

/// Appends `bytes`.
pub(crate) fn push_all(out: &mut Vec<u8>, bytes: &[u8])
    ensures
        final(out)@ == old(out)@ + bytes@,
{
    let mut i: usize = 0;
    while i < bytes.len()
        invariant
            i <= bytes.len(),
            out@ == old(out)@ + bytes@.take(i as int),
        decreases bytes.len() - i,
    {
        out.push(bytes[i]);
        i += 1;
    }
}

/// Tells whether two slices hold the same bytes.
pub(crate) fn same_bytes(a: &[u8], b: &[u8]) -> (same: bool)
    ensures
        same == (a@ == b@),
{
    if a.len() != b.len() {
        return false;
    }
    let mut i: usize = 0;
    while i < a.len()
        invariant
            i <= a.len(),
            a.len() == b.len(),
            a@.take(i as int) == b@.take(i as int),
        decreases a.len() - i,
    {
        if a[i] != b[i] {
            return false;
        }
        i += 1;
    }
    assert(a@.take(a.len() as int) =~= a@);
    assert(b@.take(b.len() as int) =~= b@);
    true
}

/// `bytes` behind its own length as a big-endian 32-bit number. A sequence
/// too long for that field is cut to the longest that fits.
pub open spec fn counted(bytes: Seq<u8>) -> Seq<u8> {
    if bytes.len() > 0xffff_ffff {
        be32(0xffff_ffff) + bytes.take(0xffff_ffff)
    } else {
        be32(bytes.len() as u32) + bytes
    }
}

/// Appends `bytes` behind its length.
pub(crate) fn push_counted(out: &mut Vec<u8>, bytes: &[u8])
    ensures
        final(out)@ == old(out)@ + counted(bytes@),
{
    if bytes.len() > 0xffff_ffff {
        push_be32(out, 0xffff_ffff);
        push_all(out, vstd::slice::slice_subrange(bytes, 0, 0xffff_ffff));
    } else {
        push_be32(out, bytes.len() as u32);
        push_all(out, bytes);
    }
}

/// Reads the big-endian 16-bit number that starts at `at`.
pub(crate) fn get_be16(bytes: &[u8], at: usize) -> (v: u16)
    requires
        at + 2 <= bytes.len(),
    ensures
        v == u16_from_be(bytes[at as int], bytes[at + 1]),
{
    (bytes[at] as u16) * 256 + (bytes[at + 1] as u16)
}

/// Reads the big-endian 32-bit number that starts at `at`.
pub(crate) fn get_be32(bytes: &[u8], at: usize) -> (v: u32)
    requires
        at + 4 <= bytes.len(),
    ensures
        v == u32_from_be(bytes[at as int], bytes[at + 1], bytes[at + 2], bytes[at + 3]),
{
    (bytes[at] as u32) * 0x100_0000 + (bytes[at + 1] as u32) * 0x1_0000 + (bytes[at + 2] as u32)
        * 0x100 + (bytes[at + 3] as u32)
}

/// Reads 32 bits as a signed number in two's complement.
pub(crate) fn to_i32(bits: u32) -> (value: i32)
    ensures
        value == i32_from_bits(bits),
{
    if bits < 0x8000_0000 {
        bits as i32
    } else {
        ((bits - 0x8000_0000) as i32) - 0x7fff_ffff - 1
    }
}

/// Gives the 32 bits of a signed number in two's complement.
pub(crate) fn to_bits(value: i32) -> (bits: u32)
    ensures
        bits == i32_bits(value),
{
    if value >= 0 {
        value as u32
    } else {
        ((value + 0x7fff_ffff + 1) as u32) + 0x8000_0000
    }
}

} // verus!
