use vstd::prelude::*;

verus! {

/// The byte at position `i` of `s`, or zero past its end.
pub open spec fn byte_or_zero(s: Seq<u8>, i: int) -> nat {
    if 0 <= i < s.len() {
        s[i] as nat
    } else {
        0
    }
}

/// The little-endian value of the first (at most) four bytes of `s`.
pub open spec fn le_value(s: Seq<u8>) -> nat {
    byte_or_zero(s, 0) + 256 * byte_or_zero(s, 1) + 65536 * byte_or_zero(s, 2) + 16777216
        * byte_or_zero(s, 3)
}

/// The four little-endian bytes of `x`.
pub open spec fn le_bytes(x: u32) -> Seq<u8> {
    seq![
        (x % 256) as u8,
        ((x / 256) % 256) as u8,
        ((x / 65536) % 256) as u8,
        (x / 16777216) as u8,
    ]
}

/// The little-endian value of the two bytes of `s` at `off`.
pub open spec fn le16_at(s: Seq<u8>, off: int) -> nat {
    byte_or_zero(s, off) + 256 * byte_or_zero(s, off + 1)
}

/// The little-endian value of the four bytes of `s` at `off`.
pub open spec fn le32_at(s: Seq<u8>, off: int) -> nat {
    le_value(s.subrange(off, off + 4))
}

/// Reading back the little-endian bytes of `x` gives `x`.
pub proof fn lemma_le_value_of_bytes(x: u32)
    ensures
        le_value(le_bytes(x)) == x,
{
    let b = le_bytes(x);
    assert(byte_or_zero(b, 0) == x % 256);
    assert(byte_or_zero(b, 1) == (x / 256) % 256);
    assert(byte_or_zero(b, 2) == (x / 65536) % 256);
    assert(byte_or_zero(b, 3) == x / 16777216);
    assert((x % 256) + 256 * ((x / 256) % 256) + 65536 * ((x / 65536) % 256) + 16777216 * (x
        / 16777216) == x) by (nonlinear_arith);
}

/// Packs up to four bytes, least significant first, into a `u32`.
pub fn pack_le(data: &[u8]) -> (r: u32)
    requires
        data@.len() <= 4,
    ensures
        r as nat == le_value(data@),
{
    let n = data.len();
    let b0: u32 = if n > 0 { data[0] as u32 } else { 0 };
    let b1: u32 = if n > 1 { data[1] as u32 } else { 0 };
    let b2: u32 = if n > 2 { data[2] as u32 } else { 0 };
    let b3: u32 = if n > 3 { data[3] as u32 } else { 0 };
    b0 + 256 * b1 + 65536 * b2 + 16777216 * b3
}

/// Reads the little-endian `u16` at `off` in `data`.
pub fn read_le16(data: &[u8], off: usize) -> (r: u16)
    requires
        off + 2 <= data@.len(),
    ensures
        r as nat == le16_at(data@, off as int),
{
    data[off] as u16 + 256 * (data[off + 1] as u16)
}

/// Reads the little-endian `u32` at `off` in `data`.
pub fn read_le32(data: &[u8], off: usize) -> (r: u32)
    requires
        off + 4 <= data@.len(),
    ensures
        r as nat == le32_at(data@, off as int),
{
    let s = Ghost(data@.subrange(off as int, off + 4));
    assert(byte_or_zero(s@, 0) == data@[off as int]);
    assert(byte_or_zero(s@, 1) == data@[off + 1]);
    assert(byte_or_zero(s@, 2) == data@[off + 2]);
    assert(byte_or_zero(s@, 3) == data@[off + 3]);
    data[off] as u32 + 256 * (data[off + 1] as u32) + 65536 * (data[off + 2] as u32) + 16777216
        * (data[off + 3] as u32)
}

/// Appends the four little-endian bytes of `x` to `out`.
pub fn push_le32(out: &mut Vec<u8>, x: u32)
    ensures
        final(out)@ == old(out)@ + le_bytes(x),
{
    out.push((x % 256) as u8);
    out.push(((x / 256) % 256) as u8);
    out.push(((x / 65536) % 256) as u8);
    out.push((x / 16777216) as u8);
    assert(final(out)@ =~= old(out)@ + le_bytes(x));
}

} // verus!
