use vstd::prelude::*;

use crate::error::Error;

verus! {

/// A 16-bit integer on the wire: two bytes, most significant first.
pub open spec fn spec_u16_be(v: u16) -> Seq<u8> {
    seq![(v / 0x100) as u8, (v % 0x100) as u8]
}

/// What reading two big-endian bytes at `pos` yields.
pub open spec fn spec_read_u16_be(s: Seq<u8>, pos: int) -> Result<(u16, int), Error> {
    if pos + 2 <= s.len() {
        Ok((((s[pos] as u32) * 0x100 + (s[pos + 1] as u32)) as u16, pos + 2))
    } else {
        Err(Error::UnexpectedEof)
    }
}

/// A 64-bit integer on the wire: eight bytes, least significant first.
pub open spec fn spec_u64_le(v: u64) -> Seq<u8> {
    let w1 = v / 0x100;
    let w2 = w1 / 0x100;
    let w3 = w2 / 0x100;
    let w4 = w3 / 0x100;
    let w5 = w4 / 0x100;
    let w6 = w5 / 0x100;
    let w7 = w6 / 0x100;
    seq![
        (v % 0x100) as u8,
        (w1 % 0x100) as u8,
        (w2 % 0x100) as u8,
        (w3 % 0x100) as u8,
        (w4 % 0x100) as u8,
        (w5 % 0x100) as u8,
        (w6 % 0x100) as u8,
        w7 as u8,
    ]
}

/// The value of eight little-endian bytes at `pos`.
pub open spec fn spec_read_u64_le(s: Seq<u8>, pos: int) -> Result<(u64, int), Error> {
    if pos + 8 <= s.len() {
        Ok(
            (
                ((s[pos] as int) + 0x100 * (s[pos + 1] as int) + 0x1_0000 * (s[pos + 2] as int)
                    + 0x100_0000 * (s[pos + 3] as int) + 0x1_0000_0000 * (s[pos + 4] as int)
                    + 0x100_0000_0000 * (s[pos + 5] as int) + 0x1_0000_0000_0000 * (s[pos
                    + 6] as int) + 0x100_0000_0000_0000 * (s[pos + 7] as int)) as u64,
                pos + 8,
            ),
        )
    } else {
        Err(Error::UnexpectedEof)
    }
}

/// The wire image of a signed 32-bit value: its two's complement bits.
pub open spec fn u32_of_i32(v: i32) -> u32 {
    if v >= 0 {
        v as u32
    } else {
        (v + 0x1_0000_0000) as u32
    }
}

/// The signed reading of 32 wire bits.
pub open spec fn i32_of_u32(u: u32) -> i32 {
    if u < 0x8000_0000 {
        u as i32
    } else {
        (u - 0x1_0000_0000) as i32
    }
}

/// The two readings invert each other.
pub proof fn lemma_i32_wire_roundtrip(v: i32)
    ensures
        i32_of_u32(u32_of_i32(v)) == v,
{
}

/// Appends the two big-endian bytes of `v`.
pub fn write_u16_be(v: u16, out: &mut Vec<u8>)
    ensures
        final(out)@ == old(out)@ + spec_u16_be(v),
{
    out.push((v / 0x100) as u8);
    out.push((v % 0x100) as u8);
    assert(final(out)@ =~= old(out)@ + spec_u16_be(v));
}

/// Reads two big-endian bytes at `pos`.
pub fn read_u16_be(data: &Vec<u8>, pos: usize) -> (r: Result<(u16, usize), Error>)
    ensures
        (match r {
            Ok((v, end)) => spec_read_u16_be(data@, pos as int) == Ok::<(u16, int), Error>(
                (v, end as int),
            ),
            Err(e) => spec_read_u16_be(data@, pos as int) == Err::<(u16, int), Error>(e),
        }),
{
    let n: usize = data.len();
    if pos < n && n - pos >= 2 {
        let hi: u16 = data[pos] as u16;
        let lo: u16 = data[pos + 1] as u16;
        Ok((hi * 0x100 + lo, pos + 2))
    } else {
        Err(Error::UnexpectedEof)
    }
}

/// Laying down two big-endian bytes and reading them back gives the value.
pub proof fn lemma_read_u16_be_at(s: Seq<u8>, pos: int, v: u16)
    requires
        0 <= pos,
        pos + 2 <= s.len(),
        s.subrange(pos, pos + 2) == spec_u16_be(v),
    ensures
        spec_read_u16_be(s, pos) == Ok::<(u16, int), Error>((v, pos + 2)),
{
    assert(s[pos] == spec_u16_be(v)[0] && s[pos + 1] == spec_u16_be(v)[1]) by {
        assert(s.subrange(pos, pos + 2)[0] == s[pos]);
        assert(s.subrange(pos, pos + 2)[1] == s[pos + 1]);
    }
}

/// Appends the eight little-endian bytes of `v`.
pub fn write_u64_le(v: u64, out: &mut Vec<u8>)
    ensures
        final(out)@ == old(out)@ + spec_u64_le(v),
{
    let w1: u64 = v / 0x100;
    let w2: u64 = w1 / 0x100;
    let w3: u64 = w2 / 0x100;
    let w4: u64 = w3 / 0x100;
    let w5: u64 = w4 / 0x100;
    let w6: u64 = w5 / 0x100;
    let w7: u64 = w6 / 0x100;
    out.push((v % 0x100) as u8);
    out.push((w1 % 0x100) as u8);
    out.push((w2 % 0x100) as u8);
    out.push((w3 % 0x100) as u8);
    out.push((w4 % 0x100) as u8);
    out.push((w5 % 0x100) as u8);
    out.push((w6 % 0x100) as u8);
    out.push(w7 as u8);
    assert(final(out)@ =~= old(out)@ + spec_u64_le(v));
}

/// Reads eight little-endian bytes at `pos`.
pub fn read_u64_le(data: &Vec<u8>, pos: usize) -> (r: Result<(u64, usize), Error>)
    ensures
        (match r {
            Ok((v, end)) => spec_read_u64_le(data@, pos as int) == Ok::<(u64, int), Error>(
                (v, end as int),
            ),
            Err(e) => spec_read_u64_le(data@, pos as int) == Err::<(u64, int), Error>(e),
        }),
{
    let n: usize = data.len();
    if pos < n && n - pos >= 8 {
        let b0: u64 = data[pos] as u64;
        let b1: u64 = data[pos + 1] as u64;
        let b2: u64 = data[pos + 2] as u64;
        let b3: u64 = data[pos + 3] as u64;
        let b4: u64 = data[pos + 4] as u64;
        let b5: u64 = data[pos + 5] as u64;
        let b6: u64 = data[pos + 6] as u64;
        let b7: u64 = data[pos + 7] as u64;
        Ok(
            (
                b0 + 0x100 * b1 + 0x1_0000 * b2 + 0x100_0000 * b3 + 0x1_0000_0000 * b4
                    + 0x100_0000_0000 * b5 + 0x1_0000_0000_0000 * b6 + 0x100_0000_0000_0000 * b7,
                pos + 8,
            ),
        )
    } else {
        Err(Error::UnexpectedEof)
    }
}

/// Laying down eight little-endian bytes and reading them back gives the
/// value.
pub proof fn lemma_read_u64_le_at(s: Seq<u8>, pos: int, v: u64)
    requires
        0 <= pos,
        pos + 8 <= s.len(),
        s.subrange(pos, pos + 8) == spec_u64_le(v),
    ensures
        spec_read_u64_le(s, pos) == Ok::<(u64, int), Error>((v, pos + 8)),
{
    let e = spec_u64_le(v);
    assert forall|i: int| 0 <= i < 8 implies s[pos + i] == #[trigger] e[i] by {
        assert(e[i] == s.subrange(pos, pos + 8)[i]);
    }
    let w1 = v / 0x100;
    let w2 = w1 / 0x100;
    let w3 = w2 / 0x100;
    let w4 = w3 / 0x100;
    let w5 = w4 / 0x100;
    let w6 = w5 / 0x100;
    let w7 = w6 / 0x100;
    assert(s[pos + 0] == e[0]);
    assert(s[pos + 1] == e[1]);
    assert(s[pos + 2] == e[2]);
    assert(s[pos + 3] == e[3]);
    assert(s[pos + 4] == e[4]);
    assert(s[pos + 5] == e[5]);
    assert(s[pos + 6] == e[6]);
    assert(s[pos + 7] == e[7]);
    assert(w6 == w6 % 0x100 + 0x100 * w7);
    assert(w5 == w5 % 0x100 + 0x100 * (w6 % 0x100) + 0x1_0000 * w7);
    assert(w4 == w4 % 0x100 + 0x100 * (w5 % 0x100) + 0x1_0000 * (w6 % 0x100) + 0x100_0000 * w7);
    assert(w3 == w3 % 0x100 + 0x100 * (w4 % 0x100) + 0x1_0000 * (w5 % 0x100) + 0x100_0000 * (w6
        % 0x100) + 0x1_0000_0000 * w7);
    assert(w2 == w2 % 0x100 + 0x100 * (w3 % 0x100) + 0x1_0000 * (w4 % 0x100) + 0x100_0000 * (w5
        % 0x100) + 0x1_0000_0000 * (w6 % 0x100) + 0x100_0000_0000 * w7);
    assert(w1 == w1 % 0x100 + 0x100 * (w2 % 0x100) + 0x1_0000 * (w3 % 0x100) + 0x100_0000 * (w4
        % 0x100) + 0x1_0000_0000 * (w5 % 0x100) + 0x100_0000_0000 * (w6 % 0x100)
        + 0x1_0000_0000_0000 * w7);
    assert(v == v % 0x100 + 0x100 * (w1 % 0x100) + 0x1_0000 * (w2 % 0x100) + 0x100_0000 * (w3
        % 0x100) + 0x1_0000_0000 * (w4 % 0x100) + 0x100_0000_0000 * (w5 % 0x100)
        + 0x1_0000_0000_0000 * (w6 % 0x100) + 0x100_0000_0000_0000 * w7);
}

/// Converts a signed 32-bit value to its 32 wire bits.
pub fn to_wire_u32(v: i32) -> (u: u32)
    ensures
        u == u32_of_i32(v),
{
    if v >= 0 {
        v as u32
    } else {
        ((v as i64) + 0x1_0000_0000) as u32
    }
}

/// Reads 32 wire bits as a signed value.
pub fn from_wire_u32(u: u32) -> (v: i32)
    ensures
        v == i32_of_u32(u),
{
    if u < 0x8000_0000 {
        u as i32
    } else {
        ((u as i64) - 0x1_0000_0000) as i32
    }
}

} // verus!
