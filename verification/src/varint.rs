use vstd::prelude::*;

use crate::error::Error;

verus! {

/// True of an encoded byte that announces a following byte.
pub open spec fn has_cont_bit(b: u8) -> bool {
    b >= 0x80
}

/// The seven value bits of one encoded byte.
pub open spec fn group_bits(b: u8) -> u32 {
    (b % 0x80) as u32
}

/// The encoding of `v`: seven bits per byte, least significant group first,
/// the continuation bit set on every byte but the last.  It is minimal: no
/// encoding produced here ends in a zero group it could drop.
pub open spec fn spec_varint(v: u32) -> Seq<u8>
    decreases v,
{
    if v < 0x80 {
        seq![v as u8]
    } else {
        seq![((v % 0x80) + 0x80) as u8] + spec_varint(v / 0x80)
    }
}

/// What reading one variable-length integer at `pos` yields: the value and
/// the position one past its last byte, or the error.  A chain is malformed
/// once it needs more than five bytes or more than 32 value bits; an input
/// that stops inside a chain is an unexpected end.
pub open spec fn spec_read_varint(s: Seq<u8>, pos: int) -> Result<(u32, int), Error> {
    if pos >= s.len() {
        Err(Error::UnexpectedEof)
    } else if !has_cont_bit(s[pos]) {
        Ok((group_bits(s[pos]), pos + 1))
    } else if pos + 1 >= s.len() {
        Err(Error::UnexpectedEof)
    } else if !has_cont_bit(s[pos + 1]) {
        Ok(((group_bits(s[pos]) + 0x80 * group_bits(s[pos + 1])) as u32, pos + 2))
    } else if pos + 2 >= s.len() {
        Err(Error::UnexpectedEof)
    } else if !has_cont_bit(s[pos + 2]) {
        Ok(
            (
                (group_bits(s[pos]) + 0x80 * group_bits(s[pos + 1]) + 0x4000 * group_bits(
                    s[pos + 2],
                )) as u32,
                pos + 3,
            ),
        )
    } else if pos + 3 >= s.len() {
        Err(Error::UnexpectedEof)
    } else if !has_cont_bit(s[pos + 3]) {
        Ok(
            (
                (group_bits(s[pos]) + 0x80 * group_bits(s[pos + 1]) + 0x4000 * group_bits(
                    s[pos + 2],
                ) + 0x20_0000 * group_bits(s[pos + 3])) as u32,
                pos + 4,
            ),
        )
    } else if pos + 4 >= s.len() {
        Err(Error::UnexpectedEof)
    } else if s[pos + 4] >= 0x10 {
        // Either a sixth byte would be needed, or the fifth byte carries
        // value bits beyond bit 31: a 32-bit overflow either way.
        Err(Error::MalformedVarInt)
    } else {
        Ok(
            (
                (group_bits(s[pos]) + 0x80 * group_bits(s[pos + 1]) + 0x4000 * group_bits(
                    s[pos + 2],
                ) + 0x20_0000 * group_bits(s[pos + 3]) + 0x1000_0000 * group_bits(
                    s[pos + 4],
                )) as u32,
                pos + 5,
            ),
        )
    }
}

/// The encoding is one to five bytes long, shorter for smaller values.
pub proof fn lemma_spec_varint_len(v: u32)
    ensures
        1 <= spec_varint(v).len() <= 5,
        v < 0x80 ==> spec_varint(v).len() == 1,
        v < 0x4000 ==> spec_varint(v).len() <= 2,
        v < 0x20_0000 ==> spec_varint(v).len() <= 3,
        v < 0x1000_0000 ==> spec_varint(v).len() <= 4,
    decreases v,
{
    if v >= 0x80 {
        lemma_spec_varint_len(v / 0x80);
    }
}

/// Reading an encoding laid down at `pos` gives back the encoded value and
/// stops exactly at its end, whatever follows.
pub proof fn lemma_read_spec_varint(s: Seq<u8>, pos: int, v: u32)
    requires
        0 <= pos,
        pos + spec_varint(v).len() <= s.len(),
        s.subrange(pos, pos + spec_varint(v).len()) == spec_varint(v),
    ensures
        spec_read_varint(s, pos) == Ok::<(u32, int), Error>((v, pos + spec_varint(v).len())),
{
    reveal_with_fuel(spec_varint, 6);
    lemma_spec_varint_len(v);
    let e = spec_varint(v);
    assert forall|i: int| 0 <= i < e.len() implies s[pos + i] == #[trigger] e[i] by {
        assert(e[i] == s.subrange(pos, pos + e.len() as int)[i]);
    }
    let v1 = v / 0x80;
    let v2 = v1 / 0x80;
    let v3 = v2 / 0x80;
    let v4 = v3 / 0x80;
    if v < 0x80 {
        assert(e =~= seq![v as u8]);
        assert(s[pos + 0] == e[0]);
    } else if v1 < 0x80 {
        assert(e =~= seq![((v % 0x80) + 0x80) as u8, v1 as u8]);
        assert(s[pos + 0] == e[0]);
        assert(s[pos + 1] == e[1]);
        assert(v % 0x80 + 0x80 * v1 == v);
    } else if v2 < 0x80 {
        assert(e =~= seq![((v % 0x80) + 0x80) as u8, ((v1 % 0x80) + 0x80) as u8, v2 as u8]);
        assert(s[pos + 0] == e[0]);
        assert(s[pos + 1] == e[1]);
        assert(s[pos + 2] == e[2]);
        assert(v1 == v1 % 0x80 + 0x80 * v2);
        assert(v == v % 0x80 + 0x80 * (v1 % 0x80) + 0x4000 * v2);
    } else if v3 < 0x80 {
        assert(e =~= seq![
            ((v % 0x80) + 0x80) as u8,
            ((v1 % 0x80) + 0x80) as u8,
            ((v2 % 0x80) + 0x80) as u8,
            v3 as u8,
        ]);
        assert(s[pos + 0] == e[0]);
        assert(s[pos + 1] == e[1]);
        assert(s[pos + 2] == e[2]);
        assert(s[pos + 3] == e[3]);
        assert(v2 == v2 % 0x80 + 0x80 * v3);
        assert(v1 == v1 % 0x80 + 0x80 * (v2 % 0x80) + 0x4000 * v3);
        assert(v == v % 0x80 + 0x80 * (v1 % 0x80) + 0x4000 * (v2 % 0x80) + 0x20_0000 * v3);
    } else {
        assert(v4 < 0x10);
        assert(e =~= seq![
            ((v % 0x80) + 0x80) as u8,
            ((v1 % 0x80) + 0x80) as u8,
            ((v2 % 0x80) + 0x80) as u8,
            ((v3 % 0x80) + 0x80) as u8,
            v4 as u8,
        ]);
        assert(s[pos + 0] == e[0]);
        assert(s[pos + 1] == e[1]);
        assert(s[pos + 2] == e[2]);
        assert(s[pos + 3] == e[3]);
        assert(s[pos + 4] == e[4]);
        assert(v3 == v3 % 0x80 + 0x80 * v4);
        assert(v2 == v2 % 0x80 + 0x80 * (v3 % 0x80) + 0x4000 * v4);
        assert(v1 == v1 % 0x80 + 0x80 * (v2 % 0x80) + 0x4000 * (v3 % 0x80) + 0x20_0000 * v4);
        assert(v == v % 0x80 + 0x80 * (v1 % 0x80) + 0x4000 * (v2 % 0x80) + 0x20_0000 * (v3 % 0x80)
            + 0x1000_0000 * v4);
    }
}

/// Round trip: decoding an encoding, with anything behind it, gives the
/// value back and consumes at most five bytes.
pub proof fn lemma_varint_roundtrip(v: u32, rest: Seq<u8>)
    ensures
        1 <= spec_varint(v).len() <= 5,
        spec_read_varint(spec_varint(v) + rest, 0) == Ok::<(u32, int), Error>(
            (v, spec_varint(v).len() as int),
        ),
{
    lemma_spec_varint_len(v);
    let s = spec_varint(v) + rest;
    assert(s.subrange(0, spec_varint(v).len() as int) =~= spec_varint(v));
    lemma_read_spec_varint(s, 0, v);
}

/// A run of five bytes that all carry the continuation bit can never be
/// completed into a 32-bit value: it is malformed, not merely short.
pub proof fn lemma_varint_overlong(s: Seq<u8>, pos: int)
    requires
        0 <= pos,
        pos + 5 <= s.len(),
        forall|i: int| pos <= i < pos + 5 ==> has_cont_bit(#[trigger] s[i]),
    ensures
        spec_read_varint(s, pos) == Err::<(u32, int), Error>(Error::MalformedVarInt),
{
}

/// Appends the variable-length encoding of `v`.
pub fn write_varint(v: u32, out: &mut Vec<u8>)
    ensures
        final(out)@ == old(out)@ + spec_varint(v),
    decreases v,
{
    if v < 0x80 {
        out.push(v as u8);
        assert(final(out)@ =~= old(out)@ + spec_varint(v));
    } else {
        out.push((v % 0x80 + 0x80) as u8);
        write_varint(v / 0x80, out);
        assert(final(out)@ =~= old(out)@ + spec_varint(v));
    }
}

/// Reads one variable-length integer at `pos`.
pub fn read_varint(data: &Vec<u8>, pos: usize) -> (r: Result<(u32, usize), Error>)
    ensures
        (match r {
            Ok((v, end)) => spec_read_varint(data@, pos as int) == Ok::<(u32, int), Error>(
                (v, end as int),
            ),
            Err(e) => spec_read_varint(data@, pos as int) == Err::<(u32, int), Error>(e),
        }),
{
    let n: usize = data.len();
    if pos >= n {
        return Err(Error::UnexpectedEof);
    }
    let b0: u8 = data[pos];
    if b0 < 0x80 {
        return Ok((b0 as u32, pos + 1));
    }
    let g0: u32 = (b0 % 0x80) as u32;
    if pos + 1 >= n {
        return Err(Error::UnexpectedEof);
    }
    let b1: u8 = data[pos + 1];
    if b1 < 0x80 {
        return Ok((g0 + 0x80 * (b1 as u32), pos + 2));
    }
    let g1: u32 = (b1 % 0x80) as u32;
    if pos + 2 >= n {
        return Err(Error::UnexpectedEof);
    }
    let b2: u8 = data[pos + 2];
    if b2 < 0x80 {
        return Ok((g0 + 0x80 * g1 + 0x4000 * (b2 as u32), pos + 3));
    }
    let g2: u32 = (b2 % 0x80) as u32;
    if pos + 3 >= n {
        return Err(Error::UnexpectedEof);
    }
    let b3: u8 = data[pos + 3];
    if b3 < 0x80 {
        return Ok((g0 + 0x80 * g1 + 0x4000 * g2 + 0x20_0000 * (b3 as u32), pos + 4));
    }
    let g3: u32 = (b3 % 0x80) as u32;
    if pos + 4 >= n {
        return Err(Error::UnexpectedEof);
    }
    let b4: u8 = data[pos + 4];
    if b4 >= 0x10 {
        return Err(Error::MalformedVarInt);
    }
    Ok((g0 + 0x80 * g1 + 0x4000 * g2 + 0x20_0000 * g3 + 0x1000_0000 * (b4 as u32), pos + 5))
}

} // verus!
