use vstd::prelude::*;
use vstd::utf8::{decode_utf8, encode_utf8, valid_utf8};

use crate::text::{bytes_to_string, string_bytes};

verus! {

// ---------------------------------------------------------------------------
// Escaped strings
// ---------------------------------------------------------------------------
/// One byte of string content, escaped.  The quote and the backslash take a
/// backslash; control bytes become a six-byte universal escape; everything
/// else, continuation bytes of multi-byte characters included, passes
/// through.
pub open spec fn spec_escape_byte(b: u8) -> Seq<u8> {
    if b == 0x22 {
        seq![0x5c, 0x22]
    } else if b == 0x5c {
        seq![0x5c, 0x5c]
    } else if b < 0x20 {
        seq![0x5c, 0x75, 0x30, 0x30, spec_hex_digit((b / 16) as u8), spec_hex_digit((b % 16) as u8)]
    } else {
        seq![b]
    }
}

/// The digit bytes `0` to `9` and `a` to `f`.
pub open spec fn spec_hex_digit(n: u8) -> u8 {
    if n < 10 {
        (0x30 + n) as u8
    } else {
        (0x57 + n) as u8
    }
}

/// String content, escaped byte by byte.
pub open spec fn spec_escape(s: Seq<u8>) -> Seq<u8>
    decreases s.len(),
{
    if s.len() == 0 {
        Seq::empty()
    } else {
        spec_escape_byte(s[0]) + spec_escape(s.subrange(1, s.len() as int))
    }
}

/// A whole string value: quote, escaped UTF-8 content, quote.
pub open spec fn spec_json_str(t: Seq<char>) -> Seq<u8> {
    seq![0x22u8] + spec_escape(encode_utf8(t)) + seq![0x22u8]
}

/// Escaping distributes over concatenation.
pub proof fn lemma_escape_app(a: Seq<u8>, b: Seq<u8>)
    ensures
        spec_escape(a + b) == spec_escape(a) + spec_escape(b),
    decreases a.len(),
{
    if a.len() == 0 {
        assert(a + b =~= b);
        assert(spec_escape(a) + spec_escape(b) =~= spec_escape(b));
    } else {
        let t = a.subrange(1, a.len() as int);
        lemma_escape_app(t, b);
        assert((a + b).subrange(1, (a + b).len() as int) =~= t + b);
        assert((a + b)[0] == a[0]);
        assert(spec_escape_byte(a[0]) + (spec_escape(t) + spec_escape(b)) =~= (spec_escape_byte(
            a[0],
        ) + spec_escape(t)) + spec_escape(b));
    }
}

/// Escaping one byte.
pub proof fn lemma_escape_one(b: u8)
    ensures
        spec_escape(seq![b]) == spec_escape_byte(b),
{
    assert(seq![b].len() == 1);
    assert(seq![b][0] == b);
    assert(seq![b].subrange(1, 1) =~= Seq::<u8>::empty());
    assert(spec_escape(Seq::<u8>::empty()) =~= Seq::<u8>::empty());
    assert(spec_escape(seq![b]) =~= spec_escape_byte(b));
}

/// The hex digit of a nibble, executable.
fn hex_digit(n: u8) -> (r: u8)
    requires
        n < 16,
    ensures
        r == spec_hex_digit(n),
{
    if n < 10 {
        0x30 + n
    } else {
        0x57 + n
    }
}

/// Appends the escaped content bytes of `s`.
pub fn write_escaped(s: &Vec<u8>, out: &mut Vec<u8>)
    ensures
        final(out)@ == old(out)@ + spec_escape(s@),
{
    let n: usize = s.len();
    let mut i: usize = 0;
    while i < n
        invariant
            i <= n == s@.len(),
            out@ == old(out)@ + spec_escape(s@.subrange(0, i as int)),
        decreases n - i,
    {
        let b: u8 = s[i];
        if b == 0x22 {
            out.push(0x5c);
            out.push(0x22);
        } else if b == 0x5c {
            out.push(0x5c);
            out.push(0x5c);
        } else if b < 0x20 {
            out.push(0x5c);
            out.push(0x75);
            out.push(0x30);
            out.push(0x30);
            out.push(hex_digit(b / 16));
            out.push(hex_digit(b % 16));
        } else {
            out.push(b);
        }
        proof {
            let pre = s@.subrange(0, i as int);
            lemma_escape_app(pre, seq![s@[i as int]]);
            lemma_escape_one(s@[i as int]);
            assert(pre + seq![s@[i as int]] =~= s@.subrange(0, i as int + 1));
            assert(out@ =~= old(out)@ + spec_escape(s@.subrange(0, i as int + 1)));
        }
        i = i + 1;
    }
    proof {
        assert(s@.subrange(0, n as int) =~= s@);
    }
}

/// Appends one whole string value: quote, escaped content, quote.
pub fn write_json_string(s: &str, out: &mut Vec<u8>)
    ensures
        final(out)@ == old(out)@ + spec_json_str(s@),
{
    out.push(0x22);
    let bytes: Vec<u8> = string_bytes(s);
    write_escaped(&bytes, out);
    out.push(0x22);
    assert(final(out)@ =~= old(out)@ + spec_json_str(s@));
}

// ---------------------------------------------------------------------------
// Decimal integers
// ---------------------------------------------------------------------------
/// True of the bytes `0` to `9`.
pub open spec fn is_digit(b: u8) -> bool {
    0x30 <= b <= 0x39
}

/// The decimal digits of `n`, most significant first.
pub open spec fn spec_dec(n: nat) -> Seq<u8>
    decreases n,
{
    if n < 10 {
        seq![(0x30 + n) as u8]
    } else {
        spec_dec(n / 10) + seq![(0x30 + n % 10) as u8]
    }
}

/// The value of a run of digit bytes, most significant first.
pub open spec fn digits_val(s: Seq<u8>) -> int
    decreases s.len(),
{
    if s.len() == 0 {
        0
    } else {
        digits_val(s.subrange(0, s.len() - 1)) * 10 + (s[s.len() - 1] - 0x30)
    }
}

/// True when every byte of `s` is a digit.
pub open spec fn all_digits(s: Seq<u8>) -> bool {
    forall|i: int| 0 <= i < s.len() ==> is_digit(#[trigger] s[i])
}

/// Where the run of digits that starts at `pos` ends.
pub open spec fn digit_run_end(s: Seq<u8>, pos: int) -> int
    decreases s.len() - pos,
{
    if pos < s.len() && is_digit(s[pos]) {
        digit_run_end(s, pos + 1)
    } else {
        pos
    }
}

/// What reading a decimal number at `pos` yields, unbounded: the value of
/// the whole digit run, or nothing where no digit stands.
pub open spec fn spec_parse_dec(s: Seq<u8>, pos: int) -> Option<(int, int)> {
    let end = digit_run_end(s, pos);
    if pos < s.len() && is_digit(s[pos]) {
        Some((digits_val(s.subrange(pos, end)), end))
    } else {
        None
    }
}

/// The digits of `n` are digits, there is at least one, and they carry the
/// value `n`.
pub proof fn lemma_dec_val(n: nat)
    ensures
        spec_dec(n).len() >= 1,
        all_digits(spec_dec(n)),
        digits_val(spec_dec(n)) == n,
    decreases n,
{
    if n < 10 {
        let d = spec_dec(n);
        assert(d =~= seq![(0x30 + n) as u8]);
        assert(d.subrange(0, 0) =~= Seq::<u8>::empty());
        assert(digits_val(d.subrange(0, 0)) == 0);
        assert(d[0] == (0x30 + n) as u8);
        assert(digits_val(d) == digits_val(d.subrange(0, 0)) * 10 + (d[0] - 0x30));
    } else {
        lemma_dec_val(n / 10);
        let d = spec_dec(n);
        assert(d.subrange(0, d.len() - 1) =~= spec_dec(n / 10));
        assert(d[d.len() - 1] == (0x30 + n % 10) as u8);
        assert(digits_val(d) == (n / 10) * 10 + n % 10);
    }
}

/// The run of digits ends exactly where the digits end.
pub proof fn lemma_run_end_at(s: Seq<u8>, pos: int, end: int)
    requires
        0 <= pos <= end <= s.len(),
        forall|k: int| pos <= k < end ==> is_digit(#[trigger] s[k]),
        end == s.len() || !is_digit(s[end]),
    ensures
        digit_run_end(s, pos) == end,
    decreases end - pos,
{
    if pos < end {
        lemma_run_end_at(s, pos + 1, end);
    }
}

/// A digit run's value is not negative.
pub proof fn lemma_digits_val_nonneg(s: Seq<u8>)
    requires
        all_digits(s),
    ensures
        digits_val(s) >= 0,
    decreases s.len(),
{
    if s.len() > 0 {
        let t = s.subrange(0, s.len() - 1);
        assert(all_digits(t));
        lemma_digits_val_nonneg(t);
    }
}

/// Extending a digit run multiplies its value up: a prefix never carries
/// more than the whole run.
pub proof fn lemma_digits_val_prefix(s: Seq<u8>, i: int, j: int)
    requires
        all_digits(s),
        0 <= i <= j <= s.len(),
    ensures
        digits_val(s.subrange(0, i)) <= digits_val(s.subrange(0, j)),
    decreases j - i,
{
    if i < j {
        lemma_digits_val_prefix(s, i + 1, j);
        let a = s.subrange(0, i);
        let b = s.subrange(0, i + 1);
        assert(b.subrange(0, b.len() - 1) =~= a);
        assert(all_digits(a));
        lemma_digits_val_nonneg(a);
        assert(digits_val(b) == digits_val(a) * 10 + (s[i] - 0x30));
    }
}

/// Reads a decimal number at `pos` into a 64-bit integer; nothing where no
/// digit stands or where the run's value does not fit.
pub fn parse_u64(data: &Vec<u8>, pos: usize) -> (r: Option<(u64, usize)>)
    requires
        pos <= data@.len(),
    ensures
        (match r {
            Some((v, end)) => spec_parse_dec(data@, pos as int) == Some((v as int, end as int)),
            None => (match spec_parse_dec(data@, pos as int) {
                Some((v, _end)) => v > u64::MAX,
                None => true,
            }),
        }),
{
    let n: usize = data.len();
    if pos >= n || data[pos] < 0x30 || data[pos] > 0x39 {
        return None;
    }
    proof {
        assert(data@.subrange(pos as int, pos as int) =~= Seq::<u8>::empty());
    }
    let mut acc: u64 = 0;
    let mut i: usize = pos;
    while i < n && data[i] >= 0x30 && data[i] <= 0x39
        invariant
            pos <= i <= n == data@.len(),
            forall|k: int| pos <= k < i ==> is_digit(#[trigger] data@[k]),
            acc as int == digits_val(data@.subrange(pos as int, i as int)),
        decreases n - i,
    {
        let d: u64 = (data[i] - 0x30) as u64;
        if acc > (u64::MAX - d) / 10 {
            // The run's value has outgrown 64 bits: the digits still to
            // come can only raise it further.
            proof {
                let end = digit_run_end(data@, pos as int);
                let whole = data@.subrange(pos as int, end);
                assert(is_digit(data@[i as int]));
                lemma_run_end_in_range(data@, pos as int, i as int + 1);
                assert(i as int + 1 <= end <= data@.len());
                assert(data@.subrange(pos as int, i as int + 1).subrange(0, i as int - pos)
                    =~= data@.subrange(pos as int, i as int));
                assert(digits_val(data@.subrange(pos as int, i as int + 1)) == acc as int * 10 + (
                d as int));
                assert(acc as int * 10 + d as int > u64::MAX);
                lemma_digit_run_is_digits(data@, pos as int);
                assert(whole.len() == end - pos as int);
                lemma_digits_val_prefix(whole, i as int + 1 - pos, end - pos as int);
                assert(whole.subrange(0, i as int + 1 - pos) =~= data@.subrange(
                    pos as int,
                    i as int + 1,
                ));
                assert(whole.subrange(0, end - pos as int) =~= whole);
            }
            return None;
        }
        acc = acc * 10 + d;
        i = i + 1;
        proof {
            assert(data@.subrange(pos as int, i as int).subrange(0, i as int - 1 - pos as int)
                =~= data@.subrange(pos as int, i as int - 1));
        }
    }
    proof {
        lemma_run_end_at(data@, pos as int, i as int);
    }
    Some((acc, i))
}

/// Every byte before the run's end is a digit, and the end lies within the
/// input.
pub proof fn lemma_run_end_in_range(s: Seq<u8>, pos: int, from: int)
    requires
        0 <= pos <= from <= s.len(),
        forall|k: int| pos <= k < from ==> is_digit(#[trigger] s[k]),
    ensures
        digit_run_end(s, pos) == digit_run_end(s, from),
        from <= digit_run_end(s, from) <= s.len(),
    decreases (s.len() - pos), (from - pos),
{
    if pos < from {
        lemma_run_end_in_range(s, pos + 1, from);
    } else {
        lemma_run_end_bounds(s, pos);
    }
}

/// The run's end lies between `pos` and the end of the input.
pub proof fn lemma_run_end_bounds(s: Seq<u8>, pos: int)
    requires
        0 <= pos <= s.len(),
    ensures
        pos <= digit_run_end(s, pos) <= s.len(),
        forall|k: int| pos <= k < digit_run_end(s, pos) ==> is_digit(#[trigger] s[k]),
    decreases s.len() - pos,
{
    if pos < s.len() && is_digit(s[pos]) {
        lemma_run_end_bounds(s, pos + 1);
    }
}

/// The whole digit run, taken from `pos`, is made of digits.
pub proof fn lemma_digit_run_is_digits(s: Seq<u8>, pos: int)
    requires
        0 <= pos <= s.len(),
    ensures
        all_digits(s.subrange(pos, digit_run_end(s, pos))),
{
    lemma_run_end_bounds(s, pos);
}

/// Reading the digits of `n`, laid down at `pos` with no digit straight
/// after them, gives `n` back.
pub proof fn lemma_parse_dec_at(s: Seq<u8>, pos: int, n: nat)
    requires
        0 <= pos,
        pos + spec_dec(n).len() <= s.len(),
        s.subrange(pos, pos + spec_dec(n).len()) == spec_dec(n),
        pos + spec_dec(n).len() == s.len() || !is_digit(s[pos + spec_dec(n).len()]),
    ensures
        spec_parse_dec(s, pos) == Some((n as int, pos + spec_dec(n).len())),
{
    lemma_dec_val(n);
    let len = spec_dec(n).len() as int;
    assert forall|k: int| pos <= k < pos + len implies is_digit(#[trigger] s[k]) by {
        assert(s[k] == s.subrange(pos, pos + len)[k - pos]);
    }
    lemma_run_end_at(s, pos, pos + len);
    assert(is_digit(s[pos])) by {
        assert(s[pos] == s.subrange(pos, pos + len)[0]);
    }
}

// ---------------------------------------------------------------------------
// Reading strings back
// ---------------------------------------------------------------------------
/// True of a hex digit byte, either case.
pub open spec fn is_hex(b: u8) -> bool {
    is_digit(b) || (0x61 <= b <= 0x66) || (0x41 <= b <= 0x46)
}

/// The value of a hex digit byte.
pub open spec fn hex_val(b: u8) -> u8 {
    if is_digit(b) {
        (b - 0x30) as u8
    } else if 0x61 <= b <= 0x66 {
        (b - 0x57) as u8
    } else {
        (b - 0x37) as u8
    }
}

/// Prepends one unescaped byte to a parse result.
pub open spec fn jstr_cons(b: u8, r: Option<(Seq<u8>, int)>) -> Option<(Seq<u8>, int)> {
    match r {
        Some((t, e)) => Some((seq![b] + t, e)),
        None => None,
    }
}

/// What reading string content at `pos`, just past the opening quote,
/// yields: the unescaped bytes and the position past the closing quote.
/// The escapes accepted are the two-byte ones and the universal escape of a
/// control character; nothing else may follow a backslash, and the input
/// must not end before the closing quote.
pub open spec fn spec_parse_jstr_body(s: Seq<u8>, pos: int) -> Option<(Seq<u8>, int)>
    decreases s.len() - pos,
{
    if pos < 0 || pos >= s.len() {
        None
    } else if s[pos] == 0x22 {
        Some((Seq::empty(), pos + 1))
    } else if s[pos] == 0x5c {
        if pos + 1 >= s.len() {
            None
        } else {
            let c = s[pos + 1];
            if c == 0x22 || c == 0x5c || c == 0x2f {
                jstr_cons(c, spec_parse_jstr_body(s, pos + 2))
            } else if c == 0x6e {
                jstr_cons(0x0a, spec_parse_jstr_body(s, pos + 2))
            } else if c == 0x74 {
                jstr_cons(0x09, spec_parse_jstr_body(s, pos + 2))
            } else if c == 0x72 {
                jstr_cons(0x0d, spec_parse_jstr_body(s, pos + 2))
            } else if c == 0x62 {
                jstr_cons(0x08, spec_parse_jstr_body(s, pos + 2))
            } else if c == 0x66 {
                jstr_cons(0x0c, spec_parse_jstr_body(s, pos + 2))
            } else if c == 0x75 {
                if pos + 6 <= s.len() && s[pos + 2] == 0x30 && s[pos + 3] == 0x30 && is_hex(
                    s[pos + 4],
                ) && is_hex(s[pos + 5]) && hex_val(s[pos + 4]) * 16 + hex_val(s[pos + 5]) < 0x20 {
                    jstr_cons(
                        (hex_val(s[pos + 4]) * 16 + hex_val(s[pos + 5])) as u8,
                        spec_parse_jstr_body(s, pos + 6),
                    )
                } else {
                    None
                }
            } else {
                None
            }
        }
    } else {
        jstr_cons(s[pos], spec_parse_jstr_body(s, pos + 1))
    }
}

/// A whole string value read at `pos`: the content bytes and the position
/// past the closing quote.
pub open spec fn spec_parse_jstr(s: Seq<u8>, pos: int) -> Option<(Seq<u8>, int)> {
    if 0 <= pos < s.len() && s[pos] == 0x22 {
        spec_parse_jstr_body(s, pos + 1)
    } else {
        None
    }
}

/// Content already read, prepended to what remains.
pub open spec fn jstr_concat(a: Seq<u8>, r: Option<(Seq<u8>, int)>) -> Option<(Seq<u8>, int)> {
    match r {
        Some((t, e)) => Some((a + t, e)),
        None => None,
    }
}

/// Prepending a run, then one byte, is prepending the longer run.
proof fn lemma_jstr_concat_cons(a: Seq<u8>, b: u8, r: Option<(Seq<u8>, int)>)
    ensures
        jstr_concat(a, jstr_cons(b, r)) == jstr_concat(a + seq![b], r),
{
    match r {
        Some((t, e)) => {
            assert(a + (seq![b] + t) =~= (a + seq![b]) + t);
        },
        None => {},
    }
}

/// Reads one string value at `pos`.
pub fn parse_jstr(data: &Vec<u8>, pos: usize) -> (r: Option<(Vec<u8>, usize)>)
    ensures
        (match r {
            Some((content, end)) => spec_parse_jstr(data@, pos as int) == Some(
                (content@, end as int),
            ),
            None => spec_parse_jstr(data@, pos as int) is None,
        }),
{
    let n: usize = data.len();
    if pos >= n || data[pos] != 0x22 {
        return None;
    }
    let mut acc: Vec<u8> = Vec::new();
    let mut i: usize = pos + 1;
    loop
        invariant
            pos + 1 <= i <= n == data@.len(),
            pos < n,
            data@[pos as int] == 0x22,
            spec_parse_jstr(data@, pos as int) == jstr_concat(
                acc@,
                spec_parse_jstr_body(data@, i as int),
            ),
        decreases n - i,
    {
        if i >= n {
            return None;
        }
        let b: u8 = data[i];
        if b == 0x22 {
            proof {
                assert(acc@ + Seq::<u8>::empty() =~= acc@);
            }
            return Some((acc, i + 1));
        }
        if b == 0x5c {
            if i + 1 >= n {
                return None;
            }
            let c: u8 = data[i + 1];
            let m: u8 = if c == 0x22 || c == 0x5c || c == 0x2f {
                c
            } else if c == 0x6e {
                0x0a
            } else if c == 0x74 {
                0x09
            } else if c == 0x72 {
                0x0d
            } else if c == 0x62 {
                0x08
            } else if c == 0x66 {
                0x0c
            } else if c == 0x75 {
                if n - i < 6 {
                    return None;
                }
                if data[i + 2] != 0x30 || data[i + 3] != 0x30 {
                    return None;
                }
                let h1: u8 = data[i + 4];
                let h2: u8 = data[i + 5];
                let v1: u8 = if h1 >= 0x30 && h1 <= 0x39 {
                    h1 - 0x30
                } else if h1 >= 0x61 && h1 <= 0x66 {
                    h1 - 0x57
                } else if h1 >= 0x41 && h1 <= 0x46 {
                    h1 - 0x37
                } else {
                    return None;
                };
                let v2: u8 = if h2 >= 0x30 && h2 <= 0x39 {
                    h2 - 0x30
                } else if h2 >= 0x61 && h2 <= 0x66 {
                    h2 - 0x57
                } else if h2 >= 0x41 && h2 <= 0x46 {
                    h2 - 0x37
                } else {
                    return None;
                };
                let v: u8 = v1 * 16 + v2;
                if v >= 0x20 {
                    return None;
                }
                proof {
                    lemma_jstr_concat_cons(acc@, v, spec_parse_jstr_body(data@, i as int + 6));
                    assert(acc@.push(v) =~= acc@ + seq![v]);
                }
                acc.push(v);
                i = i + 6;
                continue ;
            } else {
                return None;
            };
            proof {
                lemma_jstr_concat_cons(acc@, m, spec_parse_jstr_body(data@, i as int + 2));
                assert(acc@.push(m) =~= acc@ + seq![m]);
            }
            acc.push(m);
            i = i + 2;
        } else {
            proof {
                lemma_jstr_concat_cons(acc@, b, spec_parse_jstr_body(data@, i as int + 1));
                assert(acc@.push(b) =~= acc@ + seq![b]);
            }
            acc.push(b);
            i = i + 1;
        }
    }
}

/// Reading serialized string content gives the content back: escaping,
/// then unescaping, is the identity.
pub proof fn lemma_parse_jstr_body_round(s: Seq<u8>, content: Seq<u8>, pos: int)
    requires
        0 <= pos,
        pos + spec_escape(content).len() + 1 <= s.len(),
        s.subrange(pos, pos + spec_escape(content).len() + 1) == spec_escape(content) + seq![
            0x22u8,
        ],
    ensures
        spec_parse_jstr_body(s, pos) == Some(
            (content, pos + spec_escape(content).len() + 1),
        ),
    decreases content.len(),
{
    let esc = spec_escape(content);
    let w = esc + seq![0x22u8];
    assert forall|k: int| 0 <= k < w.len() implies s[pos + k] == #[trigger] w[k] by {
        assert(w[k] == s.subrange(pos, pos + esc.len() + 1)[k]);
    }
    if content.len() == 0 {
        assert(w[0] == 0x22);
        assert(s[pos + 0] == w[0]);
    } else {
        let b = content[0];
        let rest = content.subrange(1, content.len() as int);
        let eb = spec_escape_byte(b);
        assert(esc == eb + spec_escape(rest));
        assert forall|k: int| 0 <= k < eb.len() implies s[pos + k] == #[trigger] eb[k] by {
            assert(w[k] == eb[k]);
        }
        let pos2 = pos + eb.len();
        assert(s.subrange(pos2, pos2 + spec_escape(rest).len() + 1) =~= spec_escape(rest) + seq![
            0x22u8,
        ]) by {
            assert forall|k: int|
                0 <= k < spec_escape(rest).len() + 1 implies s.subrange(
                pos2,
                pos2 + spec_escape(rest).len() + 1,
            )[k] == (spec_escape(rest) + seq![0x22u8])[k] by {
                assert(s[pos2 + k] == w[eb.len() + k]);
            }
        }
        lemma_parse_jstr_body_round(s, rest, pos2);
        assert(content =~= seq![b] + rest);
        if b == 0x22 {
            assert(eb =~= seq![0x5cu8, 0x22u8]);
            assert(s[pos + 0] == 0x5c && s[pos + 1] == 0x22);
        } else if b == 0x5c {
            assert(eb =~= seq![0x5cu8, 0x5cu8]);
            assert(s[pos + 0] == 0x5c && s[pos + 1] == 0x5c);
        } else if b < 0x20 {
            let h1 = spec_hex_digit((b / 16) as u8);
            let h2 = spec_hex_digit((b % 16) as u8);
            assert(eb =~= seq![0x5cu8, 0x75u8, 0x30u8, 0x30u8, h1, h2]);
            assert(s[pos + 0] == 0x5c && s[pos + 1] == 0x75 && s[pos + 2] == 0x30 && s[pos + 3]
                == 0x30 && s[pos + 4] == h1 && s[pos + 5] == h2);
            assert(is_hex(h1) && is_hex(h2));
            assert(hex_val(h1) == b / 16 && hex_val(h2) == b % 16);
            assert(hex_val(h1) * 16 + hex_val(h2) == b);
        } else {
            assert(eb =~= seq![b]);
            assert(s[pos + 0] == b);
        }
    }
}

/// Reading a serialized string value gives its text back, as UTF-8 bytes.
pub proof fn lemma_parse_jstr_round(s: Seq<u8>, t: Seq<char>, pos: int)
    requires
        0 <= pos,
        pos + spec_json_str(t).len() <= s.len(),
        s.subrange(pos, pos + spec_json_str(t).len()) == spec_json_str(t),
    ensures
        spec_parse_jstr(s, pos) == Some(
            (encode_utf8(t), pos + spec_json_str(t).len()),
        ),
{
    let content = encode_utf8(t);
    let esc = spec_escape(content);
    let j = spec_json_str(t);
    assert forall|k: int| 0 <= k < j.len() implies s[pos + k] == #[trigger] j[k] by {
        assert(j[k] == s.subrange(pos, pos + j.len())[k]);
    }
    assert(j[0] == 0x22);
    assert(s[pos + 0] == j[0]);
    assert(s.subrange(pos + 1, pos + 1 + esc.len() + 1) =~= esc + seq![0x22u8]) by {
        assert forall|k: int|
            0 <= k < esc.len() + 1 implies s.subrange(pos + 1, pos + 1 + esc.len() + 1)[k] == (esc
            + seq![0x22u8])[k] by {
            assert(s[pos + 1 + k] == j[1 + k]);
        }
    }
    lemma_parse_jstr_body_round(s, content, pos + 1);
}

// ---------------------------------------------------------------------------
// Writing numbers
// ---------------------------------------------------------------------------
/// Appends the decimal digits of `n`.
pub fn write_u64_dec(n: u64, out: &mut Vec<u8>)
    ensures
        final(out)@ == old(out)@ + spec_dec(n as nat),
    decreases n,
{
    if n < 10 {
        out.push(0x30 + n as u8);
        assert(final(out)@ =~= old(out)@ + spec_dec(n as nat));
    } else {
        write_u64_dec(n / 10, out);
        out.push(0x30 + (n % 10) as u8);
        assert(final(out)@ =~= old(out)@ + spec_dec(n as nat));
    }
}

/// Appends the decimal digits of `n`.
pub fn write_usize_dec(n: usize, out: &mut Vec<u8>)
    ensures
        final(out)@ == old(out)@ + spec_dec(n as nat),
{
    write_u64_dec(n as u64, out);
}

/// A signed decimal: a minus sign where the value is negative.
pub open spec fn spec_i32_dec(v: i32) -> Seq<u8> {
    if v >= 0 {
        spec_dec(v as nat)
    } else {
        seq![0x2du8] + spec_dec((-(v as int)) as nat)
    }
}

/// Appends the signed decimal digits of `v`.
pub fn write_i32_dec(v: i32, out: &mut Vec<u8>)
    ensures
        final(out)@ == old(out)@ + spec_i32_dec(v),
{
    if v >= 0 {
        write_u64_dec(v as u64, out);
    } else {
        out.push(0x2d);
        let m: u64 = (-(v as i64)) as u64;
        write_u64_dec(m, out);
        assert(final(out)@ =~= old(out)@ + spec_i32_dec(v));
    }
}

/// What reading a signed 32-bit decimal at `pos` yields.
pub open spec fn spec_parse_i32(s: Seq<u8>, pos: int) -> Option<(i32, int)> {
    if 0 <= pos < s.len() && s[pos] == 0x2d {
        match spec_parse_dec(s, pos + 1) {
            Some((v, e)) => if v <= 0x8000_0000 {
                Some(((-v) as i32, e))
            } else {
                None
            },
            None => None,
        }
    } else {
        match spec_parse_dec(s, pos) {
            Some((v, e)) => if v <= 0x7fff_ffff {
                Some((v as i32, e))
            } else {
                None
            },
            None => None,
        }
    }
}

/// Reads a signed 32-bit decimal at `pos`.
pub fn parse_i32(data: &Vec<u8>, pos: usize) -> (r: Option<(i32, usize)>)
    requires
        pos <= data@.len(),
    ensures
        (match r {
            Some((v, end)) => spec_parse_i32(data@, pos as int) == Some((v, end as int)),
            None => spec_parse_i32(data@, pos as int) is None,
        }),
{
    let n: usize = data.len();
    if pos < n && data[pos] == 0x2d {
        match parse_u64(data, pos + 1) {
            Some((v, end)) => if v <= 0x8000_0000 {
                Some(((-(v as i64)) as i32, end))
            } else {
                None
            },
            None => None,
        }
    } else {
        match parse_u64(data, pos) {
            Some((v, end)) => if v <= 0x7fff_ffff {
                Some((v as i32, end))
            } else {
                None
            },
            None => None,
        }
    }
}

/// Reading the signed digits of `v`, laid down at `pos` with no digit
/// straight after them, gives `v` back.
pub proof fn lemma_parse_i32_at(s: Seq<u8>, pos: int, v: i32)
    requires
        0 <= pos,
        pos + spec_i32_dec(v).len() <= s.len(),
        s.subrange(pos, pos + spec_i32_dec(v).len()) == spec_i32_dec(v),
        pos + spec_i32_dec(v).len() == s.len() || !is_digit(s[pos + spec_i32_dec(v).len()]),
    ensures
        spec_parse_i32(s, pos) == Some((v, pos + spec_i32_dec(v).len())),
{
    let d = spec_i32_dec(v);
    assert forall|k: int| 0 <= k < d.len() implies s[pos + k] == #[trigger] d[k] by {
        assert(d[k] == s.subrange(pos, pos + d.len())[k]);
    }
    if v >= 0 {
        lemma_dec_val(v as nat);
        assert(s.subrange(pos, pos + spec_dec(v as nat).len()) =~= spec_dec(v as nat));
        lemma_parse_dec_at(s, pos, v as nat);
        assert(s[pos + 0] == d[0]);
        assert(is_digit(d[0])) by {
            assert(d[0] == spec_dec(v as nat)[0]);
        }
    } else {
        let m = (-(v as int)) as nat;
        lemma_dec_val(m);
        assert(d[0] == 0x2d);
        assert(s[pos + 0] == d[0]);
        assert(s.subrange(pos + 1, pos + 1 + spec_dec(m).len()) =~= spec_dec(m)) by {
            assert forall|k: int|
                0 <= k < spec_dec(m).len() implies s.subrange(
                pos + 1,
                pos + 1 + spec_dec(m).len(),
            )[k] == spec_dec(m)[k] by {
                assert(s[pos + 1 + k] == d[1 + k]);
            }
        }
        lemma_parse_dec_at(s, pos + 1, m);
    }
}

// ---------------------------------------------------------------------------
// Fixed text
// ---------------------------------------------------------------------------
/// True when the bytes of `lit` stand at `pos`.
pub open spec fn lit_match(s: Seq<u8>, pos: int, lit: Seq<u8>) -> bool {
    &&& 0 <= pos
    &&& pos + lit.len() <= s.len()
    &&& s.subrange(pos, pos + lit.len()) == lit
}

/// Does the UTF-8 image of `lit` stand at `pos`?
pub fn match_lit(data: &Vec<u8>, pos: usize, lit: &str) -> (r: bool)
    ensures
        r == lit_match(data@, pos as int, encode_utf8(lit@)),
{
    let lb: Vec<u8> = string_bytes(lit);
    let m: usize = lb.len();
    let dn: usize = data.len();
    if m > dn || pos > dn - m {
        return false;
    }
    let mut i: usize = 0;
    while i < m
        invariant
            i <= m == lb@.len(),
            pos + m <= dn == data@.len(),
            lb@ == encode_utf8(lit@),
            forall|k: int| 0 <= k < i ==> data@[pos + k] == #[trigger] lb@[k],
        decreases m - i,
    {
        if data[pos + i] != lb[i] {
            proof {
                assert(lit_match(data@, pos as int, lb@) ==> lb@[i as int] == data@[pos + i]) by {
                    if lit_match(data@, pos as int, lb@) {
                        assert(lb@[i as int] == data@.subrange(
                            pos as int,
                            pos + lb@.len(),
                        )[i as int]);
                    }
                }
            }
            return false;
        }
        i = i + 1;
    }
    proof {
        assert(data@.subrange(pos as int, pos + m as int) =~= lb@);
    }
    true
}

/// Consumes the UTF-8 image of `lit` at `pos`.
pub fn expect_lit(data: &Vec<u8>, pos: usize, lit: &str) -> (r: Option<usize>)
    ensures
        (match r {
            Some(e) => lit_match(data@, pos as int, encode_utf8(lit@)) && e as int == pos
                + encode_utf8(lit@).len(),
            None => !lit_match(data@, pos as int, encode_utf8(lit@)),
        }),
{
    let dl: usize = data.len();
    if match_lit(data, pos, lit) {
        let ll: usize = lit.len();
        assert(pos + ll <= dl);
        Some(pos + ll)
    } else {
        None
    }
}

/// The UTF-8 image of an ASCII literal is its characters as bytes, one
/// each.
pub proof fn lemma_ascii_bytes(lit: &str)
    requires
        vstd::string::is_ascii(lit),
    ensures
        encode_utf8(lit@).len() == lit@.len(),
        forall|i: int| 0 <= i < lit@.len() ==> encode_utf8(lit@)[i] == lit@[i] as u8,
{
    vstd::string::is_ascii_spec_bytes(lit);
}


/// A literal that does not begin with the byte at `pos` does not stand
/// there.
pub proof fn lemma_first_byte_mismatch(s: Seq<u8>, pos: int, lit: &str, b: u8)
    requires
        vstd::string::is_ascii(lit),
        lit@.len() >= 1,
        0 <= pos < s.len(),
        s[pos] == b,
        lit@[0] as u8 != b,
    ensures
        !lit_match(s, pos, encode_utf8(lit@)),
{
    lemma_ascii_bytes(lit);
    if lit_match(s, pos, encode_utf8(lit@)) {
        assert(encode_utf8(lit@)[0] == s.subrange(pos, pos + encode_utf8(lit@).len())[0]);
    }
}

// ---------------------------------------------------------------------------
// Optional values: a field is always written, absent as `null`
// ---------------------------------------------------------------------------
/// An optional string value: `null` where there is none.
pub open spec fn spec_opt_str_json(v: Option<Seq<char>>) -> Seq<u8> {
    match v {
        Some(t) => spec_json_str(t),
        None => encode_utf8("null"@),
    }
}

/// A boolean value.
pub open spec fn spec_bool_json(b: bool) -> Seq<u8> {
    if b {
        encode_utf8("true"@)
    } else {
        encode_utf8("false"@)
    }
}

/// An optional boolean value: `null` where there is none.
pub open spec fn spec_opt_bool_json(v: Option<bool>) -> Seq<u8> {
    match v {
        Some(b) => spec_bool_json(b),
        None => encode_utf8("null"@),
    }
}

/// The view of an optional string.
pub open spec fn opt_str_view(v: Option<String>) -> Option<Seq<char>> {
    match v {
        Some(s) => Some(s@),
        None => None,
    }
}

/// Appends an optional string value.
pub fn write_opt_str(v: &Option<String>, out: &mut Vec<u8>)
    ensures
        final(out)@ == old(out)@ + spec_opt_str_json(opt_str_view(*v)),
{
    match v {
        Some(s) => write_json_string(s.as_str(), out),
        None => {
            let mut lit: Vec<u8> = string_bytes("null");
            out.append(&mut lit);
        },
    }
}

/// Appends an optional boolean value.
pub fn write_opt_bool(v: &Option<bool>, out: &mut Vec<u8>)
    ensures
        final(out)@ == old(out)@ + spec_opt_bool_json(*v),
{
    match v {
        Some(b) => {
            let mut lit: Vec<u8> = if *b {
                string_bytes("true")
            } else {
                string_bytes("false")
            };
            out.append(&mut lit);
        },
        None => {
            let mut lit: Vec<u8> = string_bytes("null");
            out.append(&mut lit);
        },
    }
}

/// What reading an optional string value at `pos` yields: `null`, or a
/// string of valid UTF-8.
pub open spec fn spec_parse_opt_str(s: Seq<u8>, pos: int) -> Option<(Option<Seq<char>>, int)> {
    if lit_match(s, pos, encode_utf8("null"@)) {
        Some((None, pos + encode_utf8("null"@).len()))
    } else {
        match spec_parse_jstr(s, pos) {
            Some((bs, e)) => if valid_utf8(bs) {
                Some((Some(decode_utf8(bs)), e))
            } else {
                None
            },
            None => None,
        }
    }
}

/// Reads an optional string value at `pos`.
pub fn parse_opt_str(data: &Vec<u8>, pos: usize) -> (r: Option<(Option<String>, usize)>)
    ensures
        (match r {
            Some((v, end)) => spec_parse_opt_str(data@, pos as int) == Some(
                (opt_str_view(v), end as int),
            ),
            None => spec_parse_opt_str(data@, pos as int) is None,
        }),
{
    match expect_lit(data, pos, "null") {
        Some(e) => Some((None, e)),
        None => match parse_jstr(data, pos) {
            Some((bs, e)) => match bytes_to_string(bs) {
                Some(text) => Some((Some(text), e)),
                None => None,
            },
            None => None,
        },
    }
}

/// What reading an optional boolean at `pos` yields.
pub open spec fn spec_parse_opt_bool(s: Seq<u8>, pos: int) -> Option<(Option<bool>, int)> {
    if lit_match(s, pos, encode_utf8("null"@)) {
        Some((None, pos + encode_utf8("null"@).len()))
    } else if lit_match(s, pos, encode_utf8("true"@)) {
        Some((Some(true), pos + encode_utf8("true"@).len()))
    } else if lit_match(s, pos, encode_utf8("false"@)) {
        Some((Some(false), pos + encode_utf8("false"@).len()))
    } else {
        None
    }
}

/// Reads an optional boolean at `pos`.
pub fn parse_opt_bool(data: &Vec<u8>, pos: usize) -> (r: Option<(Option<bool>, usize)>)
    ensures
        (match r {
            Some((v, end)) => spec_parse_opt_bool(data@, pos as int) == Some((v, end as int)),
            None => spec_parse_opt_bool(data@, pos as int) is None,
        }),
{
    match expect_lit(data, pos, "null") {
        Some(e) => Some((None, e)),
        None => match expect_lit(data, pos, "true") {
            Some(e) => Some((Some(true), e)),
            None => match expect_lit(data, pos, "false") {
                Some(e) => Some((Some(false), e)),
                None => None,
            },
        },
    }
}

/// Reading back an optional string that was written gives it back.
pub proof fn lemma_parse_opt_str_at(s: Seq<u8>, pos: int, v: Option<Seq<char>>)
    requires
        0 <= pos,
        pos + spec_opt_str_json(v).len() <= s.len(),
        s.subrange(pos, pos + spec_opt_str_json(v).len()) == spec_opt_str_json(v),
    ensures
        spec_parse_opt_str(s, pos) == Some((v, pos + spec_opt_str_json(v).len())),
{
    broadcast use vstd::utf8::encode_utf8_valid_utf8, vstd::utf8::encode_utf8_decode_utf8;

    match v {
        None => {
            assert(lit_match(s, pos, encode_utf8("null"@)));
        },
        Some(t) => {
            let j = spec_json_str(t);
            assert(j[0] == 0x22);
            assert(s[pos] == j[0]) by {
                assert(j[0] == s.subrange(pos, pos + j.len())[0]);
            }
            reveal_strlit("null");
            lemma_first_byte_mismatch(s, pos, "null", 0x22);
            lemma_parse_jstr_round(s, t, pos);
        },
    }
}

/// Reading back an optional boolean that was written gives it back.
pub proof fn lemma_parse_opt_bool_at(s: Seq<u8>, pos: int, v: Option<bool>)
    requires
        0 <= pos,
        pos + spec_opt_bool_json(v).len() <= s.len(),
        s.subrange(pos, pos + spec_opt_bool_json(v).len()) == spec_opt_bool_json(v),
    ensures
        spec_parse_opt_bool(s, pos) == Some((v, pos + spec_opt_bool_json(v).len())),
{
    reveal_strlit("null");
    reveal_strlit("true");
    reveal_strlit("false");
    match v {
        None => {
            assert(lit_match(s, pos, encode_utf8("null"@)));
        },
        Some(b) => {
            let j = spec_opt_bool_json(v);
            lemma_ascii_bytes(if b { "true" } else { "false" });
            assert(s[pos] == j[0]) by {
                assert(j[0] == s.subrange(pos, pos + j.len())[0]);
            }
            if b {
                assert(j[0] == 0x74);
                lemma_first_byte_mismatch(s, pos, "null", 0x74);
                assert(lit_match(s, pos, encode_utf8("true"@)));
            } else {
                assert(j[0] == 0x66);
                lemma_first_byte_mismatch(s, pos, "null", 0x66);
                lemma_first_byte_mismatch(s, pos, "true", 0x66);
                assert(lit_match(s, pos, encode_utf8("false"@)));
            }
        },
    }
}

/// A window that holds a concatenation splits into windows that hold the
/// parts.
pub proof fn lemma_split_window(s: Seq<u8>, pos: int, a: Seq<u8>, b: Seq<u8>)
    requires
        0 <= pos,
        pos + a.len() + b.len() <= s.len(),
        s.subrange(pos, pos + a.len() + b.len()) == a + b,
    ensures
        s.subrange(pos, pos + a.len()) == a,
        s.subrange(pos + a.len(), pos + a.len() + b.len()) == b,
{
    let w = a + b;
    assert forall|k: int| 0 <= k < w.len() implies s[pos + k] == #[trigger] w[k] by {
        assert(w[k] == s.subrange(pos, pos + w.len())[k]);
    }
    assert(s.subrange(pos, pos + a.len()) =~= a) by {
        assert forall|k: int| 0 <= k < a.len() implies s.subrange(pos, pos + a.len())[k]
            == #[trigger] a[k] by {
            assert(s[pos + k] == w[k]);
        }
    }
    assert(s.subrange(pos + a.len(), pos + a.len() + b.len()) =~= b) by {
        assert forall|k: int|
            0 <= k < b.len() implies s.subrange(pos + a.len(), pos + a.len() + b.len())[k]
            == #[trigger] b[k] by {
            assert(s[pos + a.len() + k] == w[a.len() + k]);
        }
    }
}

/// Ten to the `k`.
pub open spec fn pow10(k: nat) -> nat
    decreases k,
{
    if k == 0 {
        1
    } else {
        10 * pow10((k - 1) as nat)
    }
}

/// A value below ten to the `k` takes at most `k` digits.
pub proof fn lemma_dec_len_pow(n: nat, k: nat)
    requires
        k >= 1,
        n < pow10(k),
    ensures
        spec_dec(n).len() <= k,
    decreases k,
{
    if n >= 10 {
        assert(pow10(k) == 10 * pow10((k - 1) as nat));
        lemma_dec_len_pow(n / 10, (k - 1) as nat);
    }
}

/// A 64-bit value takes at most twenty digits.
pub proof fn lemma_dec_len_u64(n: nat)
    requires
        n <= u64::MAX,
    ensures
        spec_dec(n).len() <= 20,
{
    reveal_with_fuel(pow10, 21);
    assert(pow10(20) > 0xffff_ffff_ffff_ffff);
    lemma_dec_len_pow(n, 20);
}

/// Escaping at most sextuples the length.
pub proof fn lemma_escape_len(s: Seq<u8>)
    ensures
        spec_escape(s).len() <= 6 * s.len(),
    decreases s.len(),
{
    if s.len() > 0 {
        lemma_escape_len(s.subrange(1, s.len() as int));
    }
}

// ---------------------------------------------------------------------------
// Scanning foreign documents
// ---------------------------------------------------------------------------
/// True of JSON whitespace.
pub open spec fn is_ws(b: u8) -> bool {
    b == 0x20 || b == 0x09 || b == 0x0a || b == 0x0d
}

/// Where the run of whitespace at `pos` ends.
pub open spec fn ws_end(s: Seq<u8>, pos: int) -> int
    decreases s.len() - pos,
{
    if 0 <= pos < s.len() && is_ws(s[pos]) {
        ws_end(s, pos + 1)
    } else {
        pos
    }
}

/// The run of whitespace stays within the input.
pub proof fn lemma_ws_end_bounds(s: Seq<u8>, pos: int)
    requires
        0 <= pos <= s.len(),
    ensures
        pos <= ws_end(s, pos) <= s.len(),
    decreases s.len() - pos,
{
    if pos < s.len() && is_ws(s[pos]) {
        lemma_ws_end_bounds(s, pos + 1);
    }
}

/// Skips whitespace.
pub fn skip_ws(data: &Vec<u8>, pos: usize) -> (r: usize)
    requires
        pos <= data@.len(),
    ensures
        r as int == ws_end(data@, pos as int),
        pos <= r <= data@.len(),
{
    let n: usize = data.len();
    let mut i: usize = pos;
    while i < n && (data[i] == 0x20 || data[i] == 0x09 || data[i] == 0x0a || data[i] == 0x0d)
        invariant
            pos <= i <= n == data@.len(),
            ws_end(data@, pos as int) == ws_end(data@, i as int),
        decreases n - i,
    {
        i = i + 1;
    }
    i
}

/// True of a byte that can stand in a JSON number.
pub open spec fn is_num_byte(b: u8) -> bool {
    is_digit(b) || b == 0x2d || b == 0x2b || b == 0x2e || b == 0x65 || b == 0x45
}

/// Where the run of number bytes at `pos` ends.
pub open spec fn num_end(s: Seq<u8>, pos: int) -> int
    decreases s.len() - pos,
{
    if 0 <= pos < s.len() && is_num_byte(s[pos]) {
        num_end(s, pos + 1)
    } else {
        pos
    }
}

/// Skips one number, lexically.
pub fn skip_number(data: &Vec<u8>, pos: usize) -> (r: usize)
    requires
        pos <= data@.len(),
    ensures
        r as int == num_end(data@, pos as int),
        pos <= r <= data@.len(),
{
    let n: usize = data.len();
    let mut i: usize = pos;
    while i < n && (data[i] >= 0x30 && data[i] <= 0x39 || data[i] == 0x2d || data[i] == 0x2b
        || data[i] == 0x2e || data[i] == 0x65 || data[i] == 0x45)
        invariant
            pos <= i <= n == data@.len(),
            num_end(data@, pos as int) == num_end(data@, i as int),
        decreases n - i,
    {
        i = i + 1;
    }
    i
}

/// Whether these bytes are the UTF-8 image of `lit`.
pub fn bytes_eq_lit(a: &Vec<u8>, lit: &str) -> (r: bool)
    ensures
        r <==> a@ == encode_utf8(lit@),
{
    let lb: Vec<u8> = string_bytes(lit);
    let m: usize = lb.len();
    if a.len() != m {
        proof {
            if a@ == encode_utf8(lit@) {
                assert(a@.len() == lb@.len());
            }
        }
        return false;
    }
    let mut i: usize = 0;
    while i < m
        invariant
            i <= m == lb@.len() == a@.len(),
            lb@ == encode_utf8(lit@),
            forall|k: int| 0 <= k < i ==> a@[k] == #[trigger] lb@[k],
        decreases m - i,
    {
        if a[i] != lb[i] {
            proof {
                if a@ == encode_utf8(lit@) {
                    assert(a@[i as int] == lb@[i as int]);
                }
            }
            return false;
        }
        i = i + 1;
    }
    proof {
        assert(a@ =~= lb@);
    }
    true
}

/// The end of one JSON value at `pos`, past leading whitespace.  The value
/// is scanned, not interpreted: strings obey the escape rules, numbers are
/// a lexical run, objects and arrays balance.
pub open spec fn spec_skip_value(s: Seq<u8>, pos: int) -> Option<int>
    decreases s.len() - pos, 0int,
{
    let p = ws_end(s, pos);
    if !(0 <= pos <= p && p < s.len()) {
        None
    } else if s[p] == 0x22 {
        match spec_parse_jstr(s, p) {
            Some((_c, e)) => Some(e),
            None => None,
        }
    } else if s[p] == 0x7b {
        spec_skip_members(s, p + 1)
    } else if s[p] == 0x5b {
        spec_skip_items(s, p + 1)
    } else if s[p] == 0x74 {
        if lit_match(s, p, encode_utf8("true"@)) {
            Some(p + encode_utf8("true"@).len())
        } else {
            None
        }
    } else if s[p] == 0x66 {
        if lit_match(s, p, encode_utf8("false"@)) {
            Some(p + encode_utf8("false"@).len())
        } else {
            None
        }
    } else if s[p] == 0x6e {
        if lit_match(s, p, encode_utf8("null"@)) {
            Some(p + encode_utf8("null"@).len())
        } else {
            None
        }
    } else if is_num_byte(s[p]) {
        Some(num_end(s, p))
    } else {
        None
    }
}

/// The end of an object's remaining members at `pos`, just past `{` or a
/// comma, closing brace included.
pub open spec fn spec_skip_members(s: Seq<u8>, pos: int) -> Option<int>
    decreases s.len() - pos, 1int,
{
    let p = ws_end(s, pos);
    if !(0 <= pos <= p && p < s.len()) {
        None
    } else if s[p] == 0x7d {
        Some(p + 1)
    } else {
        match spec_parse_jstr(s, p) {
            Some((_k, p1)) => if !(p < p1) {
                None
            } else {
                let p2 = ws_end(s, p1);
                if !(p1 <= p2 && p2 < s.len() && s[p2] == 0x3a) {
                    None
                } else {
                    match spec_skip_value(s, p2 + 1) {
                        Some(p3) => if !(p2 + 1 <= p3 && p3 <= s.len()) {
                            None
                        } else {
                            spec_skip_after_member(s, p3, pos)
                        },
                        None => None,
                    }
                }
            },
            None => None,
        }
    }
}

/// After one member's value: a comma continues the members, a closing
/// brace ends them.
pub open spec fn spec_skip_after_member(s: Seq<u8>, pos: int, entry: int) -> Option<int>
    decreases s.len() - pos, 0int,
{
    let p = ws_end(s, pos);
    if !(0 <= entry < pos && pos <= p && p < s.len()) {
        None
    } else if s[p] == 0x2c {
        spec_skip_members(s, p + 1)
    } else if s[p] == 0x7d {
        Some(p + 1)
    } else {
        None
    }
}

/// The end of an array's remaining items at `pos`, just past `[` or a
/// comma, closing bracket included.
pub open spec fn spec_skip_items(s: Seq<u8>, pos: int) -> Option<int>
    decreases s.len() - pos, 1int,
{
    let p = ws_end(s, pos);
    if !(0 <= pos <= p && p < s.len()) {
        None
    } else if s[p] == 0x5d {
        Some(p + 1)
    } else {
        match spec_skip_value(s, p) {
            Some(e) => if !(p < e) {
                None
            } else {
                let q = ws_end(s, e);
                if !(e <= q && q < s.len()) {
                    None
                } else if s[q] == 0x2c {
                    spec_skip_items(s, q + 1)
                } else if s[q] == 0x5d {
                    Some(q + 1)
                } else {
                    None
                }
            },
            None => None,
        }
    }
}

/// Skips one JSON value at `pos`.
pub fn skip_value(data: &Vec<u8>, pos: usize) -> (r: Option<usize>)
    requires
        pos <= data@.len(),
    ensures
        (match r {
            Some(e) => spec_skip_value(data@, pos as int) == Some(e as int) && pos <= e
                <= data@.len(),
            None => spec_skip_value(data@, pos as int) is None,
        }),
    decreases data@.len() - pos, 0int,
{
    let p: usize = skip_ws(data, pos);
    if p >= data.len() {
        return None;
    }
    let b: u8 = data[p];
    if b == 0x22 {
        match parse_jstr(data, p) {
            Some((_c, e)) => {
                proof {
                    lemma_parse_jstr_end(data@, p as int);
                }
                Some(e)
            },
            None => None,
        }
    } else if b == 0x7b {
        skip_members(data, p + 1)
    } else if b == 0x5b {
        skip_items(data, p + 1)
    } else if b == 0x74 {
        match expect_lit(data, p, "true") {
            Some(e) => Some(e),
            None => None,
        }
    } else if b == 0x66 {
        match expect_lit(data, p, "false") {
            Some(e) => Some(e),
            None => None,
        }
    } else if b == 0x6e {
        match expect_lit(data, p, "null") {
            Some(e) => Some(e),
            None => None,
        }
    } else if b >= 0x30 && b <= 0x39 || b == 0x2d || b == 0x2b || b == 0x2e || b == 0x65 || b
        == 0x45 {
        Some(skip_number(data, p))
    } else {
        None
    }
}

/// Skips an object's remaining members.
pub fn skip_members(data: &Vec<u8>, pos: usize) -> (r: Option<usize>)
    requires
        pos <= data@.len(),
    ensures
        (match r {
            Some(e) => spec_skip_members(data@, pos as int) == Some(e as int) && pos <= e
                <= data@.len(),
            None => spec_skip_members(data@, pos as int) is None,
        }),
    decreases data@.len() - pos, 1int,
{
    let p: usize = skip_ws(data, pos);
    if p >= data.len() {
        return None;
    }
    if data[p] == 0x7d {
        return Some(p + 1);
    }
    let p1: usize = match parse_jstr(data, p) {
        Some((_k, e)) => e,
        None => { return None },
    };
    proof {
        lemma_parse_jstr_end(data@, p as int);
    }
    if p1 <= p {
        return None;
    }
    let p2: usize = skip_ws(data, p1);
    if p2 >= data.len() || data[p2] != 0x3a {
        return None;
    }
    let p3: usize = match skip_value(data, p2 + 1) {
        Some(e) => e,
        None => { return None },
    };
    let p4: usize = skip_ws(data, p3);
    if p4 >= data.len() {
        return None;
    }
    if data[p4] == 0x2c {
        skip_members(data, p4 + 1)
    } else if data[p4] == 0x7d {
        Some(p4 + 1)
    } else {
        None
    }
}

/// Skips an array's remaining items.
pub fn skip_items(data: &Vec<u8>, pos: usize) -> (r: Option<usize>)
    requires
        pos <= data@.len(),
    ensures
        (match r {
            Some(e) => spec_skip_items(data@, pos as int) == Some(e as int) && pos <= e
                <= data@.len(),
            None => spec_skip_items(data@, pos as int) is None,
        }),
    decreases data@.len() - pos, 1int,
{
    let p: usize = skip_ws(data, pos);
    if p >= data.len() {
        return None;
    }
    if data[p] == 0x5d {
        return Some(p + 1);
    }
    let e: usize = match skip_value(data, p) {
        Some(e) => e,
        None => { return None },
    };
    if e <= p {
        return None;
    }
    let q: usize = skip_ws(data, e);
    if q >= data.len() {
        return None;
    }
    if data[q] == 0x2c {
        skip_items(data, q + 1)
    } else if data[q] == 0x5d {
        Some(q + 1)
    } else {
        None
    }
}

/// A string value read at `pos` ends past where it began and within the
/// input.
pub proof fn lemma_parse_jstr_end(s: Seq<u8>, pos: int)
    ensures
        (match spec_parse_jstr(s, pos) {
            Some((_c, e)) => pos < e <= s.len(),
            None => true,
        }),
{
    match spec_parse_jstr(s, pos) {
        Some((_c, e)) => {
            lemma_parse_jstr_body_end(s, pos + 1);
        },
        None => {},
    }
}

/// String content read at `pos` ends at or past `pos`, within the input.
proof fn lemma_parse_jstr_body_end(s: Seq<u8>, pos: int)
    ensures
        (match spec_parse_jstr_body(s, pos) {
            Some((_c, e)) => pos < e <= s.len(),
            None => true,
        }),
    decreases s.len() - pos,
{
    if 0 <= pos < s.len() {
        if s[pos] == 0x22 {
        } else if s[pos] == 0x5c {
            if pos + 1 < s.len() {
                let c = s[pos + 1];
                if c == 0x75 {
                    if pos + 6 <= s.len() {
                        lemma_parse_jstr_body_end(s, pos + 6);
                    }
                } else {
                    lemma_parse_jstr_body_end(s, pos + 2);
                }
            }
        } else {
            lemma_parse_jstr_body_end(s, pos + 1);
        }
    }
}

} // verus!
