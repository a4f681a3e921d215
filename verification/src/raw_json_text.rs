use vstd::prelude::*;
use vstd::utf8::{decode_utf8, encode_utf8, valid_utf8};

use crate::json::{bytes_eq_lit, skip_value, skip_ws, spec_skip_value, ws_end,
    lemma_split_window, lit_match, opt_str_view, spec_json_str, spec_opt_bool_json, spec_opt_str_json,
    spec_parse_jstr, spec_parse_opt_bool, spec_parse_opt_str, expect_lit, parse_jstr,
    parse_opt_bool, parse_opt_str, write_json_string, write_opt_bool, write_opt_str,
    lemma_ascii_bytes, lemma_first_byte_mismatch, lemma_parse_jstr_round, lemma_parse_opt_bool_at,
    lemma_parse_opt_str_at};
use crate::text::{bytes_to_string, string_bytes};

verus! {

/// A chat-style rich text value: either a bare string, or an object whose
/// text carries decorations and, through `extra`, nested values.
#[derive(Debug)]
pub enum RawJsonText {
    String(String),
    Object(Object),
}

/// The object form of a text value.  The field written as `type` on the
/// wire is named `kind` here, since `type` is a keyword.
#[derive(Debug, Default)]
pub struct Object {
    pub text: String,
    pub kind: Option<String>,
    pub extra: Option<Vec<RawJsonText>>,
    pub color: Option<String>,
    pub font: Option<String>,
    pub bold: Option<bool>,
    pub italic: Option<bool>,
    pub underlined: Option<bool>,
    pub strikethrough: Option<bool>,
    pub obfuscated: Option<bool>,
    pub insertion: Option<String>,
}

/// The mathematical image of a text value.
#[verifier::ext_equal]
pub ghost enum RawJsonTextView {
    String(Seq<char>),
    Object(ObjectView),
}

/// The mathematical image of the object form.
#[verifier::ext_equal]
pub ghost struct ObjectView {
    pub text: Seq<char>,
    pub kind: Option<Seq<char>>,
    pub extra: Option<Seq<RawJsonTextView>>,
    pub color: Option<Seq<char>>,
    pub font: Option<Seq<char>>,
    pub bold: Option<bool>,
    pub italic: Option<bool>,
    pub underlined: Option<bool>,
    pub strikethrough: Option<bool>,
    pub obfuscated: Option<bool>,
    pub insertion: Option<Seq<char>>,
}

/// The image of a text value.
pub open spec fn rjt_view(t: RawJsonText) -> RawJsonTextView
    decreases t,
{
    match t {
        RawJsonText::String(s) => RawJsonTextView::String(s@),
        RawJsonText::Object(o) => RawJsonTextView::Object(obj_view(o)),
    }
}

/// The image of the object form.
pub open spec fn obj_view(o: Object) -> ObjectView
    decreases o,
{
    ObjectView {
        text: o.text@,
        kind: opt_str_view(o.kind),
        extra: match o.extra {
            Some(v) => Some(rjt_seq_view(v@)),
            None => None,
        },
        color: opt_str_view(o.color),
        font: opt_str_view(o.font),
        bold: o.bold,
        italic: o.italic,
        underlined: o.underlined,
        strikethrough: o.strikethrough,
        obfuscated: o.obfuscated,
        insertion: opt_str_view(o.insertion),
    }
}

/// The images of a list of text values.
pub open spec fn rjt_seq_view(ts: Seq<RawJsonText>) -> Seq<RawJsonTextView>
    decreases ts,
{
    if ts.len() == 0 {
        Seq::empty()
    } else {
        seq![rjt_view(ts[0])] + rjt_seq_view(ts.subrange(1, ts.len() as int))
    }
}

impl View for RawJsonText {
    type V = RawJsonTextView;

    open spec fn view(&self) -> RawJsonTextView {
        rjt_view(*self)
    }
}

/// The serialized form of a text value.
pub open spec fn spec_rjt_json(t: RawJsonText) -> Seq<u8>
    decreases t, 0int,
{
    match t {
        RawJsonText::String(s) => spec_json_str(s@),
        RawJsonText::Object(o) => spec_obj_json(o),
    }
}

/// The serialized object form: every field is written, an absent one as
/// `null`, in declaration order.
pub open spec fn spec_obj_json(o: Object) -> Seq<u8>
    decreases o, 1int,
{
    spec_obj_p1(o) + (spec_obj_p2(o) + (spec_obj_p3(o) + spec_obj_p4(o)))
}

/// The object's opening: its text and its kind.
pub open spec fn spec_obj_p1(o: Object) -> Seq<u8> {
    encode_utf8("{\"text\":"@) + (spec_json_str(o.text@) + (encode_utf8(",\"type\":"@)
        + spec_opt_str_json(opt_str_view(o.kind))))
}

/// The object's nested values and colour.
pub open spec fn spec_obj_p2(o: Object) -> Seq<u8>
    decreases o, 0int,
{
    encode_utf8(",\"extra\":"@) + (spec_extra_json(o.extra) + (encode_utf8(",\"color\":"@)
        + spec_opt_str_json(opt_str_view(o.color))))
}

/// The object's font and its first two flags.
pub open spec fn spec_obj_p3(o: Object) -> Seq<u8> {
    encode_utf8(",\"font\":"@) + (spec_opt_str_json(opt_str_view(o.font)) + (encode_utf8(
        ",\"bold\":"@,
    ) + (spec_opt_bool_json(o.bold) + (encode_utf8(",\"italic\":"@) + spec_opt_bool_json(
        o.italic,
    )))))
}

/// The object's remaining flags, its insertion, and the closing brace.
pub open spec fn spec_obj_p4(o: Object) -> Seq<u8> {
    spec_obj_p4a(o) + spec_obj_p4b(o)
}

/// The underline and strikethrough flags.
pub open spec fn spec_obj_p4a(o: Object) -> Seq<u8> {
    encode_utf8(",\"underlined\":"@) + (spec_opt_bool_json(o.underlined) + (encode_utf8(
        ",\"strikethrough\":"@,
    ) + spec_opt_bool_json(o.strikethrough)))
}

/// The obfuscation flag, the insertion, and the closing brace.
pub open spec fn spec_obj_p4b(o: Object) -> Seq<u8> {
    encode_utf8(",\"obfuscated\":"@) + (spec_opt_bool_json(o.obfuscated) + (encode_utf8(
        ",\"insertion\":"@,
    ) + (spec_opt_str_json(opt_str_view(o.insertion)) + encode_utf8("}"@))))
}

/// The serialized list of nested values, or `null`.
pub open spec fn spec_extra_json(e: Option<Vec<RawJsonText>>) -> Seq<u8>
    decreases e, 0int,
{
    match e {
        None => encode_utf8("null"@),
        Some(v) => encode_utf8("["@) + spec_rjt_list_json(v@) + encode_utf8("]"@),
    }
}

/// Nested values, joined by commas.
pub open spec fn spec_rjt_list_json(ts: Seq<RawJsonText>) -> Seq<u8>
    decreases ts, 0int,
{
    if ts.len() == 0 {
        Seq::empty()
    } else if ts.len() == 1 {
        spec_rjt_json(ts[0])
    } else {
        spec_rjt_json(ts[0]) + encode_utf8(","@) + spec_rjt_list_json(
            ts.subrange(1, ts.len() as int),
        )
    }
}

/// Appends the serialized form of `t`.
pub fn write_rjt(t: &RawJsonText, out: &mut Vec<u8>)
    ensures
        final(out)@ == old(out)@ + spec_rjt_json(*t),
    decreases *t, 0int,
{
    match t {
        RawJsonText::String(s) => write_json_string(s.as_str(), out),
        RawJsonText::Object(o) => write_obj(o, out),
    }
}

/// Appends the serialized object form of `o`.
#[verifier::rlimit(60)]
fn write_obj(o: &Object, out: &mut Vec<u8>)
    ensures
        final(out)@ == old(out)@ + spec_obj_json(*o),
    decreases *o, 3int,
{
    write_obj_p1(o, out);
    write_obj_p2(o, out);
    write_obj_p3(o, out);
    write_obj_p4(o, out);
    assert(final(out)@ =~= old(out)@ + spec_obj_json(*o));
}

/// Appends the object's opening: its text and its kind.
#[verifier::rlimit(100)]
fn write_obj_p1(o: &Object, out: &mut Vec<u8>)
    ensures
        final(out)@ == old(out)@ + spec_obj_p1(*o),
{
    let mut lit: Vec<u8> = string_bytes("{\"text\":");
    out.append(&mut lit);
    write_json_string(o.text.as_str(), out);
    let mut lit: Vec<u8> = string_bytes(",\"type\":");
    out.append(&mut lit);
    write_opt_str(&o.kind, out);
    assert(final(out)@ =~= old(out)@ + spec_obj_p1(*o));
}

/// Appends the object's nested values and colour.
#[verifier::rlimit(100)]
fn write_obj_p2(o: &Object, out: &mut Vec<u8>)
    ensures
        final(out)@ == old(out)@ + spec_obj_p2(*o),
    decreases *o, 2int,
{
    let mut lit: Vec<u8> = string_bytes(",\"extra\":");
    out.append(&mut lit);
    match &o.extra {
        None => {
            let mut lit: Vec<u8> = string_bytes("null");
            out.append(&mut lit);
        },
        Some(v) => {
            let mut lit: Vec<u8> = string_bytes("[");
            out.append(&mut lit);
            write_rjt_list(v, 0, out);
            let mut lit: Vec<u8> = string_bytes("]");
            out.append(&mut lit);
            proof {
                assert(v@.subrange(0, v@.len() as int) =~= v@);
            }
        },
    }
    let mut lit: Vec<u8> = string_bytes(",\"color\":");
    out.append(&mut lit);
    write_opt_str(&o.color, out);
    assert(final(out)@ =~= old(out)@ + spec_obj_p2(*o));
}

/// Appends the object's font and its first two flags.
#[verifier::rlimit(100)]
fn write_obj_p3(o: &Object, out: &mut Vec<u8>)
    ensures
        final(out)@ == old(out)@ + spec_obj_p3(*o),
{
    let mut lit: Vec<u8> = string_bytes(",\"font\":");
    out.append(&mut lit);
    write_opt_str(&o.font, out);
    let mut lit: Vec<u8> = string_bytes(",\"bold\":");
    out.append(&mut lit);
    write_opt_bool(&o.bold, out);
    let mut lit: Vec<u8> = string_bytes(",\"italic\":");
    out.append(&mut lit);
    write_opt_bool(&o.italic, out);
    assert(final(out)@ =~= old(out)@ + spec_obj_p3(*o));
}

/// Appends the object's remaining flags, its insertion, and the closing
/// brace.
fn write_obj_p4(o: &Object, out: &mut Vec<u8>)
    ensures
        final(out)@ == old(out)@ + spec_obj_p4(*o),
{
    write_obj_p4a(o, out);
    write_obj_p4b(o, out);
    assert(final(out)@ =~= old(out)@ + spec_obj_p4(*o));
}

/// Appends the underline and strikethrough flags.
#[verifier::rlimit(100)]
fn write_obj_p4a(o: &Object, out: &mut Vec<u8>)
    ensures
        final(out)@ == old(out)@ + spec_obj_p4a(*o),
{
    let mut lit: Vec<u8> = string_bytes(",\"underlined\":");
    out.append(&mut lit);
    write_opt_bool(&o.underlined, out);
    let mut lit: Vec<u8> = string_bytes(",\"strikethrough\":");
    out.append(&mut lit);
    write_opt_bool(&o.strikethrough, out);
    assert(final(out)@ =~= old(out)@ + spec_obj_p4a(*o));
}

/// Appends the obfuscation flag, the insertion, and the closing brace.
#[verifier::rlimit(100)]
fn write_obj_p4b(o: &Object, out: &mut Vec<u8>)
    ensures
        final(out)@ == old(out)@ + spec_obj_p4b(*o),
{
    let mut lit: Vec<u8> = string_bytes(",\"obfuscated\":");
    out.append(&mut lit);
    write_opt_bool(&o.obfuscated, out);
    let mut lit: Vec<u8> = string_bytes(",\"insertion\":");
    out.append(&mut lit);
    write_opt_str(&o.insertion, out);
    let mut lit: Vec<u8> = string_bytes("}");
    out.append(&mut lit);
    assert(final(out)@ =~= old(out)@ + spec_obj_p4b(*o));
}

/// Appends the nested values from `from` on, joined by commas.
fn write_rjt_list(v: &Vec<RawJsonText>, from: usize, out: &mut Vec<u8>)
    requires
        from <= v@.len(),
    ensures
        final(out)@ == old(out)@ + spec_rjt_list_json(v@.subrange(from as int, v@.len() as int)),
    decreases *v, (v@.len() - from),
{
    let n: usize = v.len();
    if from < n {
        write_rjt(&v[from], out);
        if from + 1 < n {
            let mut lit: Vec<u8> = string_bytes(",");
            out.append(&mut lit);
            write_rjt_list(v, from + 1, out);
        }
    }
    proof {
        let w = v@.subrange(from as int, v@.len() as int);
        if from < v@.len() {
            assert(w[0] == v@[from as int]);
            if from + 1 < v@.len() {
                assert(w.subrange(1, w.len() as int) =~= v@.subrange(
                    from as int + 1,
                    v@.len() as int,
                ));
                assert(final(out)@ =~= old(out)@ + spec_rjt_list_json(w));
            } else {
                assert(w.len() == 1);
                assert(final(out)@ =~= old(out)@ + spec_rjt_list_json(w));
            }
        } else {
            assert(w.len() == 0);
            assert(final(out)@ =~= old(out)@ + spec_rjt_list_json(w));
        }
    }
}

/// What reading one text value at `pos` yields.  A bare string or an
/// object in the written layout; a nested `extra` list is not read back.
pub open spec fn spec_parse_rjt(s: Seq<u8>, pos: int) -> Option<(RawJsonTextView, int)> {
    if !(0 <= pos < s.len()) {
        None
    } else if s[pos] == 0x22 {
        match spec_parse_jstr(s, pos) {
            Some((bs, e)) => if valid_utf8(bs) {
                Some((RawJsonTextView::String(decode_utf8(bs)), e))
            } else {
                None
            },
            None => None,
        }
    } else if s[pos] == 0x7b {
        spec_parse_obj(s, pos)
    } else {
        None
    }
}

/// Consumes a fixed piece of text at `pos`.
pub open spec fn after_lit(s: Seq<u8>, pos: int, lit: Seq<u8>) -> Option<int> {
    if lit_match(s, pos, lit) {
        Some(pos + lit.len())
    } else {
        None
    }
}

/// Consumes a key, then an optional string value.
pub open spec fn spec_str_field(s: Seq<u8>, pos: int, key: Seq<u8>) -> Option<
    (Option<Seq<char>>, int),
> {
    match after_lit(s, pos, key) {
        Some(p) => spec_parse_opt_str(s, p),
        None => None,
    }
}

/// Consumes a key, then an optional boolean value.
pub open spec fn spec_bool_field(s: Seq<u8>, pos: int, key: Seq<u8>) -> Option<
    (Option<bool>, int),
> {
    match after_lit(s, pos, key) {
        Some(p) => spec_parse_opt_bool(s, p),
        None => None,
    }
}

/// What reading the object form at `pos` yields: the opening and the text.
pub open spec fn spec_parse_obj(s: Seq<u8>, pos: int) -> Option<(RawJsonTextView, int)> {
    match after_lit(s, pos, encode_utf8("{\"text\":"@)) {
        Some(p1) => match spec_parse_jstr(s, p1) {
            Some((tb, p2)) => if valid_utf8(tb) {
                spec_parse_obj_kind(s, p2, decode_utf8(tb))
            } else {
                None
            },
            None => None,
        },
        None => None,
    }
}

/// ... then the kind.
pub open spec fn spec_parse_obj_kind(s: Seq<u8>, pos: int, text: Seq<char>) -> Option<
    (RawJsonTextView, int),
> {
    match spec_str_field(s, pos, encode_utf8(",\"type\":"@)) {
        Some((kind, p)) => spec_parse_obj_extra(s, p, text, kind),
        None => None,
    }
}

/// ... then the nested values, which must be absent.
pub open spec fn spec_parse_obj_extra(
    s: Seq<u8>,
    pos: int,
    text: Seq<char>,
    kind: Option<Seq<char>>,
) -> Option<(RawJsonTextView, int)> {
    match after_lit(s, pos, encode_utf8(",\"extra\":"@)) {
        Some(p1) => match after_lit(s, p1, encode_utf8("null"@)) {
            Some(p2) => spec_parse_obj_color(s, p2, text, kind),
            None => None,
        },
        None => None,
    }
}

/// ... then the colour.
pub open spec fn spec_parse_obj_color(
    s: Seq<u8>,
    pos: int,
    text: Seq<char>,
    kind: Option<Seq<char>>,
) -> Option<(RawJsonTextView, int)> {
    match spec_str_field(s, pos, encode_utf8(",\"color\":"@)) {
        Some((color, p)) => spec_parse_obj_font(s, p, text, kind, color),
        None => None,
    }
}

/// ... then the font.
pub open spec fn spec_parse_obj_font(
    s: Seq<u8>,
    pos: int,
    text: Seq<char>,
    kind: Option<Seq<char>>,
    color: Option<Seq<char>>,
) -> Option<(RawJsonTextView, int)> {
    match spec_str_field(s, pos, encode_utf8(",\"font\":"@)) {
        Some((font, p)) => spec_parse_obj_bold(s, p, text, kind, color, font),
        None => None,
    }
}

/// ... then the first two flags.
pub open spec fn spec_parse_obj_bold(
    s: Seq<u8>,
    pos: int,
    text: Seq<char>,
    kind: Option<Seq<char>>,
    color: Option<Seq<char>>,
    font: Option<Seq<char>>,
) -> Option<(RawJsonTextView, int)> {
    match spec_bool_field(s, pos, encode_utf8(",\"bold\":"@)) {
        Some((bold, p1)) => match spec_bool_field(s, p1, encode_utf8(",\"italic\":"@)) {
            Some((italic, p2)) => spec_parse_obj_underlined(
                s,
                p2,
                text,
                kind,
                color,
                font,
                bold,
                italic,
            ),
            None => None,
        },
        None => None,
    }
}

/// ... then the remaining three flags.
pub open spec fn spec_parse_obj_underlined(
    s: Seq<u8>,
    pos: int,
    text: Seq<char>,
    kind: Option<Seq<char>>,
    color: Option<Seq<char>>,
    font: Option<Seq<char>>,
    bold: Option<bool>,
    italic: Option<bool>,
) -> Option<(RawJsonTextView, int)> {
    match spec_bool_field(s, pos, encode_utf8(",\"underlined\":"@)) {
        Some((underlined, p1)) => match spec_bool_field(
            s,
            p1,
            encode_utf8(",\"strikethrough\":"@),
        ) {
            Some((strikethrough, p2)) => match spec_bool_field(
                s,
                p2,
                encode_utf8(",\"obfuscated\":"@),
            ) {
                Some((obfuscated, p3)) => spec_parse_obj_insertion(
                    s,
                    p3,
                    ObjectView {
                        text,
                        kind,
                        extra: None,
                        color,
                        font,
                        bold,
                        italic,
                        underlined,
                        strikethrough,
                        obfuscated,
                        insertion: None,
                    },
                ),
                None => None,
            },
            None => None,
        },
        None => None,
    }
}

/// ... then the insertion and the closing brace.
pub open spec fn spec_parse_obj_insertion(s: Seq<u8>, pos: int, o: ObjectView) -> Option<
    (RawJsonTextView, int),
> {
    match spec_str_field(s, pos, encode_utf8(",\"insertion\":"@)) {
        Some((insertion, p1)) => match after_lit(s, p1, encode_utf8("}"@)) {
            Some(p2) => Some(
                (RawJsonTextView::Object(ObjectView { insertion, ..o }), p2),
            ),
            None => None,
        },
        None => None,
    }
}

/// Reads one text value at `pos`.
pub fn parse_rjt(data: &Vec<u8>, pos: usize) -> (r: Option<(RawJsonText, usize)>)
    ensures
        (match r {
            Some((t, end)) => spec_parse_rjt(data@, pos as int) == Some((t@, end as int)),
            None => spec_parse_rjt(data@, pos as int) is None,
        }),
{
    let n: usize = data.len();
    if pos >= n {
        return None;
    }
    let b: u8 = data[pos];
    if b == 0x22 {
        match parse_jstr(data, pos) {
            Some((bs, e)) => match bytes_to_string(bs) {
                Some(s) => Some((RawJsonText::String(s), e)),
                None => None,
            },
            None => None,
        }
    } else if b == 0x7b {
        let p1: usize = match expect_lit(data, pos, "{\"text\":") {
            Some(p) => p,
            None => { return None },
        };
        let (text, p2): (String, usize) = match parse_jstr(data, p1) {
            Some((bs, e)) => match bytes_to_string(bs) {
                Some(s) => (s, e),
                None => { return None },
            },
            None => { return None },
        };
        let p3: usize = match expect_lit(data, p2, ",\"type\":") {
            Some(p) => p,
            None => { return None },
        };
        let (kind, p4): (Option<String>, usize) = match parse_opt_str(data, p3) {
            Some(v) => v,
            None => { return None },
        };
        let p5: usize = match expect_lit(data, p4, ",\"extra\":") {
            Some(p) => p,
            None => { return None },
        };
        // A nested list of components is not read back.
        let p6: usize = match expect_lit(data, p5, "null") {
            Some(p) => p,
            None => { return None },
        };
        let p7: usize = match expect_lit(data, p6, ",\"color\":") {
            Some(p) => p,
            None => { return None },
        };
        let (color, p8): (Option<String>, usize) = match parse_opt_str(data, p7) {
            Some(v) => v,
            None => { return None },
        };
        let p9: usize = match expect_lit(data, p8, ",\"font\":") {
            Some(p) => p,
            None => { return None },
        };
        let (font, p10): (Option<String>, usize) = match parse_opt_str(data, p9) {
            Some(v) => v,
            None => { return None },
        };
        let p11: usize = match expect_lit(data, p10, ",\"bold\":") {
            Some(p) => p,
            None => { return None },
        };
        let (bold, p12): (Option<bool>, usize) = match parse_opt_bool(data, p11) {
            Some(v) => v,
            None => { return None },
        };
        let p13: usize = match expect_lit(data, p12, ",\"italic\":") {
            Some(p) => p,
            None => { return None },
        };
        let (italic, p14): (Option<bool>, usize) = match parse_opt_bool(data, p13) {
            Some(v) => v,
            None => { return None },
        };
        let p15: usize = match expect_lit(data, p14, ",\"underlined\":") {
            Some(p) => p,
            None => { return None },
        };
        let (underlined, p16): (Option<bool>, usize) = match parse_opt_bool(data, p15) {
            Some(v) => v,
            None => { return None },
        };
        let p17: usize = match expect_lit(data, p16, ",\"strikethrough\":") {
            Some(p) => p,
            None => { return None },
        };
        let (strikethrough, p18): (Option<bool>, usize) = match parse_opt_bool(data, p17) {
            Some(v) => v,
            None => { return None },
        };
        let p19: usize = match expect_lit(data, p18, ",\"obfuscated\":") {
            Some(p) => p,
            None => { return None },
        };
        let (obfuscated, p20): (Option<bool>, usize) = match parse_opt_bool(data, p19) {
            Some(v) => v,
            None => { return None },
        };
        let p21: usize = match expect_lit(data, p20, ",\"insertion\":") {
            Some(p) => p,
            None => { return None },
        };
        let (insertion, p22): (Option<String>, usize) = match parse_opt_str(data, p21) {
            Some(v) => v,
            None => { return None },
        };
        let p23: usize = match expect_lit(data, p22, "}") {
            Some(p) => p,
            None => { return None },
        };
        Some(
            (
                RawJsonText::Object(
                    Object {
                        text,
                        kind,
                        extra: None,
                        color,
                        font,
                        bold,
                        italic,
                        underlined,
                        strikethrough,
                        obfuscated,
                        insertion,
                    },
                ),
                p23,
            ),
        )
    } else {
        None
    }
}

/// True of a text value whose object form nests no `extra` list.
pub open spec fn rjt_flat(t: RawJsonText) -> bool {
    match t {
        RawJsonText::String(_) => true,
        RawJsonText::Object(o) => o.extra is None,
    }
}

/// Round trip for a bare string value.
proof fn lemma_parse_rjt_string_at(s: Seq<u8>, pos: int, text: String)
    requires
        0 <= pos,
        pos + spec_json_str(text@).len() <= s.len(),
        s.subrange(pos, pos + spec_json_str(text@).len()) == spec_json_str(text@),
    ensures
        spec_parse_rjt(s, pos) == Some(
            (RawJsonTextView::String(text@), pos + spec_json_str(text@).len()),
        ),
{
    broadcast use vstd::utf8::encode_utf8_valid_utf8, vstd::utf8::encode_utf8_decode_utf8;

    let j = spec_json_str(text@);
    assert(j[0] == 0x22);
    assert(s[pos] == j[0]) by {
        assert(j[0] == s.subrange(pos, pos + j.len())[0]);
    }
    lemma_parse_jstr_round(s, text@, pos);
}

/// Round trip: reading back a written text value gives its image, for
/// every value that nests no `extra` list (the reader does not take those
/// back).
#[verifier::rlimit(100)]
#[verifier::spinoff_prover]
pub proof fn lemma_parse_rjt_at(s: Seq<u8>, pos: int, t: RawJsonText)
    requires
        rjt_flat(t),
        0 <= pos,
        pos + spec_rjt_json(t).len() <= s.len(),
        s.subrange(pos, pos + spec_rjt_json(t).len()) == spec_rjt_json(t),
    ensures
        spec_parse_rjt(s, pos) == Some((rjt_view(t), pos + spec_rjt_json(t).len())),
{
    match t {
        RawJsonText::String(text) => {
            assert(spec_rjt_json(t) == spec_json_str(text@));
            lemma_parse_rjt_string_at(s, pos, text);
        },
        RawJsonText::Object(o) => {
            lemma_parse_obj_at(s, pos, o);
            let l1 = encode_utf8("{\"text\":"@);
            reveal_strlit("{\"text\":");
            lemma_ascii_bytes("{\"text\":");
            assert(l1[0] == 0x7b);
            assert(s[pos] == l1[0]) by {
                let w = spec_obj_json(o);
                assert(w[0] == s.subrange(pos, pos + w.len())[0]);
                assert(w[0] == l1[0]);
            }
            assert(spec_parse_rjt(s, pos) == spec_parse_obj(s, pos));
        },
    }
}

/// The opening of the object form reads back: text, then kind.
proof fn lemma_obj_group1(s: Seq<u8>, g: int, o: Object)
    requires
        0 <= g,
        g + spec_obj_p1(o).len() <= s.len(),
        s.subrange(g, g + spec_obj_p1(o).len()) == spec_obj_p1(o),
    ensures
        ({
            let l1 = encode_utf8("{\"text\":"@);
            let jt = spec_json_str(o.text@);
            let l2 = encode_utf8(",\"type\":"@);
            &&& lit_match(s, g, l1)
            &&& spec_parse_jstr(s, g + l1.len()) == Some(
                (encode_utf8(o.text@), g + l1.len() + jt.len()),
            )
            &&& lit_match(s, g + l1.len() + jt.len(), l2)
            &&& spec_parse_opt_str(s, g + l1.len() + jt.len() + l2.len()) == Some(
                (opt_str_view(o.kind), g + spec_obj_p1(o).len()),
            )
        }),
{
    let l1 = encode_utf8("{\"text\":"@);
    let jt = spec_json_str(o.text@);
    let l2 = encode_utf8(",\"type\":"@);
    let ks = spec_opt_str_json(opt_str_view(o.kind));
    lemma_split_window(s, g, l1, jt + (l2 + ks));
    let q1 = g + l1.len();
    lemma_split_window(s, q1, jt, l2 + ks);
    let q2 = q1 + jt.len();
    lemma_split_window(s, q2, l2, ks);
    let q3 = q2 + l2.len();
    lemma_parse_jstr_round(s, o.text@, q1);
    lemma_parse_opt_str_at(s, q3, opt_str_view(o.kind));
}

/// The middle of the object form reads back: the absent nested list, then
/// the colour.
proof fn lemma_obj_group2(s: Seq<u8>, g: int, o: Object)
    requires
        o.extra is None,
        0 <= g,
        g + spec_obj_p2(o).len() <= s.len(),
        s.subrange(g, g + spec_obj_p2(o).len()) == spec_obj_p2(o),
    ensures
        ({
            let lex = encode_utf8(",\"extra\":"@);
            let nul = encode_utf8("null"@);
            let lco = encode_utf8(",\"color\":"@);
            &&& lit_match(s, g, lex)
            &&& lit_match(s, g + lex.len(), nul)
            &&& lit_match(s, g + lex.len() + nul.len(), lco)
            &&& spec_parse_opt_str(s, g + lex.len() + nul.len() + lco.len()) == Some(
                (opt_str_view(o.color), g + spec_obj_p2(o).len()),
            )
        }),
{
    let lex = encode_utf8(",\"extra\":"@);
    let nul = encode_utf8("null"@);
    let lco = encode_utf8(",\"color\":"@);
    let cs = spec_opt_str_json(opt_str_view(o.color));
    assert(spec_extra_json(o.extra) == nul);
    lemma_split_window(s, g, lex, nul + (lco + cs));
    let q1 = g + lex.len();
    lemma_split_window(s, q1, nul, lco + cs);
    let q2 = q1 + nul.len();
    lemma_split_window(s, q2, lco, cs);
    let q3 = q2 + lco.len();
    lemma_parse_opt_str_at(s, q3, opt_str_view(o.color));
}

/// The font and the first two flags read back.
proof fn lemma_obj_group3(s: Seq<u8>, g: int, o: Object)
    requires
        0 <= g,
        g + spec_obj_p3(o).len() <= s.len(),
        s.subrange(g, g + spec_obj_p3(o).len()) == spec_obj_p3(o),
    ensures
        ({
            let lfo = encode_utf8(",\"font\":"@);
            let fs = spec_opt_str_json(opt_str_view(o.font));
            let lbo = encode_utf8(",\"bold\":"@);
            let bb = spec_opt_bool_json(o.bold);
            let lit = encode_utf8(",\"italic\":"@);
            &&& lit_match(s, g, lfo)
            &&& spec_parse_opt_str(s, g + lfo.len()) == Some(
                (opt_str_view(o.font), g + lfo.len() + fs.len()),
            )
            &&& lit_match(s, g + lfo.len() + fs.len(), lbo)
            &&& spec_parse_opt_bool(s, g + lfo.len() + fs.len() + lbo.len()) == Some(
                (o.bold, g + lfo.len() + fs.len() + lbo.len() + bb.len()),
            )
            &&& lit_match(s, g + lfo.len() + fs.len() + lbo.len() + bb.len(), lit)
            &&& spec_parse_opt_bool(
                s,
                g + lfo.len() + fs.len() + lbo.len() + bb.len() + lit.len(),
            ) == Some((o.italic, g + spec_obj_p3(o).len()))
        }),
{
    let lfo = encode_utf8(",\"font\":"@);
    let fs = spec_opt_str_json(opt_str_view(o.font));
    let lbo = encode_utf8(",\"bold\":"@);
    let bb = spec_opt_bool_json(o.bold);
    let lit = encode_utf8(",\"italic\":"@);
    let ib = spec_opt_bool_json(o.italic);
    lemma_split_window(s, g, lfo, fs + (lbo + (bb + (lit + ib))));
    let q1 = g + lfo.len();
    lemma_split_window(s, q1, fs, lbo + (bb + (lit + ib)));
    let q2 = q1 + fs.len();
    lemma_split_window(s, q2, lbo, bb + (lit + ib));
    let q3 = q2 + lbo.len();
    lemma_split_window(s, q3, bb, lit + ib);
    let q4 = q3 + bb.len();
    lemma_split_window(s, q4, lit, ib);
    let q5 = q4 + lit.len();
    lemma_parse_opt_str_at(s, q1, opt_str_view(o.font));
    lemma_parse_opt_bool_at(s, q3, o.bold);
    lemma_parse_opt_bool_at(s, q5, o.italic);
}

/// The underline and strikethrough flags read back.
proof fn lemma_obj_group4a(s: Seq<u8>, g: int, o: Object)
    requires
        0 <= g,
        g + spec_obj_p4a(o).len() <= s.len(),
        s.subrange(g, g + spec_obj_p4a(o).len()) == spec_obj_p4a(o),
    ensures
        ({
            let lun = encode_utf8(",\"underlined\":"@);
            let ub = spec_opt_bool_json(o.underlined);
            let lst = encode_utf8(",\"strikethrough\":"@);
            &&& lit_match(s, g, lun)
            &&& spec_parse_opt_bool(s, g + lun.len()) == Some(
                (o.underlined, g + lun.len() + ub.len()),
            )
            &&& lit_match(s, g + lun.len() + ub.len(), lst)
            &&& spec_parse_opt_bool(s, g + lun.len() + ub.len() + lst.len()) == Some(
                (o.strikethrough, g + spec_obj_p4a(o).len()),
            )
        }),
{
    let lun = encode_utf8(",\"underlined\":"@);
    let ub = spec_opt_bool_json(o.underlined);
    let lst = encode_utf8(",\"strikethrough\":"@);
    let sb = spec_opt_bool_json(o.strikethrough);
    lemma_split_window(s, g, lun, ub + (lst + sb));
    let q1 = g + lun.len();
    lemma_split_window(s, q1, ub, lst + sb);
    let q2 = q1 + ub.len();
    lemma_split_window(s, q2, lst, sb);
    let q3 = q2 + lst.len();
    lemma_parse_opt_bool_at(s, q1, o.underlined);
    lemma_parse_opt_bool_at(s, q3, o.strikethrough);
}

/// The obfuscation flag, the insertion, and the closing brace read back.
proof fn lemma_obj_group4b(s: Seq<u8>, g: int, o: Object)
    requires
        0 <= g,
        g + spec_obj_p4b(o).len() <= s.len(),
        s.subrange(g, g + spec_obj_p4b(o).len()) == spec_obj_p4b(o),
    ensures
        ({
            let lob = encode_utf8(",\"obfuscated\":"@);
            let ob = spec_opt_bool_json(o.obfuscated);
            let lin = encode_utf8(",\"insertion\":"@);
            let ins = spec_opt_str_json(opt_str_view(o.insertion));
            let lcl = encode_utf8("}"@);
            &&& lit_match(s, g, lob)
            &&& spec_parse_opt_bool(s, g + lob.len()) == Some(
                (o.obfuscated, g + lob.len() + ob.len()),
            )
            &&& lit_match(s, g + lob.len() + ob.len(), lin)
            &&& spec_parse_opt_str(s, g + lob.len() + ob.len() + lin.len()) == Some(
                (opt_str_view(o.insertion), g + lob.len() + ob.len() + lin.len() + ins.len()),
            )
            &&& lit_match(s, g + lob.len() + ob.len() + lin.len() + ins.len(), lcl)
        }),
{
    let lob = encode_utf8(",\"obfuscated\":"@);
    let ob = spec_opt_bool_json(o.obfuscated);
    let lin = encode_utf8(",\"insertion\":"@);
    let ins = spec_opt_str_json(opt_str_view(o.insertion));
    let lcl = encode_utf8("}"@);
    lemma_split_window(s, g, lob, ob + (lin + (ins + lcl)));
    let q1 = g + lob.len();
    lemma_split_window(s, q1, ob, lin + (ins + lcl));
    let q2 = q1 + ob.len();
    lemma_split_window(s, q2, lin, ins + lcl);
    let q3 = q2 + lin.len();
    lemma_split_window(s, q3, ins, lcl);
    let q4 = q3 + ins.len();
    lemma_parse_opt_bool_at(s, q1, o.obfuscated);
    lemma_parse_opt_str_at(s, q3, opt_str_view(o.insertion));
}

/// Round trip for the object form without a nested list.
#[verifier::rlimit(100)]
#[verifier::spinoff_prover]
proof fn lemma_parse_obj_at(s: Seq<u8>, pos: int, o: Object)
    requires
        o.extra is None,
        0 <= pos,
        pos + spec_obj_json(o).len() <= s.len(),
        s.subrange(pos, pos + spec_obj_json(o).len()) == spec_obj_json(o),
    ensures
        spec_parse_obj(s, pos) == Some(
            (RawJsonTextView::Object(obj_view(o)), pos + spec_obj_json(o).len()),
        ),
{
    broadcast use vstd::utf8::encode_utf8_valid_utf8, vstd::utf8::encode_utf8_decode_utf8;

    let p1 = spec_obj_p1(o);
    let p2 = spec_obj_p2(o);
    let p3 = spec_obj_p3(o);
    let p4 = spec_obj_p4(o);
    let p4a = spec_obj_p4a(o);
    let p4b = spec_obj_p4b(o);
    lemma_split_window(s, pos, p1, p2 + (p3 + p4));
    let r1 = pos + p1.len();
    lemma_split_window(s, r1, p2, p3 + p4);
    let r2 = r1 + p2.len();
    lemma_split_window(s, r2, p3, p4);
    let r3 = r2 + p3.len();
    lemma_split_window(s, r3, p4a, p4b);
    let r4 = r3 + p4a.len();
    lemma_obj_group1(s, pos, o);
    lemma_obj_group2(s, r1, o);
    lemma_obj_group3(s, r2, o);
    lemma_obj_group4a(s, r3, o);
    lemma_obj_group4b(s, r4, o);
    assert(spec_parse_obj(s, pos) == Some(
        (RawJsonTextView::Object(obj_view(o)), pos + spec_obj_json(o).len()),
    ));
}

// ---------------------------------------------------------------------------
// Reading foreign layouts
// ---------------------------------------------------------------------------
/// After one member's value: a comma continues the object, a closing
/// brace ends it.
pub open spec fn spec_member_sep(s: Seq<u8>, pos: int) -> Option<(bool, int)> {
    let p = ws_end(s, pos);
    if !(0 <= pos <= p && p < s.len()) {
        None
    } else if s[p] == 0x2c {
        Some((true, p + 1))
    } else if s[p] == 0x7d {
        Some((false, p + 1))
    } else {
        None
    }
}

/// After one array item: a comma continues the array, a closing bracket
/// ends it.
pub open spec fn spec_item_sep(s: Seq<u8>, pos: int) -> Option<(bool, int)> {
    let p = ws_end(s, pos);
    if !(0 <= pos <= p && p < s.len()) {
        None
    } else if s[p] == 0x2c {
        Some((true, p + 1))
    } else if s[p] == 0x5d {
        Some((false, p + 1))
    } else {
        None
    }
}

/// Reads the separator after a member.
pub fn member_sep(data: &Vec<u8>, pos: usize) -> (r: Option<(bool, usize)>)
    requires
        pos <= data@.len(),
    ensures
        (match r {
            Some((more, q)) => spec_member_sep(data@, pos as int) == Some((more, q as int)) && pos
                < q <= data@.len(),
            None => spec_member_sep(data@, pos as int) is None,
        }),
{
    let p: usize = skip_ws(data, pos);
    if p >= data.len() {
        return None;
    }
    if data[p] == 0x2c {
        Some((true, p + 1))
    } else if data[p] == 0x7d {
        Some((false, p + 1))
    } else {
        None
    }
}

/// Reads the separator after an array item.
pub fn item_sep(data: &Vec<u8>, pos: usize) -> (r: Option<(bool, usize)>)
    requires
        pos <= data@.len(),
    ensures
        (match r {
            Some((more, q)) => spec_item_sep(data@, pos as int) == Some((more, q as int)) && pos
                < q <= data@.len(),
            None => spec_item_sep(data@, pos as int) is None,
        }),
{
    let p: usize = skip_ws(data, pos);
    if p >= data.len() {
        return None;
    }
    if data[p] == 0x2c {
        Some((true, p + 1))
    } else if data[p] == 0x5d {
        Some((false, p + 1))
    } else {
        None
    }
}

/// An object view with nothing set: what a foreign component's walk
/// starts from.
pub open spec fn empty_object_view() -> ObjectView {
    ObjectView {
        text: Seq::empty(),
        kind: None,
        extra: None,
        color: None,
        font: None,
        bold: None,
        italic: None,
        underlined: None,
        strikethrough: None,
        obfuscated: None,
        insertion: None,
    }
}

/// What reading one text value in a foreign document's own layout yields:
/// a bare string, or an object whose members may come in any order, with
/// whitespace, unknown members, and nested `extra` lists tolerated (the
/// latter are skipped, not taken back).
pub open spec fn spec_walk_text_value(s: Seq<u8>, pos: int) -> Option<(RawJsonTextView, int)>
    decreases s.len() - pos, 2int,
{
    let p = ws_end(s, pos);
    if !(0 <= pos <= p && p < s.len()) {
        None
    } else if s[p] == 0x22 {
        match spec_parse_jstr(s, p) {
            Some((bs, e)) => if valid_utf8(bs) {
                Some((RawJsonTextView::String(decode_utf8(bs)), e))
            } else {
                None
            },
            None => None,
        }
    } else if s[p] == 0x7b {
        spec_walk_component(s, p + 1, empty_object_view(), false)
    } else {
        None
    }
}

/// Walks a component object's members from `pos`, just past `{` or a
/// comma, folding them into `o`; `has_text` records whether the required
/// text member was seen.
pub open spec fn spec_walk_component(s: Seq<u8>, pos: int, o: ObjectView, has_text: bool) -> Option<
    (RawJsonTextView, int),
>
    decreases s.len() - pos, 1int,
{
    let p = ws_end(s, pos);
    if !(0 <= pos <= p && p < s.len()) {
        None
    } else if s[p] == 0x7d {
        if has_text {
            Some((RawJsonTextView::Object(o), p + 1))
        } else {
            None
        }
    } else {
        match spec_parse_jstr(s, p) {
            Some((kb, p1)) => if !(p < p1) {
                None
            } else {
                let p2 = ws_end(s, p1);
                if !(p1 <= p2 && p2 < s.len() && s[p2] == 0x3a) {
                    None
                } else {
                    let pv = ws_end(s, p2 + 1);
                    if !(p2 + 1 <= pv && pv <= s.len()) {
                        None
                    } else if kb == encode_utf8("text"@) {
                        match spec_parse_jstr(s, pv) {
                            Some((bs, e)) => if valid_utf8(bs) {
                                spec_walk_component_tail(
                                    s,
                                    e,
                                    ObjectView { text: decode_utf8(bs), ..o },
                                    true,
                                    pos,
                                )
                            } else {
                                None
                            },
                            None => None,
                        }
                    } else if kb == encode_utf8("type"@) {
                        match spec_parse_opt_str(s, pv) {
                            Some((x, e)) => spec_walk_component_tail(
                                s,
                                e,
                                ObjectView { kind: x, ..o },
                                has_text,
                                pos,
                            ),
                            None => None,
                        }
                    } else if kb == encode_utf8("color"@) {
                        match spec_parse_opt_str(s, pv) {
                            Some((x, e)) => spec_walk_component_tail(
                                s,
                                e,
                                ObjectView { color: x, ..o },
                                has_text,
                                pos,
                            ),
                            None => None,
                        }
                    } else if kb == encode_utf8("font"@) {
                        match spec_parse_opt_str(s, pv) {
                            Some((x, e)) => spec_walk_component_tail(
                                s,
                                e,
                                ObjectView { font: x, ..o },
                                has_text,
                                pos,
                            ),
                            None => None,
                        }
                    } else if kb == encode_utf8("insertion"@) {
                        match spec_parse_opt_str(s, pv) {
                            Some((x, e)) => spec_walk_component_tail(
                                s,
                                e,
                                ObjectView { insertion: x, ..o },
                                has_text,
                                pos,
                            ),
                            None => None,
                        }
                    } else if kb == encode_utf8("bold"@) {
                        match spec_parse_opt_bool(s, pv) {
                            Some((x, e)) => spec_walk_component_tail(
                                s,
                                e,
                                ObjectView { bold: x, ..o },
                                has_text,
                                pos,
                            ),
                            None => None,
                        }
                    } else if kb == encode_utf8("italic"@) {
                        match spec_parse_opt_bool(s, pv) {
                            Some((x, e)) => spec_walk_component_tail(
                                s,
                                e,
                                ObjectView { italic: x, ..o },
                                has_text,
                                pos,
                            ),
                            None => None,
                        }
                    } else if kb == encode_utf8("underlined"@) {
                        match spec_parse_opt_bool(s, pv) {
                            Some((x, e)) => spec_walk_component_tail(
                                s,
                                e,
                                ObjectView { underlined: x, ..o },
                                has_text,
                                pos,
                            ),
                            None => None,
                        }
                    } else if kb == encode_utf8("strikethrough"@) {
                        match spec_parse_opt_bool(s, pv) {
                            Some((x, e)) => spec_walk_component_tail(
                                s,
                                e,
                                ObjectView { strikethrough: x, ..o },
                                has_text,
                                pos,
                            ),
                            None => None,
                        }
                    } else if kb == encode_utf8("obfuscated"@) {
                        match spec_parse_opt_bool(s, pv) {
                            Some((x, e)) => spec_walk_component_tail(
                                s,
                                e,
                                ObjectView { obfuscated: x, ..o },
                                has_text,
                                pos,
                            ),
                            None => None,
                        }
                    } else {
                        // An unknown member, or a nested `extra` list: its
                        // value is skipped, not taken back.
                        match spec_skip_value(s, pv) {
                            Some(e) => spec_walk_component_tail(s, e, o, has_text, pos),
                            None => None,
                        }
                    }
                }
            },
            None => None,
        }
    }
}

/// The separator step of the component walk.
pub open spec fn spec_walk_component_tail(
    s: Seq<u8>,
    pos: int,
    o: ObjectView,
    has_text: bool,
    entry: int,
) -> Option<(RawJsonTextView, int)>
    decreases s.len() - entry, 0int,
{
    if !(0 <= entry < pos && pos <= s.len()) {
        None
    } else {
        match spec_member_sep(s, pos) {
            Some((more, q)) => if !(pos < q && q <= s.len()) {
                None
            } else if more {
                spec_walk_component(s, q, o, has_text)
            } else if has_text {
                Some((RawJsonTextView::Object(o), q))
            } else {
                None
            },
            None => None,
        }
    }
}

/// Reads one text value in a foreign document's own layout.
pub fn walk_text_value(data: &Vec<u8>, pos: usize) -> (r: Option<(RawJsonText, usize)>)
    requires
        pos <= data@.len(),
    ensures
        (match r {
            Some((t, end)) => spec_walk_text_value(data@, pos as int) == Some((t@, end as int))
                && pos < end <= data@.len(),
            None => spec_walk_text_value(data@, pos as int) is None,
        }),
    decreases data@.len() - pos, 2int,
{
    let p: usize = skip_ws(data, pos);
    if p >= data.len() {
        return None;
    }
    let b: u8 = data[p];
    if b == 0x22 {
        match parse_jstr(data, p) {
            Some((bs, e)) => {
                proof {
                    crate::json::lemma_parse_jstr_end(data@, p as int);
                }
                match bytes_to_string(bs) {
                    Some(text) => Some((RawJsonText::String(text), e)),
                    None => None,
                }
            },
            None => None,
        }
    } else if b == 0x7b {
        let o0 = Object {
            text: String::new(),
            kind: None,
            extra: None,
            color: None,
            font: None,
            bold: None,
            italic: None,
            underlined: None,
            strikethrough: None,
            obfuscated: None,
            insertion: None,
        };
        proof {
            assert(obj_view(o0) =~= empty_object_view());
        }
        walk_component(data, p + 1, o0, false)
    } else {
        None
    }
}

/// Walks a component object's members.
fn walk_component(data: &Vec<u8>, pos: usize, o: Object, has_text: bool) -> (r: Option<
    (RawJsonText, usize),
>)
    requires
        pos <= data@.len(),
        o.extra is None,
    ensures
        (match r {
            Some((t, end)) => spec_walk_component(data@, pos as int, obj_view(o), has_text)
                == Some((t@, end as int)) && pos < end <= data@.len(),
            None => spec_walk_component(data@, pos as int, obj_view(o), has_text) is None,
        }),
    decreases data@.len() - pos, 1int,
{
    let p: usize = skip_ws(data, pos);
    if p >= data.len() {
        return None;
    }
    if data[p] == 0x7d {
        if has_text {
            return Some((RawJsonText::Object(o), p + 1));
        }
        return None;
    }
    let (kb, p1): (Vec<u8>, usize) = match parse_jstr(data, p) {
        Some(v) => v,
        None => { return None },
    };
    proof {
        crate::json::lemma_parse_jstr_end(data@, p as int);
    }
    let p2: usize = skip_ws(data, p1);
    if p2 >= data.len() || data[p2] != 0x3a {
        return None;
    }
    let pv: usize = skip_ws(data, p2 + 1);
    if bytes_eq_lit(&kb, "text") {
        match parse_jstr(data, pv) {
            Some((bs, e)) => {
                proof {
                    crate::json::lemma_parse_jstr_end(data@, pv as int);
                }
                match bytes_to_string(bs) {
                    Some(text) => walk_component_tail(data, e, Object { text, ..o }, true, pos),
                    None => None,
                }
            },
            None => None,
        }
    } else if bytes_eq_lit(&kb, "type") {
        match parse_opt_str(data, pv) {
            Some((x, e)) => {
                proof {
                    lemma_parse_opt_str_end(data@, pv as int);
                }
                walk_component_tail(data, e, Object { kind: x, ..o }, has_text, pos)
            },
            None => None,
        }
    } else if bytes_eq_lit(&kb, "color") {
        match parse_opt_str(data, pv) {
            Some((x, e)) => {
                proof {
                    lemma_parse_opt_str_end(data@, pv as int);
                }
                walk_component_tail(data, e, Object { color: x, ..o }, has_text, pos)
            },
            None => None,
        }
    } else if bytes_eq_lit(&kb, "font") {
        match parse_opt_str(data, pv) {
            Some((x, e)) => {
                proof {
                    lemma_parse_opt_str_end(data@, pv as int);
                }
                walk_component_tail(data, e, Object { font: x, ..o }, has_text, pos)
            },
            None => None,
        }
    } else if bytes_eq_lit(&kb, "insertion") {
        match parse_opt_str(data, pv) {
            Some((x, e)) => {
                proof {
                    lemma_parse_opt_str_end(data@, pv as int);
                }
                walk_component_tail(data, e, Object { insertion: x, ..o }, has_text, pos)
            },
            None => None,
        }
    } else if bytes_eq_lit(&kb, "bold") {
        match parse_opt_bool(data, pv) {
            Some((x, e)) => {
                proof {
                    lemma_parse_opt_bool_end(data@, pv as int);
                }
                walk_component_tail(data, e, Object { bold: x, ..o }, has_text, pos)
            },
            None => None,
        }
    } else if bytes_eq_lit(&kb, "italic") {
        match parse_opt_bool(data, pv) {
            Some((x, e)) => {
                proof {
                    lemma_parse_opt_bool_end(data@, pv as int);
                }
                walk_component_tail(data, e, Object { italic: x, ..o }, has_text, pos)
            },
            None => None,
        }
    } else if bytes_eq_lit(&kb, "underlined") {
        match parse_opt_bool(data, pv) {
            Some((x, e)) => {
                proof {
                    lemma_parse_opt_bool_end(data@, pv as int);
                }
                walk_component_tail(data, e, Object { underlined: x, ..o }, has_text, pos)
            },
            None => None,
        }
    } else if bytes_eq_lit(&kb, "strikethrough") {
        match parse_opt_bool(data, pv) {
            Some((x, e)) => {
                proof {
                    lemma_parse_opt_bool_end(data@, pv as int);
                }
                walk_component_tail(data, e, Object { strikethrough: x, ..o }, has_text, pos)
            },
            None => None,
        }
    } else if bytes_eq_lit(&kb, "obfuscated") {
        match parse_opt_bool(data, pv) {
            Some((x, e)) => {
                proof {
                    lemma_parse_opt_bool_end(data@, pv as int);
                }
                walk_component_tail(data, e, Object { obfuscated: x, ..o }, has_text, pos)
            },
            None => None,
        }
    } else {
        match skip_value(data, pv) {
            Some(e) => walk_component_tail(data, e, o, has_text, pos),
            None => None,
        }
    }
}

/// The separator step of the component walk.
fn walk_component_tail(data: &Vec<u8>, pos: usize, o: Object, has_text: bool, entry: usize) -> (r:
    Option<(RawJsonText, usize)>)
    requires
        entry < pos <= data@.len(),
        o.extra is None,
    ensures
        (match r {
            Some((t, end)) => spec_walk_component_tail(
                data@,
                pos as int,
                obj_view(o),
                has_text,
                entry as int,
            ) == Some((t@, end as int)) && pos <= end <= data@.len() && entry < end,
            None => spec_walk_component_tail(
                data@,
                pos as int,
                obj_view(o),
                has_text,
                entry as int,
            ) is None,
        }),
    decreases data@.len() - entry, 0int,
{
    match member_sep(data, pos) {
        Some((more, q)) => if more {
            walk_component(data, q, o, has_text)
        } else if has_text {
            Some((RawJsonText::Object(o), q))
        } else {
            None
        },
        None => None,
    }
}

/// An optional string value read at `pos` ends past where it began and
/// within the input.
pub proof fn lemma_parse_opt_str_end(s: Seq<u8>, pos: int)
    requires
        0 <= pos,
    ensures
        (match spec_parse_opt_str(s, pos) {
            Some((_x, e)) => pos < e <= s.len(),
            None => true,
        }),
{
    crate::json::lemma_parse_jstr_end(s, pos);
    reveal_strlit("null");
    crate::json::lemma_ascii_bytes("null");
}

/// An optional boolean read at `pos` ends past where it began and within
/// the input.
pub proof fn lemma_parse_opt_bool_end(s: Seq<u8>, pos: int)
    requires
        0 <= pos,
    ensures
        (match spec_parse_opt_bool(s, pos) {
            Some((_x, e)) => pos < e <= s.len(),
            None => true,
        }),
{
    reveal_strlit("null");
    reveal_strlit("true");
    reveal_strlit("false");
    crate::json::lemma_ascii_bytes("null");
    crate::json::lemma_ascii_bytes("true");
    crate::json::lemma_ascii_bytes("false");
}

} // verus!
