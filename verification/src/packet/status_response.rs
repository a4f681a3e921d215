use vstd::prelude::*;
use vstd::utf8::encode_utf8;

use vstd::utf8::{decode_utf8, valid_utf8};

use crate::error::Error;
use crate::json::{bytes_eq_lit, skip_value, skip_ws, spec_skip_value, ws_end, is_digit,
    parse_opt_str, spec_parse_opt_str, lemma_ascii_bytes, lemma_first_byte_mismatch,
    lemma_parse_dec_at, lemma_parse_i32_at, lemma_parse_jstr_round, lemma_split_window, lit_match,
    opt_str_view, spec_dec, spec_i32_dec, spec_json_str, spec_parse_dec, spec_parse_i32,
    spec_parse_jstr, expect_lit, parse_i32, parse_jstr, parse_u64, write_i32_dec,
    write_json_string, write_usize_dec};
use crate::packet::{PacketDecoder, PacketEncoder};
use crate::varint::{spec_read_varint, spec_varint, read_varint, write_varint,
    lemma_read_spec_varint, lemma_spec_varint_len};
use crate::raw_json_text::{after_lit, item_sep, member_sep, spec_item_sep, spec_member_sep,
    spec_walk_text_value, walk_text_value, lemma_parse_rjt_at, spec_parse_rjt, parse_rjt, rjt_flat,
    spec_rjt_json, write_rjt, RawJsonText, RawJsonTextView, rjt_view};
use crate::text::{bytes_to_string, string_bytes};

verus! {

/// The status document a server answers a status request with.
#[derive(Debug)]
pub struct StatusResponse {
    pub version: Version,
    pub players: Players,
    pub description: RawJsonText,
    pub favicon: Option<String>,
    pub modinfo: Option<Modinfo>,
}

/// The server software's name and protocol number.
#[derive(Debug)]
pub struct Version {
    pub name: String,
    pub protocol: i32,
}

/// The player counts, and perhaps a sample of who is online.
#[derive(Debug)]
pub struct Players {
    pub max: usize,
    pub online: usize,
    pub sample: Option<Vec<SamplePlayer>>,
}

/// One sampled player: a name and a unique id, written as text.
#[derive(Debug)]
pub struct SamplePlayer {
    pub name: String,
    pub id: String,
}

/// The mod loader's self-description.  The field written as `type` on the
/// wire is named `kind` here, since `type` is a keyword.
#[derive(Debug)]
pub struct Modinfo {
    pub mod_list: Vec<String>,
    pub kind: String,
}

/// The mathematical image of a status document.
#[verifier::ext_equal]
pub ghost struct StatusResponseView {
    pub version: VersionView,
    pub players: PlayersView,
    pub description: RawJsonTextView,
    pub favicon: Option<Seq<char>>,
    pub modinfo: Option<ModinfoView>,
}

#[verifier::ext_equal]
pub ghost struct VersionView {
    pub name: Seq<char>,
    pub protocol: i32,
}

#[verifier::ext_equal]
pub ghost struct PlayersView {
    pub max: usize,
    pub online: usize,
    pub sample: Option<Seq<SamplePlayerView>>,
}

#[verifier::ext_equal]
pub ghost struct SamplePlayerView {
    pub name: Seq<char>,
    pub id: Seq<char>,
}

#[verifier::ext_equal]
pub ghost struct ModinfoView {
    pub mod_list: Seq<Seq<char>>,
    pub kind: Seq<char>,
}

impl View for Version {
    type V = VersionView;

    open spec fn view(&self) -> VersionView {
        VersionView { name: self.name@, protocol: self.protocol }
    }
}

impl View for SamplePlayer {
    type V = SamplePlayerView;

    open spec fn view(&self) -> SamplePlayerView {
        SamplePlayerView { name: self.name@, id: self.id@ }
    }
}

/// The images of a sample list.
pub open spec fn sample_seq_view(v: Seq<SamplePlayer>) -> Seq<SamplePlayerView>
    decreases v,
{
    if v.len() == 0 {
        Seq::empty()
    } else {
        seq![v[0]@] + sample_seq_view(v.subrange(1, v.len() as int))
    }
}

/// The images of a list of strings.
pub open spec fn str_seq_view(v: Seq<String>) -> Seq<Seq<char>>
    decreases v,
{
    if v.len() == 0 {
        Seq::empty()
    } else {
        seq![v[0]@] + str_seq_view(v.subrange(1, v.len() as int))
    }
}

impl View for Players {
    type V = PlayersView;

    open spec fn view(&self) -> PlayersView {
        PlayersView {
            max: self.max,
            online: self.online,
            sample: match self.sample {
                Some(v) => Some(sample_seq_view(v@)),
                None => None,
            },
        }
    }
}

impl View for Modinfo {
    type V = ModinfoView;

    open spec fn view(&self) -> ModinfoView {
        ModinfoView { mod_list: str_seq_view(self.mod_list@), kind: self.kind@ }
    }
}

impl View for StatusResponse {
    type V = StatusResponseView;

    open spec fn view(&self) -> StatusResponseView {
        StatusResponseView {
            version: self.version@,
            players: self.players@,
            description: rjt_view(self.description),
            favicon: opt_str_view(self.favicon),
            modinfo: match self.modinfo {
                Some(m) => Some(m@),
                None => None,
            },
        }
    }
}

// ---------------------------------------------------------------------------
// The document's serialized form
// ---------------------------------------------------------------------------
/// The serialized document.
pub open spec fn spec_status_json(r: StatusResponse) -> Seq<u8> {
    spec_status_front(r) + spec_status_back(r)
}

/// The version and players objects, with the sample.
pub open spec fn spec_status_front(r: StatusResponse) -> Seq<u8> {
    spec_status_g1(r) + (spec_status_g2(r) + spec_status_g3(r))
}

/// The description, the favicon, the mod description, and the close.
pub open spec fn spec_status_back(r: StatusResponse) -> Seq<u8> {
    spec_status_g4(r) + (spec_status_g5(r) + (spec_status_g6(r) + encode_utf8("}"@)))
}

/// The version object: name and protocol.
pub open spec fn spec_status_g1(r: StatusResponse) -> Seq<u8> {
    encode_utf8("{\"version\":{\"name\":"@) + (spec_json_str(r.version.name@) + (encode_utf8(
        ",\"protocol\":"@,
    ) + spec_i32_dec(r.version.protocol)))
}

/// The player counts.
pub open spec fn spec_status_g2(r: StatusResponse) -> Seq<u8> {
    encode_utf8("},\"players\":{\"max\":"@) + (spec_dec(r.players.max as nat) + (encode_utf8(
        ",\"online\":"@,
    ) + spec_dec(r.players.online as nat)))
}

/// The sample of players online, where one is given.
pub open spec fn spec_status_g3(r: StatusResponse) -> Seq<u8> {
    match r.players.sample {
        None => Seq::empty(),
        Some(v) => encode_utf8(",\"sample\":["@) + (spec_sample_list_json(v@) + encode_utf8(
            "]"@,
        )),
    }
}

/// The description, closing the players object first.
pub open spec fn spec_status_g4(r: StatusResponse) -> Seq<u8> {
    encode_utf8("},\"description\":"@) + spec_rjt_json(r.description)
}

/// The favicon, where one is given.
pub open spec fn spec_status_g5(r: StatusResponse) -> Seq<u8> {
    match r.favicon {
        None => Seq::empty(),
        Some(f) => encode_utf8(",\"favicon\":"@) + spec_json_str(f@),
    }
}

/// The mod loader's description, where one is given.
pub open spec fn spec_status_g6(r: StatusResponse) -> Seq<u8> {
    match r.modinfo {
        None => Seq::empty(),
        Some(m) => encode_utf8(",\"modinfo\":{\"modList\":["@) + (spec_str_list_json(
            m.mod_list@,
        ) + (encode_utf8("],\"type\":"@) + (spec_json_str(m.kind@) + encode_utf8("}"@)))),
    }
}

/// Sampled players, joined by commas.
pub open spec fn spec_sample_list_json(v: Seq<SamplePlayer>) -> Seq<u8>
    decreases v,
{
    if v.len() == 0 {
        Seq::empty()
    } else if v.len() == 1 {
        spec_sample_json(v[0])
    } else {
        spec_sample_json(v[0]) + encode_utf8(","@) + spec_sample_list_json(
            v.subrange(1, v.len() as int),
        )
    }
}

/// One sampled player.
pub open spec fn spec_sample_json(p: SamplePlayer) -> Seq<u8> {
    encode_utf8("{\"name\":"@) + (spec_json_str(p.name@) + (encode_utf8(",\"id\":"@) + (
    spec_json_str(p.id@) + encode_utf8("}"@))))
}

/// Strings, joined by commas.
pub open spec fn spec_str_list_json(v: Seq<String>) -> Seq<u8>
    decreases v,
{
    if v.len() == 0 {
        Seq::empty()
    } else if v.len() == 1 {
        spec_json_str(v[0]@)
    } else {
        spec_json_str(v[0]@) + encode_utf8(","@) + spec_str_list_json(
            v.subrange(1, v.len() as int),
        )
    }
}

/// Appends the serialized document.
pub fn write_status_json(r: &StatusResponse, out: &mut Vec<u8>)
    ensures
        final(out)@ == old(out)@ + spec_status_json(*r),
{
    write_status_front(r, out);
    write_status_back(r, out);
    assert(final(out)@ =~= old(out)@ + spec_status_json(*r));
}

/// Appends the version and players objects, with the sample.
fn write_status_front(r: &StatusResponse, out: &mut Vec<u8>)
    ensures
        final(out)@ == old(out)@ + spec_status_front(*r),
{
    write_status_g1(r, out);
    write_status_g2(r, out);
    write_status_g3(r, out);
    assert(final(out)@ =~= old(out)@ + spec_status_front(*r));
}

/// Appends the description, the favicon, the mod description, and the
/// close.
fn write_status_back(r: &StatusResponse, out: &mut Vec<u8>)
    ensures
        final(out)@ == old(out)@ + spec_status_back(*r),
{
    write_status_g4(r, out);
    write_status_g5(r, out);
    write_status_g6(r, out);
    let mut lit: Vec<u8> = string_bytes("}");
    out.append(&mut lit);
    assert(final(out)@ =~= old(out)@ + spec_status_back(*r));
}

/// Appends the version object.
fn write_status_g1(r: &StatusResponse, out: &mut Vec<u8>)
    ensures
        final(out)@ == old(out)@ + spec_status_g1(*r),
{
    let mut lit: Vec<u8> = string_bytes("{\"version\":{\"name\":");
    out.append(&mut lit);
    write_json_string(r.version.name.as_str(), out);
    let mut lit: Vec<u8> = string_bytes(",\"protocol\":");
    out.append(&mut lit);
    write_i32_dec(r.version.protocol, out);
    assert(final(out)@ =~= old(out)@ + spec_status_g1(*r));
}

/// Appends the player counts.
fn write_status_g2(r: &StatusResponse, out: &mut Vec<u8>)
    ensures
        final(out)@ == old(out)@ + spec_status_g2(*r),
{
    let mut lit: Vec<u8> = string_bytes("},\"players\":{\"max\":");
    out.append(&mut lit);
    write_usize_dec(r.players.max, out);
    let mut lit: Vec<u8> = string_bytes(",\"online\":");
    out.append(&mut lit);
    write_usize_dec(r.players.online, out);
    assert(final(out)@ =~= old(out)@ + spec_status_g2(*r));
}

/// Appends the sample, where one is given.
fn write_status_g3(r: &StatusResponse, out: &mut Vec<u8>)
    ensures
        final(out)@ == old(out)@ + spec_status_g3(*r),
{
    match &r.players.sample {
        None => {
            assert(final(out)@ =~= old(out)@ + spec_status_g3(*r));
        },
        Some(v) => {
            let mut lit: Vec<u8> = string_bytes(",\"sample\":[");
            out.append(&mut lit);
            write_sample_list(v, 0, out);
            let mut lit: Vec<u8> = string_bytes("]");
            out.append(&mut lit);
            proof {
                assert(v@.subrange(0, v@.len() as int) =~= v@);
                assert(final(out)@ =~= old(out)@ + spec_status_g3(*r));
            }
        },
    }
}

/// Appends the sampled players from `from` on, joined by commas.
fn write_sample_list(v: &Vec<SamplePlayer>, from: usize, out: &mut Vec<u8>)
    requires
        from <= v@.len(),
    ensures
        final(out)@ == old(out)@ + spec_sample_list_json(
            v@.subrange(from as int, v@.len() as int),
        ),
    decreases v@.len() - from,
{
    let n: usize = v.len();
    if from < n {
        write_sample(&v[from], out);
        if from + 1 < n {
            let mut lit: Vec<u8> = string_bytes(",");
            out.append(&mut lit);
            write_sample_list(v, from + 1, out);
        }
    }
    proof {
        let w = v@.subrange(from as int, v@.len() as int);
        if from < v@.len() {
            assert(w[0] == v@[from as int]);
            if from + 1 < v@.len() {
                assert(w.subrange(1, w.len() as int) =~= v@.subrange(
                    from as int + 1,
                    v@.len() as int,
                ));
            }
        }
        assert(final(out)@ =~= old(out)@ + spec_sample_list_json(w));
    }
}

/// Appends one sampled player.
fn write_sample(p: &SamplePlayer, out: &mut Vec<u8>)
    ensures
        final(out)@ == old(out)@ + spec_sample_json(*p),
{
    let mut lit: Vec<u8> = string_bytes("{\"name\":");
    out.append(&mut lit);
    write_json_string(p.name.as_str(), out);
    let mut lit: Vec<u8> = string_bytes(",\"id\":");
    out.append(&mut lit);
    write_json_string(p.id.as_str(), out);
    let mut lit: Vec<u8> = string_bytes("}");
    out.append(&mut lit);
    assert(final(out)@ =~= old(out)@ + spec_sample_json(*p));
}

/// Appends the description.
fn write_status_g4(r: &StatusResponse, out: &mut Vec<u8>)
    ensures
        final(out)@ == old(out)@ + spec_status_g4(*r),
{
    let mut lit: Vec<u8> = string_bytes("},\"description\":");
    out.append(&mut lit);
    write_rjt(&r.description, out);
    assert(final(out)@ =~= old(out)@ + spec_status_g4(*r));
}

/// Appends the favicon, where one is given.
fn write_status_g5(r: &StatusResponse, out: &mut Vec<u8>)
    ensures
        final(out)@ == old(out)@ + spec_status_g5(*r),
{
    match &r.favicon {
        None => {
            assert(final(out)@ =~= old(out)@ + spec_status_g5(*r));
        },
        Some(f) => {
            let mut lit: Vec<u8> = string_bytes(",\"favicon\":");
            out.append(&mut lit);
            write_json_string(f.as_str(), out);
            assert(final(out)@ =~= old(out)@ + spec_status_g5(*r));
        },
    }
}

/// Appends the mod loader's description, where one is given.
fn write_status_g6(r: &StatusResponse, out: &mut Vec<u8>)
    ensures
        final(out)@ == old(out)@ + spec_status_g6(*r),
{
    match &r.modinfo {
        None => {
            assert(final(out)@ =~= old(out)@ + spec_status_g6(*r));
        },
        Some(m) => {
            let mut lit: Vec<u8> = string_bytes(",\"modinfo\":{\"modList\":[");
            out.append(&mut lit);
            write_str_list(&m.mod_list, 0, out);
            let mut lit: Vec<u8> = string_bytes("],\"type\":");
            out.append(&mut lit);
            write_json_string(m.kind.as_str(), out);
            let mut lit: Vec<u8> = string_bytes("}");
            out.append(&mut lit);
            proof {
                assert(m.mod_list@.subrange(0, m.mod_list@.len() as int) =~= m.mod_list@);
                assert(final(out)@ =~= old(out)@ + spec_status_g6(*r));
            }
        },
    }
}

/// Appends the strings from `from` on, joined by commas.
fn write_str_list(v: &Vec<String>, from: usize, out: &mut Vec<u8>)
    requires
        from <= v@.len(),
    ensures
        final(out)@ == old(out)@ + spec_str_list_json(v@.subrange(from as int, v@.len() as int)),
    decreases v@.len() - from,
{
    let n: usize = v.len();
    if from < n {
        write_json_string(v[from].as_str(), out);
        if from + 1 < n {
            let mut lit: Vec<u8> = string_bytes(",");
            out.append(&mut lit);
            write_str_list(v, from + 1, out);
        }
    }
    proof {
        let w = v@.subrange(from as int, v@.len() as int);
        if from < v@.len() {
            assert(w[0] == v@[from as int]);
            if from + 1 < v@.len() {
                assert(w.subrange(1, w.len() as int) =~= v@.subrange(
                    from as int + 1,
                    v@.len() as int,
                ));
            }
        }
        assert(final(out)@ =~= old(out)@ + spec_str_list_json(w));
    }
}

// ---------------------------------------------------------------------------
// Reading the document back
// ---------------------------------------------------------------------------
/// What reading a status document laid out exactly as this library writes
/// it yields.  Documents in any other layout are read by the walk below.
pub open spec fn spec_parse_status(s: Seq<u8>, pos: int) -> Option<(StatusResponseView, int)> {
    match after_lit(s, pos, encode_utf8("{\"version\":{\"name\":"@)) {
        Some(p1) => match spec_parse_jstr(s, p1) {
            Some((nb, p2)) => if valid_utf8(nb) {
                spec_parse_status_protocol(s, p2, decode_utf8(nb))
            } else {
                None
            },
            None => None,
        },
        None => None,
    }
}

/// ... then the protocol number.
pub open spec fn spec_parse_status_protocol(s: Seq<u8>, pos: int, name: Seq<char>) -> Option<
    (StatusResponseView, int),
> {
    match after_lit(s, pos, encode_utf8(",\"protocol\":"@)) {
        Some(p1) => match spec_parse_i32(s, p1) {
            Some((protocol, p2)) => spec_parse_status_max(s, p2, name, protocol),
            None => None,
        },
        None => None,
    }
}

/// ... then the player limit.
pub open spec fn spec_parse_status_max(
    s: Seq<u8>,
    pos: int,
    name: Seq<char>,
    protocol: i32,
) -> Option<(StatusResponseView, int)> {
    match after_lit(s, pos, encode_utf8("},\"players\":{\"max\":"@)) {
        Some(p1) => match spec_parse_dec(s, p1) {
            Some((max, p2)) => if 0 <= max <= usize::MAX {
                spec_parse_status_online(s, p2, name, protocol, max as usize)
            } else {
                None
            },
            None => None,
        },
        None => None,
    }
}

/// ... then the online count.
pub open spec fn spec_parse_status_online(
    s: Seq<u8>,
    pos: int,
    name: Seq<char>,
    protocol: i32,
    max: usize,
) -> Option<(StatusResponseView, int)> {
    match after_lit(s, pos, encode_utf8(",\"online\":"@)) {
        Some(p1) => match spec_parse_dec(s, p1) {
            Some((online, p2)) => if 0 <= online <= usize::MAX {
                spec_parse_status_description(s, p2, name, protocol, max, online as usize)
            } else {
                None
            },
            None => None,
        },
        None => None,
    }
}

/// ... then the description.
pub open spec fn spec_parse_status_description(
    s: Seq<u8>,
    pos: int,
    name: Seq<char>,
    protocol: i32,
    max: usize,
    online: usize,
) -> Option<(StatusResponseView, int)> {
    match after_lit(s, pos, encode_utf8("},\"description\":"@)) {
        Some(p1) => match spec_parse_rjt(s, p1) {
            Some((description, p2)) => spec_parse_status_favicon(
                s,
                p2,
                StatusResponseView {
                    version: VersionView { name, protocol },
                    players: PlayersView { max, online, sample: None },
                    description,
                    favicon: None,
                    modinfo: None,
                },
            ),
            None => None,
        },
        None => None,
    }
}

/// ... then the favicon, where one stands, and the closing brace.
pub open spec fn spec_parse_status_favicon(s: Seq<u8>, pos: int, r: StatusResponseView) -> Option<
    (StatusResponseView, int),
> {
    match after_lit(s, pos, encode_utf8(",\"favicon\":"@)) {
        Some(p1) => match spec_parse_jstr(s, p1) {
            Some((fb, p2)) => if valid_utf8(fb) {
                spec_parse_status_close(
                    s,
                    p2,
                    StatusResponseView { favicon: Some(decode_utf8(fb)), ..r },
                )
            } else {
                None
            },
            None => None,
        },
        None => spec_parse_status_close(s, pos, r),
    }
}

/// ... and the closing brace.
pub open spec fn spec_parse_status_close(s: Seq<u8>, pos: int, r: StatusResponseView) -> Option<
    (StatusResponseView, int),
> {
    match after_lit(s, pos, encode_utf8("}"@)) {
        Some(p1) => Some((r, p1)),
        None => None,
    }
}

/// Reads a status document laid out exactly as this library writes it.
pub fn parse_status(data: &Vec<u8>, pos: usize) -> (r: Option<(StatusResponse, usize)>)
    ensures
        (match r {
            Some((v, end)) => spec_parse_status(data@, pos as int) == Some((v@, end as int)),
            None => spec_parse_status(data@, pos as int) is None,
        }),
{
    let p1: usize = match expect_lit(data, pos, "{\"version\":{\"name\":") {
        Some(p) => p,
        None => { return None },
    };
    let (name, p2): (String, usize) = match parse_jstr(data, p1) {
        Some((nb, e)) => match bytes_to_string(nb) {
            Some(s) => (s, e),
            None => { return None },
        },
        None => { return None },
    };
    let p3: usize = match expect_lit(data, p2, ",\"protocol\":") {
        Some(p) => p,
        None => { return None },
    };
    assert(p3 <= data@.len());
    let (protocol, p4): (i32, usize) = match parse_i32(data, p3) {
        Some(v) => v,
        None => { return None },
    };
    let p5: usize = match expect_lit(data, p4, "},\"players\":{\"max\":") {
        Some(p) => p,
        None => { return None },
    };
    assert(p5 <= data@.len());
    let (max64, p6): (u64, usize) = match parse_u64(data, p5) {
        Some(v) => v,
        None => {
            proof {
                if spec_parse_dec(data@, p5 as int) is Some {
                    assert(spec_parse_dec(data@, p5 as int).unwrap().0 > u64::MAX >= usize::MAX);
                }
            }
            return None;
        },
    };
    if max64 > (usize::MAX as u64) {
        return None;
    }
    let max: usize = max64 as usize;
    let p7: usize = match expect_lit(data, p6, ",\"online\":") {
        Some(p) => p,
        None => { return None },
    };
    assert(p7 <= data@.len());
    let (online64, p8): (u64, usize) = match parse_u64(data, p7) {
        Some(v) => v,
        None => {
            proof {
                if spec_parse_dec(data@, p7 as int) is Some {
                    assert(spec_parse_dec(data@, p7 as int).unwrap().0 > u64::MAX >= usize::MAX);
                }
            }
            return None;
        },
    };
    if online64 > (usize::MAX as u64) {
        return None;
    }
    let online: usize = online64 as usize;
    let p9: usize = match expect_lit(data, p8, "},\"description\":") {
        Some(p) => p,
        None => { return None },
    };
    let (description, p10): (RawJsonText, usize) = match parse_rjt(data, p9) {
        Some(v) => v,
        None => { return None },
    };
    let (favicon, p11): (Option<String>, usize) = match expect_lit(data, p10, ",\"favicon\":") {
        Some(q) => match parse_jstr(data, q) {
            Some((fb, e)) => match bytes_to_string(fb) {
                Some(f) => (Some(f), e),
                None => { return None },
            },
            None => { return None },
        },
        None => (None, p10),
    };
    let p12: usize = match expect_lit(data, p11, "}") {
        Some(p) => p,
        None => { return None },
    };
    Some(
        (
            StatusResponse {
                version: Version { name, protocol },
                players: Players { max, online, sample: None },
                description,
                favicon,
                modinfo: None,
            },
            p12,
        ),
    )
}

// ---------------------------------------------------------------------------
// The packet around the document
// ---------------------------------------------------------------------------
impl PacketEncoder for StatusResponse {
    open spec fn spec_id(&self) -> u32 {
        0x00
    }

    open spec fn spec_body(&self) -> Seq<u8> {
        spec_varint(spec_status_json(*self).len() as u32) + spec_status_json(*self)
    }

    open spec fn enc_wf(&self) -> bool {
        spec_status_json(*self).len() < 0x7fff_0000
    }

    fn packet_id(&self) -> (id: u32) {
        0x00
    }

    fn encode(&self, out: &mut Vec<u8>) {
        let mut body: Vec<u8> = Vec::new();
        write_status_json(self, &mut body);
        write_varint(body.len() as u32, out);
        out.append(&mut body);
        assert(final(out)@ =~= old(out)@ + self.spec_body());
    }
}

impl PacketDecoder for StatusResponse {
    open spec fn spec_decode(payload: Seq<u8>) -> Result<StatusResponseView, Error> {
        match spec_read_varint(payload, 0) {
            Ok((id, p1)) => if id != 0x00 {
                Err(Error::UnexpectedPacketId)
            } else {
                match spec_read_varint(payload, p1) {
                    Ok((jlen, p2)) => if p2 + jlen <= payload.len() {
                        match spec_parse_status_any(payload, p2) {
                            Some((v, end)) => if p2 <= end <= payload.len() && ws_end(
                                payload,
                                end,
                            ) == p2 + jlen {
                                Ok(v)
                            } else {
                                Err(Error::BackendUnreachable)
                            },
                            None => Err(Error::BackendUnreachable),
                        }
                    } else {
                        Err(Error::UnexpectedEof)
                    },
                    Err(e) => Err(e),
                }
            },
            Err(e) => Err(e),
        }
    }

    fn decode(payload: &Vec<u8>) -> (r: Result<Self, Error>) {
        let (id, p1): (u32, usize) = match read_varint(payload, 0) {
            Ok(v) => v,
            Err(e) => { return Err(e) },
        };
        if id != 0x00 {
            return Err(Error::UnexpectedPacketId);
        }
        let (jlen, p2): (u32, usize) = match read_varint(payload, p1) {
            Ok(v) => v,
            Err(e) => { return Err(e) },
        };
        assert(p2 <= payload@.len());
        if jlen as usize > payload.len() - p2 {
            return Err(Error::UnexpectedEof);
        }
        match parse_status_any(payload, p2) {
            Some((v, end)) => if p2 <= end && end <= payload.len() && skip_ws(payload, end) == p2
                + jlen as usize {
                Ok(v)
            } else {
                Err(Error::BackendUnreachable)
            },
            None => Err(Error::BackendUnreachable),
        }
    }
}

/// True of a document whose written form reads back in full: no sample
/// list, no mod description, and no nested list in the description.
pub open spec fn status_readback_supported(r: StatusResponse) -> bool {
    &&& r.players.sample is None
    &&& r.modinfo is None
    &&& rjt_flat(r.description)
}

/// Round trip: decoding the encoded payload of a well-formed document that
/// the reader supports gives the document back.
#[verifier::rlimit(100)]
#[verifier::spinoff_prover]
pub proof fn lemma_status_response_roundtrip(r: StatusResponse)
    requires
        r.enc_wf(),
        status_readback_supported(r),
    ensures
        StatusResponse::spec_decode(spec_varint(r.spec_id()) + r.spec_body()) == Ok::<
            StatusResponseView,
            Error,
        >(r@),
{
    let json = spec_status_json(r);
    let jlen: u32 = json.len() as u32;
    let a = spec_varint(0x00);
    let b = spec_varint(jlen);
    let payload = a + (b + json);
    assert(spec_varint(r.spec_id()) + r.spec_body() =~= payload);
    lemma_spec_varint_len(0x00);
    lemma_spec_varint_len(jlen);
    let p1 = a.len() as int;
    let p2 = p1 + b.len() as int;
    assert(payload.subrange(0, p1) =~= a);
    lemma_read_spec_varint(payload, 0, 0x00);
    assert(payload.subrange(p1, p2) =~= b);
    lemma_read_spec_varint(payload, p1, jlen);
    assert(payload.subrange(p2, p2 + json.len()) =~= json);
    lemma_parse_status_at(payload, p2, r);
    assert(spec_parse_status_any(payload, p2) == Some((r@, p2 + json.len())));
}

/// Reading back a written document that the reader supports gives its
/// image.
/// The four parts of a written document, without sample or mod
/// description, stand in their places.
proof fn lemma_status_split(s: Seq<u8>, pos: int, r: StatusResponse)
    requires
        status_readback_supported(r),
        0 <= pos,
        pos + spec_status_json(r).len() <= s.len(),
        s.subrange(pos, pos + spec_status_json(r).len()) == spec_status_json(r),
    ensures
        ({
            let g1 = spec_status_g1(r);
            let g2 = spec_status_g2(r);
            let g4 = spec_status_g4(r);
            let g5 = spec_status_g5(r);
            let lcl = encode_utf8("}"@);
            let r1 = pos + g1.len();
            let r2 = r1 + g2.len();
            let r3 = r2 + g4.len();
            let end = r3 + g5.len() + lcl.len();
            &&& end == pos + spec_status_json(r).len()
            &&& s.subrange(pos, r1) == g1
            &&& s.subrange(r1, r2) == g2
            &&& s.subrange(r2, r3) == g4
            &&& s.subrange(r3, end) == g5 + lcl
        }),
{
    let g1 = spec_status_g1(r);
    let g2 = spec_status_g2(r);
    let g3 = spec_status_g3(r);
    let g4 = spec_status_g4(r);
    let g5 = spec_status_g5(r);
    let g6 = spec_status_g6(r);
    let lcl = encode_utf8("}"@);
    let front = spec_status_front(r);
    let back = spec_status_back(r);
    assert(g3 == Seq::<u8>::empty());
    assert(g6 == Seq::<u8>::empty());
    lemma_split_window(s, pos, front, back);
    lemma_split_window(s, pos, g1, g2 + g3);
    let r1 = pos + g1.len();
    lemma_split_window(s, r1, g2, g3);
    let r2 = r1 + g2.len();
    assert(s.subrange(r1, r2) == g2);
    let bs = pos + front.len();
    assert(bs == r2);
    lemma_split_window(s, bs, g4, g5 + (g6 + lcl));
    let r3 = bs + g4.len();
    assert(g6 + lcl =~= lcl);
    assert(g5 + (g6 + lcl) =~= g5 + lcl);
    assert(s.subrange(r3, r3 + g5.len() + lcl.len()) == g5 + lcl);
}

/// The version pieces stand where the reader will look for them.
#[verifier::rlimit(100)]
#[verifier::spinoff_prover]
proof fn lemma_status_pieces_g1(s: Seq<u8>, pos: int, r: StatusResponse)
    requires
        status_readback_supported(r),
        0 <= pos,
        pos + spec_status_json(r).len() <= s.len(),
        s.subrange(pos, pos + spec_status_json(r).len()) == spec_status_json(r),
    ensures
        ({
            let name = r.version.name@;
            let l1 = encode_utf8("{\"version\":{\"name\":"@);
            let nj = spec_json_str(name);
            let l2 = encode_utf8(",\"protocol\":"@);
            let q1 = pos + l1.len();
            let q2 = q1 + nj.len();
            let q3 = q2 + l2.len();
            let r1 = pos + spec_status_g1(r).len();
            &&& lit_match(s, pos, l1)
            &&& spec_parse_jstr(s, q1) == Some((encode_utf8(name), q2))
            &&& valid_utf8(encode_utf8(name))
            &&& decode_utf8(encode_utf8(name)) == name
            &&& lit_match(s, q2, l2)
            &&& spec_parse_i32(s, q3) == Some((r.version.protocol, r1))
        }),
{
    vstd::utf8::encode_utf8_valid_utf8(r.version.name@);
    vstd::utf8::encode_utf8_decode_utf8(r.version.name@);
    lemma_status_split(s, pos, r);
    let g1 = spec_status_g1(r);
    let g2 = spec_status_g2(r);
    let r1 = pos + g1.len();
    let r2 = r1 + g2.len();
    let l3 = encode_utf8("},\"players\":{\"max\":"@);
    reveal_strlit("},\"players\":{\"max\":");
    lemma_ascii_bytes("},\"players\":{\"max\":");
    assert(s[r1] == 0x7d) by {
        assert(s.subrange(r1, r2)[0] == s[r1]);
        assert(g2[0] == l3[0]);
    }
    lemma_status_group1(s, pos, r);
}

/// The description part opens with a closing brace for the players
/// object.
#[verifier::rlimit(100)]
#[verifier::spinoff_prover]
proof fn lemma_status_desc_first_byte(s: Seq<u8>, g: int, r: StatusResponse)
    requires
        0 <= g,
        g + spec_status_g4(r).len() <= s.len(),
        s.subrange(g, g + spec_status_g4(r).len()) == spec_status_g4(r),
    ensures
        s[g] == 0x7d,
{
    let g4 = spec_status_g4(r);
    let ldesc = encode_utf8("},\"description\":"@);
    reveal_strlit("},\"description\":");
    lemma_ascii_bytes("},\"description\":");
    assert(s.subrange(g, g + g4.len())[0] == s[g]);
    assert(g4[0] == ldesc[0]);
}

/// The players pieces stand where the reader will look for them.
#[verifier::rlimit(100)]
#[verifier::spinoff_prover]
proof fn lemma_status_pieces_g2(s: Seq<u8>, pos: int, r: StatusResponse)
    requires
        status_readback_supported(r),
        0 <= pos,
        pos + spec_status_json(r).len() <= s.len(),
        s.subrange(pos, pos + spec_status_json(r).len()) == spec_status_json(r),
    ensures
        ({
            let r1 = pos + spec_status_g1(r).len();
            let l3 = encode_utf8("},\"players\":{\"max\":"@);
            let mj = spec_dec(r.players.max as nat);
            let l4 = encode_utf8(",\"online\":"@);
            let q4 = r1 + l3.len();
            let q5 = q4 + mj.len();
            let q6 = q5 + l4.len();
            let r2 = r1 + spec_status_g2(r).len();
            &&& lit_match(s, r1, l3)
            &&& spec_parse_dec(s, q4) == Some((r.players.max as int, q5))
            &&& lit_match(s, q5, l4)
            &&& spec_parse_dec(s, q6) == Some((r.players.online as int, r2))
        }),
{
    lemma_status_split(s, pos, r);
    let g1 = spec_status_g1(r);
    let g2 = spec_status_g2(r);
    let r1 = pos + g1.len();
    let r2 = r1 + g2.len();
    lemma_status_desc_first_byte(s, r2, r);
    lemma_status_group2(s, r1, r);
}

/// The description, favicon, and close stand where the reader will look
/// for them.
#[verifier::rlimit(100)]
#[verifier::spinoff_prover]
proof fn lemma_status_pieces_back(s: Seq<u8>, pos: int, r: StatusResponse)
    requires
        status_readback_supported(r),
        0 <= pos,
        pos + spec_status_json(r).len() <= s.len(),
        s.subrange(pos, pos + spec_status_json(r).len()) == spec_status_json(r),
    ensures
        ({
            let r2 = pos + spec_status_g1(r).len() + spec_status_g2(r).len();
            let ldesc = encode_utf8("},\"description\":"@);
            let r3 = r2 + spec_status_g4(r).len();
            let lfav = encode_utf8(",\"favicon\":"@);
            let lcl = encode_utf8("}"@);
            let end = pos + spec_status_json(r).len();
            &&& lit_match(s, r2, ldesc)
            &&& spec_parse_rjt(s, r2 + ldesc.len()) == Some((rjt_view(r.description), r3))
            &&& (match r.favicon {
                None => {
                    &&& !lit_match(s, r3, lfav)
                    &&& lit_match(s, r3, lcl)
                    &&& end == r3 + lcl.len()
                },
                Some(f) => {
                    &&& lit_match(s, r3, lfav)
                    &&& spec_parse_jstr(s, r3 + lfav.len()) == Some(
                        (encode_utf8(f@), end - lcl.len()),
                    )
                    &&& valid_utf8(encode_utf8(f@))
                    &&& decode_utf8(encode_utf8(f@)) == f@
                    &&& lit_match(s, end - lcl.len(), lcl)
                },
            })
        }),
{
    lemma_status_split(s, pos, r);
    let g1 = spec_status_g1(r);
    let g2 = spec_status_g2(r);
    let g4 = spec_status_g4(r);
    let g5 = spec_status_g5(r);
    let lcl = encode_utf8("}"@);
    let r1 = pos + g1.len();
    let r2 = r1 + g2.len();
    let r3 = r2 + g4.len();
    let ldesc = encode_utf8("},\"description\":"@);
    let dj = spec_rjt_json(r.description);
    lemma_split_window(s, r2, ldesc, dj);
    lemma_parse_rjt_at(s, r2 + ldesc.len(), r.description);
    lemma_status_favicon_close(s, r3, r);
}

/// Reading back a written document that the reader supports gives its
/// image.
#[verifier::rlimit(100)]
#[verifier::spinoff_prover]
pub proof fn lemma_parse_status_at(s: Seq<u8>, pos: int, r: StatusResponse)
    requires
        status_readback_supported(r),
        0 <= pos,
        pos + spec_status_json(r).len() <= s.len(),
        s.subrange(pos, pos + spec_status_json(r).len()) == spec_status_json(r),
    ensures
        spec_parse_status(s, pos) == Some((r@, pos + spec_status_json(r).len())),
{
    lemma_status_pieces_g1(s, pos, r);
    lemma_status_pieces_g2(s, pos, r);
    lemma_status_pieces_back(s, pos, r);
    let name = r.version.name@;
    let protocol = r.version.protocol;
    let max = r.players.max;
    let online = r.players.online;
    let l1 = encode_utf8("{\"version\":{\"name\":"@);
    let nj = spec_json_str(name);
    let l2 = encode_utf8(",\"protocol\":"@);
    let q1 = pos + l1.len();
    let q2 = q1 + nj.len();
    let q3 = q2 + l2.len();
    let r1 = pos + spec_status_g1(r).len();
    let l3 = encode_utf8("},\"players\":{\"max\":"@);
    let mj = spec_dec(max as nat);
    let l4 = encode_utf8(",\"online\":"@);
    let q4 = r1 + l3.len();
    let q5 = q4 + mj.len();
    let q6 = q5 + l4.len();
    let r2 = r1 + spec_status_g2(r).len();
    let ldesc = encode_utf8("},\"description\":"@);
    let r3 = r2 + spec_status_g4(r).len();
    let lcl = encode_utf8("}"@);
    let end = pos + spec_status_json(r).len();
    let v0 = StatusResponseView {
        version: VersionView { name, protocol },
        players: PlayersView { max, online, sample: None },
        description: rjt_view(r.description),
        favicon: None,
        modinfo: None,
    };
    assert(r@ =~= StatusResponseView { favicon: opt_str_view(r.favicon), ..v0 });
    assert(spec_parse_status_favicon(s, r3, v0) == Some((r@, end))) by {
        match r.favicon {
            None => {
                assert(spec_parse_status_close(s, r3, v0) == Some((v0, end)));
            },
            Some(f) => {
                let v1 = StatusResponseView { favicon: Some(f@), ..v0 };
                assert(spec_parse_status_close(s, end - lcl.len(), v1) == Some((v1, end)));
            },
        }
    }
    assert(spec_parse_status_description(s, r2, name, protocol, max, online) == Some((r@, end)));
    assert(spec_parse_status_online(s, q5, name, protocol, max) == Some((r@, end)));
    assert(spec_parse_status_max(s, r1, name, protocol) == Some((r@, end)));
    assert(spec_parse_status_protocol(s, q2, name) == Some((r@, end)));
    assert(spec_parse_status(s, pos) == Some((r@, end)));
}

/// The version object reads back.
proof fn lemma_status_group1(s: Seq<u8>, g: int, r: StatusResponse)
    requires
        0 <= g,
        g + spec_status_g1(r).len() <= s.len(),
        s.subrange(g, g + spec_status_g1(r).len()) == spec_status_g1(r),
        g + spec_status_g1(r).len() < s.len(),
        s[g + spec_status_g1(r).len()] == 0x7d,
    ensures
        ({
            let l1 = encode_utf8("{\"version\":{\"name\":"@);
            let nj = spec_json_str(r.version.name@);
            let l2 = encode_utf8(",\"protocol\":"@);
            &&& lit_match(s, g, l1)
            &&& spec_parse_jstr(s, g + l1.len()) == Some(
                (encode_utf8(r.version.name@), g + l1.len() + nj.len()),
            )
            &&& lit_match(s, g + l1.len() + nj.len(), l2)
            &&& spec_parse_i32(s, g + l1.len() + nj.len() + l2.len()) == Some(
                (r.version.protocol, g + spec_status_g1(r).len()),
            )
        }),
{
    let l1 = encode_utf8("{\"version\":{\"name\":"@);
    let nj = spec_json_str(r.version.name@);
    let l2 = encode_utf8(",\"protocol\":"@);
    let pj = spec_i32_dec(r.version.protocol);
    lemma_split_window(s, g, l1, nj + (l2 + pj));
    let q1 = g + l1.len();
    lemma_split_window(s, q1, nj, l2 + pj);
    let q2 = q1 + nj.len();
    lemma_split_window(s, q2, l2, pj);
    let q3 = q2 + l2.len();
    lemma_parse_jstr_round(s, r.version.name@, q1);
    assert(!is_digit(s[q3 + pj.len()]));
    lemma_parse_i32_at(s, q3, r.version.protocol);
}

/// The players object reads back.
proof fn lemma_status_group2(s: Seq<u8>, g: int, r: StatusResponse)
    requires
        r.players.sample is None,
        0 <= g,
        g + spec_status_g2(r).len() <= s.len(),
        s.subrange(g, g + spec_status_g2(r).len()) == spec_status_g2(r),
        g + spec_status_g2(r).len() < s.len(),
        s[g + spec_status_g2(r).len()] == 0x7d,
    ensures
        ({
            let l1 = encode_utf8("},\"players\":{\"max\":"@);
            let mj = spec_dec(r.players.max as nat);
            let l2 = encode_utf8(",\"online\":"@);
            &&& lit_match(s, g, l1)
            &&& spec_parse_dec(s, g + l1.len()) == Some(
                (r.players.max as int, g + l1.len() + mj.len()),
            )
            &&& lit_match(s, g + l1.len() + mj.len(), l2)
            &&& spec_parse_dec(s, g + l1.len() + mj.len() + l2.len()) == Some(
                (r.players.online as int, g + spec_status_g2(r).len()),
            )
        }),
{
    let l1 = encode_utf8("},\"players\":{\"max\":"@);
    let mj = spec_dec(r.players.max as nat);
    let l2 = encode_utf8(",\"online\":"@);
    let oj = spec_dec(r.players.online as nat);
    lemma_split_window(s, g, l1, mj + (l2 + oj));
    let q1 = g + l1.len();
    lemma_split_window(s, q1, mj, l2 + oj);
    let q2 = q1 + mj.len();
    lemma_split_window(s, q2, l2, oj);
    let q3 = q2 + l2.len();
    reveal_strlit(",\"online\":");
    lemma_ascii_bytes(",\"online\":");
    assert(s[q2] == l2[0]) by {
        assert(l2[0] == s.subrange(q2, q2 + l2.len())[0]);
    }
    assert(!is_digit(s[q1 + mj.len()]));
    lemma_parse_dec_at(s, q1, r.players.max as nat);
    assert(!is_digit(s[q3 + oj.len()]));
    lemma_parse_dec_at(s, q3, r.players.online as nat);
}


/// The favicon, where one stands, and the closing brace read back.
#[verifier::rlimit(100)]
proof fn lemma_status_favicon_close(s: Seq<u8>, g: int, r: StatusResponse)
    requires
        0 <= g,
        g + spec_status_g5(r).len() + encode_utf8("}"@).len() <= s.len(),
        s.subrange(g, g + spec_status_g5(r).len() + encode_utf8("}"@).len()) == spec_status_g5(r)
            + encode_utf8("}"@),
    ensures
        ({
            let lfav = encode_utf8(",\"favicon\":"@);
            let lcl = encode_utf8("}"@);
            let end = g + spec_status_g5(r).len() + lcl.len();
            match r.favicon {
                None => {
                    &&& !lit_match(s, g, lfav)
                    &&& lit_match(s, g, lcl)
                    &&& end == g + lcl.len()
                },
                Some(f) => {
                    &&& lit_match(s, g, lfav)
                    &&& spec_parse_jstr(s, g + lfav.len()) == Some(
                        (encode_utf8(f@), end - lcl.len()),
                    )
                    &&& valid_utf8(encode_utf8(f@))
                    &&& decode_utf8(encode_utf8(f@)) == f@
                    &&& lit_match(s, end - lcl.len(), lcl)
                },
            }
        }),
{
    broadcast use vstd::utf8::encode_utf8_valid_utf8, vstd::utf8::encode_utf8_decode_utf8;

    let g5 = spec_status_g5(r);
    let lcl = encode_utf8("}"@);
    reveal_strlit(",\"favicon\":");
    reveal_strlit("}");
    lemma_ascii_bytes("}");
    match r.favicon {
        None => {
            assert(g5 =~= Seq::<u8>::empty());
            assert(s.subrange(g, g + lcl.len()) =~= lcl);
            assert(s[g] == lcl[0]) by {
                assert(lcl[0] == s.subrange(g, g + lcl.len())[0]);
            }
            lemma_first_byte_mismatch(s, g, ",\"favicon\":", 0x7d);
        },
        Some(f) => {
            let lfav = encode_utf8(",\"favicon\":"@);
            let fj = spec_json_str(f@);
            lemma_split_window(s, g, g5, lcl);
            lemma_split_window(s, g, lfav, fj);
            lemma_parse_jstr_round(s, f@, g + lfav.len());
        },
    }
}

/// The written document is bounded by its text fields: what the fixed
/// keys and the numbers add stays under a small constant.
pub proof fn lemma_status_json_len(r: StatusResponse)
    requires
        r.players.sample is None,
        r.modinfo is None,
        r.favicon is None,
    ensures
        spec_status_json(r).len() <= 160 + 6 * encode_utf8(r.version.name@).len()
            + spec_rjt_json(r.description).len(),
{
    reveal_strlit("{\"version\":{\"name\":");
    reveal_strlit(",\"protocol\":");
    reveal_strlit("},\"players\":{\"max\":");
    reveal_strlit(",\"online\":");
    reveal_strlit("},\"description\":");
    reveal_strlit("}");
    lemma_ascii_bytes("{\"version\":{\"name\":");
    lemma_ascii_bytes(",\"protocol\":");
    lemma_ascii_bytes("},\"players\":{\"max\":");
    lemma_ascii_bytes(",\"online\":");
    lemma_ascii_bytes("},\"description\":");
    lemma_ascii_bytes("}");
    crate::json::lemma_escape_len(encode_utf8(r.version.name@));
    crate::json::lemma_dec_len_u64(r.players.max as nat);
    crate::json::lemma_dec_len_u64(r.players.online as nat);
    if r.version.protocol >= 0 {
        crate::json::lemma_dec_len_u64(r.version.protocol as nat);
    } else {
        crate::json::lemma_dec_len_u64((-(r.version.protocol as int)) as nat);
    }
    assert(spec_status_g3(r) == Seq::<u8>::empty());
    assert(spec_status_g5(r) == Seq::<u8>::empty());
    assert(spec_status_g6(r) == Seq::<u8>::empty());
}

// ---------------------------------------------------------------------------
// Reading foreign layouts
// ---------------------------------------------------------------------------
/// The view of an optional version object.
pub open spec fn opt_version_view(v: Option<Version>) -> Option<VersionView> {
    match v {
        Some(x) => Some(x@),
        None => None,
    }
}

/// The view of an optional players object.
pub open spec fn opt_players_view(v: Option<Players>) -> Option<PlayersView> {
    match v {
        Some(x) => Some(x@),
        None => None,
    }
}

/// The view of an optional description.
pub open spec fn opt_rjt_view(v: Option<RawJsonText>) -> Option<RawJsonTextView> {
    match v {
        Some(x) => Some(rjt_view(x)),
        None => None,
    }
}

/// The view of an optional mod description.
pub open spec fn opt_modinfo_view(v: Option<Modinfo>) -> Option<ModinfoView> {
    match v {
        Some(x) => Some(x@),
        None => None,
    }
}

/// What reading a status document in a foreign layout yields: members in
/// any order, whitespace and unknown members tolerated; version, players
/// and description must be present.
pub open spec fn spec_walk_status(s: Seq<u8>, pos: int) -> Option<(StatusResponseView, int)>
    decreases s.len() - pos, 2int,
{
    let p = ws_end(s, pos);
    if !(0 <= pos <= p && p < s.len() && s[p] == 0x7b) {
        None
    } else {
        spec_walk_status_members(s, p + 1, None, None, None, None, None)
    }
}

/// Walks the document's members, folding them into the accumulators.
pub open spec fn spec_walk_status_members(
    s: Seq<u8>,
    pos: int,
    version: Option<VersionView>,
    players: Option<PlayersView>,
    description: Option<RawJsonTextView>,
    favicon: Option<Seq<char>>,
    modinfo: Option<ModinfoView>,
) -> Option<(StatusResponseView, int)>
    decreases s.len() - pos, 1int,
{
    let p = ws_end(s, pos);
    if !(0 <= pos <= p && p < s.len()) {
        None
    } else if s[p] == 0x7d {
        spec_finish_status(version, players, description, favicon, modinfo, p + 1)
    } else {
        match spec_parse_jstr(s, p) {
            Some((kb, p1)) => if !(p < p1) {
                None
            } else {
                let p2 = ws_end(s, p1);
                if !(p1 <= p2 && p2 < s.len() && s[p2] == 0x3a) {
                    None
                } else {
                    let pv = ws_end(s, p2 + 1);
                    if !(p2 + 1 <= pv && pv < s.len()) {
                        None
                    } else if kb == encode_utf8("version"@) {
                        if s[pv] != 0x7b {
                            None
                        } else {
                            match spec_walk_version_members(s, pv + 1, None, None) {
                                Some((v, e)) => spec_walk_status_tail(
                                    s, e, Some(v), players, description, favicon, modinfo, pos,
                                ),
                                None => None,
                            }
                        }
                    } else if kb == encode_utf8("players"@) {
                        if s[pv] != 0x7b {
                            None
                        } else {
                            match spec_walk_players_members(s, pv + 1, None, None, None) {
                                Some((v, e)) => spec_walk_status_tail(
                                    s, e, version, Some(v), description, favicon, modinfo, pos,
                                ),
                                None => None,
                            }
                        }
                    } else if kb == encode_utf8("description"@) {
                        match spec_walk_text_value(s, pv) {
                            Some((v, e)) => spec_walk_status_tail(
                                s, e, version, players, Some(v), favicon, modinfo, pos,
                            ),
                            None => None,
                        }
                    } else if kb == encode_utf8("favicon"@) {
                        match spec_parse_opt_str(s, pv) {
                            Some((v, e)) => spec_walk_status_tail(
                                s, e, version, players, description, v, modinfo, pos,
                            ),
                            None => None,
                        }
                    } else if kb == encode_utf8("modinfo"@) {
                        if lit_match(s, pv, encode_utf8("null"@)) {
                            spec_walk_status_tail(
                                s,
                                pv + encode_utf8("null"@).len(),
                                version, players, description, favicon, None, pos,
                            )
                        } else if s[pv] == 0x7b {
                            match spec_walk_modinfo_members(s, pv + 1, None, None) {
                                Some((v, e)) => spec_walk_status_tail(
                                    s, e, version, players, description, favicon, Some(v), pos,
                                ),
                                None => None,
                            }
                        } else {
                            None
                        }
                    } else {
                        match spec_skip_value(s, pv) {
                            Some(e) => spec_walk_status_tail(
                                s, e, version, players, description, favicon, modinfo, pos,
                            ),
                            None => None,
                        }
                    }
                }
            },
            None => None,
        }
    }
}

/// The finished document, where the required members were all seen.
pub open spec fn spec_finish_status(
    version: Option<VersionView>,
    players: Option<PlayersView>,
    description: Option<RawJsonTextView>,
    favicon: Option<Seq<char>>,
    modinfo: Option<ModinfoView>,
    end: int,
) -> Option<(StatusResponseView, int)> {
    match (version, players, description) {
        (Some(v), Some(pl), Some(d)) => Some(
            (
                StatusResponseView {
                    version: v,
                    players: pl,
                    description: d,
                    favicon,
                    modinfo,
                },
                end,
            ),
        ),
        _ => None,
    }
}

/// The separator step of the document walk.
pub open spec fn spec_walk_status_tail(
    s: Seq<u8>,
    pos: int,
    version: Option<VersionView>,
    players: Option<PlayersView>,
    description: Option<RawJsonTextView>,
    favicon: Option<Seq<char>>,
    modinfo: Option<ModinfoView>,
    entry: int,
) -> Option<(StatusResponseView, int)>
    decreases s.len() - entry, 0int,
{
    if !(0 <= entry < pos && pos <= s.len()) {
        None
    } else {
        match spec_member_sep(s, pos) {
            Some((more, q)) => if !(pos < q && q <= s.len()) {
                None
            } else if more {
                spec_walk_status_members(s, q, version, players, description, favicon, modinfo)
            } else {
                spec_finish_status(version, players, description, favicon, modinfo, q)
            },
            None => None,
        }
    }
}

/// Walks a version object's members.
pub open spec fn spec_walk_version_members(
    s: Seq<u8>,
    pos: int,
    name: Option<Seq<char>>,
    protocol: Option<i32>,
) -> Option<(VersionView, int)>
    decreases s.len() - pos, 1int,
{
    let p = ws_end(s, pos);
    if !(0 <= pos <= p && p < s.len()) {
        None
    } else if s[p] == 0x7d {
        spec_finish_version(name, protocol, p + 1)
    } else {
        match spec_parse_jstr(s, p) {
            Some((kb, p1)) => if !(p < p1) {
                None
            } else {
                let p2 = ws_end(s, p1);
                if !(p1 <= p2 && p2 < s.len() && s[p2] == 0x3a) {
                    None
                } else {
                    let pv = ws_end(s, p2 + 1);
                    if !(p2 + 1 <= pv && pv < s.len()) {
                        None
                    } else if kb == encode_utf8("name"@) {
                        match spec_parse_jstr(s, pv) {
                            Some((bs, e)) => if valid_utf8(bs) {
                                spec_walk_version_tail(s, e, Some(decode_utf8(bs)), protocol, pos)
                            } else {
                                None
                            },
                            None => None,
                        }
                    } else if kb == encode_utf8("protocol"@) {
                        match spec_parse_i32(s, pv) {
                            Some((v, e)) => spec_walk_version_tail(s, e, name, Some(v), pos),
                            None => None,
                        }
                    } else {
                        match spec_skip_value(s, pv) {
                            Some(e) => spec_walk_version_tail(s, e, name, protocol, pos),
                            None => None,
                        }
                    }
                }
            },
            None => None,
        }
    }
}

/// The finished version object, both members seen.
pub open spec fn spec_finish_version(name: Option<Seq<char>>, protocol: Option<i32>, end: int) -> Option<
    (VersionView, int),
> {
    match (name, protocol) {
        (Some(n), Some(pr)) => Some((VersionView { name: n, protocol: pr }, end)),
        _ => None,
    }
}

/// The separator step of the version walk.
pub open spec fn spec_walk_version_tail(
    s: Seq<u8>,
    pos: int,
    name: Option<Seq<char>>,
    protocol: Option<i32>,
    entry: int,
) -> Option<(VersionView, int)>
    decreases s.len() - entry, 0int,
{
    if !(0 <= entry < pos && pos <= s.len()) {
        None
    } else {
        match spec_member_sep(s, pos) {
            Some((more, q)) => if !(pos < q && q <= s.len()) {
                None
            } else if more {
                spec_walk_version_members(s, q, name, protocol)
            } else {
                spec_finish_version(name, protocol, q)
            },
            None => None,
        }
    }
}

/// Walks a players object's members.
pub open spec fn spec_walk_players_members(
    s: Seq<u8>,
    pos: int,
    max: Option<usize>,
    online: Option<usize>,
    sample: Option<Seq<SamplePlayerView>>,
) -> Option<(PlayersView, int)>
    decreases s.len() - pos, 1int,
{
    let p = ws_end(s, pos);
    if !(0 <= pos <= p && p < s.len()) {
        None
    } else if s[p] == 0x7d {
        spec_finish_players(max, online, sample, p + 1)
    } else {
        match spec_parse_jstr(s, p) {
            Some((kb, p1)) => if !(p < p1) {
                None
            } else {
                let p2 = ws_end(s, p1);
                if !(p1 <= p2 && p2 < s.len() && s[p2] == 0x3a) {
                    None
                } else {
                    let pv = ws_end(s, p2 + 1);
                    if !(p2 + 1 <= pv && pv < s.len()) {
                        None
                    } else if kb == encode_utf8("max"@) {
                        match spec_parse_dec(s, pv) {
                            Some((v, e)) => if 0 <= v <= usize::MAX {
                                spec_walk_players_tail(s, e, Some(v as usize), online, sample, pos)
                            } else {
                                None
                            },
                            None => None,
                        }
                    } else if kb == encode_utf8("online"@) {
                        match spec_parse_dec(s, pv) {
                            Some((v, e)) => if 0 <= v <= usize::MAX {
                                spec_walk_players_tail(s, e, max, Some(v as usize), sample, pos)
                            } else {
                                None
                            },
                            None => None,
                        }
                    } else if kb == encode_utf8("sample"@) {
                        if lit_match(s, pv, encode_utf8("null"@)) {
                            spec_walk_players_tail(
                                s,
                                pv + encode_utf8("null"@).len(),
                                max, online, None, pos,
                            )
                        } else if s[pv] == 0x5b {
                            match spec_walk_sample_list(s, pv + 1) {
                                Some((items, e)) => spec_walk_players_tail(
                                    s, e, max, online, Some(items), pos,
                                ),
                                None => None,
                            }
                        } else {
                            None
                        }
                    } else {
                        match spec_skip_value(s, pv) {
                            Some(e) => spec_walk_players_tail(s, e, max, online, sample, pos),
                            None => None,
                        }
                    }
                }
            },
            None => None,
        }
    }
}

/// The finished players object, both counts seen.
pub open spec fn spec_finish_players(
    max: Option<usize>,
    online: Option<usize>,
    sample: Option<Seq<SamplePlayerView>>,
    end: int,
) -> Option<(PlayersView, int)> {
    match (max, online) {
        (Some(m), Some(o)) => Some((PlayersView { max: m, online: o, sample }, end)),
        _ => None,
    }
}

/// The separator step of the players walk.
pub open spec fn spec_walk_players_tail(
    s: Seq<u8>,
    pos: int,
    max: Option<usize>,
    online: Option<usize>,
    sample: Option<Seq<SamplePlayerView>>,
    entry: int,
) -> Option<(PlayersView, int)>
    decreases s.len() - entry, 0int,
{
    if !(0 <= entry < pos && pos <= s.len()) {
        None
    } else {
        match spec_member_sep(s, pos) {
            Some((more, q)) => if !(pos < q && q <= s.len()) {
                None
            } else if more {
                spec_walk_players_members(s, q, max, online, sample)
            } else {
                spec_finish_players(max, online, sample, q)
            },
            None => None,
        }
    }
}

/// Walks the items of a sample list from just past `[` or a comma.
pub open spec fn spec_walk_sample_list(s: Seq<u8>, pos: int) -> Option<
    (Seq<SamplePlayerView>, int),
>
    decreases s.len() - pos, 3int,
{
    let p = ws_end(s, pos);
    if !(0 <= pos <= p && p < s.len()) {
        None
    } else if s[p] == 0x5d {
        Some((Seq::empty(), p + 1))
    } else if s[p] != 0x7b {
        None
    } else {
        match spec_walk_sample_members(s, p + 1, None, None) {
            Some((it, e)) => if !(p < e && e <= s.len()) {
                None
            } else {
                match spec_item_sep(s, e) {
                    Some((more, q)) => if !(pos < q && q <= s.len()) {
                        None
                    } else if more {
                        match spec_walk_sample_list(s, q) {
                            Some((rest, e2)) => Some((seq![it] + rest, e2)),
                            None => None,
                        }
                    } else {
                        Some((seq![it], q))
                    },
                    None => None,
                }
            },
            None => None,
        }
    }
}

/// Walks one sampled player's members.
pub open spec fn spec_walk_sample_members(
    s: Seq<u8>,
    pos: int,
    name: Option<Seq<char>>,
    id: Option<Seq<char>>,
) -> Option<(SamplePlayerView, int)>
    decreases s.len() - pos, 1int,
{
    let p = ws_end(s, pos);
    if !(0 <= pos <= p && p < s.len()) {
        None
    } else if s[p] == 0x7d {
        spec_finish_sample(name, id, p + 1)
    } else {
        match spec_parse_jstr(s, p) {
            Some((kb, p1)) => if !(p < p1) {
                None
            } else {
                let p2 = ws_end(s, p1);
                if !(p1 <= p2 && p2 < s.len() && s[p2] == 0x3a) {
                    None
                } else {
                    let pv = ws_end(s, p2 + 1);
                    if !(p2 + 1 <= pv && pv < s.len()) {
                        None
                    } else if kb == encode_utf8("name"@) {
                        match spec_parse_jstr(s, pv) {
                            Some((bs, e)) => if valid_utf8(bs) {
                                spec_walk_sample_tail(s, e, Some(decode_utf8(bs)), id, pos)
                            } else {
                                None
                            },
                            None => None,
                        }
                    } else if kb == encode_utf8("id"@) {
                        match spec_parse_jstr(s, pv) {
                            Some((bs, e)) => if valid_utf8(bs) {
                                spec_walk_sample_tail(s, e, name, Some(decode_utf8(bs)), pos)
                            } else {
                                None
                            },
                            None => None,
                        }
                    } else {
                        match spec_skip_value(s, pv) {
                            Some(e) => spec_walk_sample_tail(s, e, name, id, pos),
                            None => None,
                        }
                    }
                }
            },
            None => None,
        }
    }
}

/// The finished sampled player, both members seen.
pub open spec fn spec_finish_sample(name: Option<Seq<char>>, id: Option<Seq<char>>, end: int) -> Option<
    (SamplePlayerView, int),
> {
    match (name, id) {
        (Some(n), Some(i)) => Some((SamplePlayerView { name: n, id: i }, end)),
        _ => None,
    }
}

/// The separator step of the sampled-player walk.
pub open spec fn spec_walk_sample_tail(
    s: Seq<u8>,
    pos: int,
    name: Option<Seq<char>>,
    id: Option<Seq<char>>,
    entry: int,
) -> Option<(SamplePlayerView, int)>
    decreases s.len() - entry, 0int,
{
    if !(0 <= entry < pos && pos <= s.len()) {
        None
    } else {
        match spec_member_sep(s, pos) {
            Some((more, q)) => if !(pos < q && q <= s.len()) {
                None
            } else if more {
                spec_walk_sample_members(s, q, name, id)
            } else {
                spec_finish_sample(name, id, q)
            },
            None => None,
        }
    }
}

/// Walks a mod description's members.
pub open spec fn spec_walk_modinfo_members(
    s: Seq<u8>,
    pos: int,
    mod_list: Option<Seq<Seq<char>>>,
    kind: Option<Seq<char>>,
) -> Option<(ModinfoView, int)>
    decreases s.len() - pos, 1int,
{
    let p = ws_end(s, pos);
    if !(0 <= pos <= p && p < s.len()) {
        None
    } else if s[p] == 0x7d {
        spec_finish_modinfo(mod_list, kind, p + 1)
    } else {
        match spec_parse_jstr(s, p) {
            Some((kb, p1)) => if !(p < p1) {
                None
            } else {
                let p2 = ws_end(s, p1);
                if !(p1 <= p2 && p2 < s.len() && s[p2] == 0x3a) {
                    None
                } else {
                    let pv = ws_end(s, p2 + 1);
                    if !(p2 + 1 <= pv && pv < s.len()) {
                        None
                    } else if kb == encode_utf8("modList"@) {
                        if s[pv] != 0x5b {
                            None
                        } else {
                            match spec_walk_str_list(s, pv + 1) {
                                Some((items, e)) => spec_walk_modinfo_tail(
                                    s, e, Some(items), kind, pos,
                                ),
                                None => None,
                            }
                        }
                    } else if kb == encode_utf8("type"@) {
                        match spec_parse_jstr(s, pv) {
                            Some((bs, e)) => if valid_utf8(bs) {
                                spec_walk_modinfo_tail(s, e, mod_list, Some(decode_utf8(bs)), pos)
                            } else {
                                None
                            },
                            None => None,
                        }
                    } else {
                        match spec_skip_value(s, pv) {
                            Some(e) => spec_walk_modinfo_tail(s, e, mod_list, kind, pos),
                            None => None,
                        }
                    }
                }
            },
            None => None,
        }
    }
}

/// The finished mod description, both members seen.
pub open spec fn spec_finish_modinfo(
    mod_list: Option<Seq<Seq<char>>>,
    kind: Option<Seq<char>>,
    end: int,
) -> Option<(ModinfoView, int)> {
    match (mod_list, kind) {
        (Some(m), Some(k)) => Some((ModinfoView { mod_list: m, kind: k }, end)),
        _ => None,
    }
}

/// The separator step of the mod-description walk.
pub open spec fn spec_walk_modinfo_tail(
    s: Seq<u8>,
    pos: int,
    mod_list: Option<Seq<Seq<char>>>,
    kind: Option<Seq<char>>,
    entry: int,
) -> Option<(ModinfoView, int)>
    decreases s.len() - entry, 0int,
{
    if !(0 <= entry < pos && pos <= s.len()) {
        None
    } else {
        match spec_member_sep(s, pos) {
            Some((more, q)) => if !(pos < q && q <= s.len()) {
                None
            } else if more {
                spec_walk_modinfo_members(s, q, mod_list, kind)
            } else {
                spec_finish_modinfo(mod_list, kind, q)
            },
            None => None,
        }
    }
}

/// Walks the items of a string list from just past `[` or a comma.
pub open spec fn spec_walk_str_list(s: Seq<u8>, pos: int) -> Option<(Seq<Seq<char>>, int)>
    decreases s.len() - pos, 3int,
{
    let p = ws_end(s, pos);
    if !(0 <= pos <= p && p < s.len()) {
        None
    } else if s[p] == 0x5d {
        Some((Seq::empty(), p + 1))
    } else {
        match spec_parse_jstr(s, p) {
            Some((bs, e)) => if !(p < e && e <= s.len() && valid_utf8(bs)) {
                None
            } else {
                match spec_item_sep(s, e) {
                    Some((more, q)) => if !(pos < q && q <= s.len()) {
                        None
                    } else if more {
                        match spec_walk_str_list(s, q) {
                            Some((rest, e2)) => Some((seq![decode_utf8(bs)] + rest, e2)),
                            None => None,
                        }
                    } else {
                        Some((seq![decode_utf8(bs)], q))
                    },
                    None => None,
                }
            },
            None => None,
        }
    }
}

/// What reading a status document yields: the exact layout this library
/// writes, or failing that a walk of the foreign layout.
pub open spec fn spec_parse_status_any(s: Seq<u8>, pos: int) -> Option<(StatusResponseView, int)> {
    match spec_parse_status(s, pos) {
        Some(v) => Some(v),
        None => spec_walk_status(s, pos),
    }
}

/// Reads a status document, in this library's own layout or a foreign one.
pub fn parse_status_any(data: &Vec<u8>, pos: usize) -> (r: Option<(StatusResponse, usize)>)
    requires
        pos <= data@.len(),
    ensures
        (match r {
            Some((v, end)) => spec_parse_status_any(data@, pos as int) == Some((v@, end as int)),
            None => spec_parse_status_any(data@, pos as int) is None,
        }),
{
    match parse_status(data, pos) {
        Some(v) => Some(v),
        None => walk_status(data, pos),
    }
}

/// Reads a status document in a foreign layout.
pub fn walk_status(data: &Vec<u8>, pos: usize) -> (r: Option<(StatusResponse, usize)>)
    requires
        pos <= data@.len(),
    ensures
        (match r {
            Some((v, end)) => spec_walk_status(data@, pos as int) == Some((v@, end as int)),
            None => spec_walk_status(data@, pos as int) is None,
        }),
{
    let p: usize = skip_ws(data, pos);
    if p >= data.len() || data[p] != 0x7b {
        return None;
    }
    walk_status_members(data, p + 1, None, None, None, None, None)
}

/// Walks the document's members.
fn walk_status_members(
    data: &Vec<u8>,
    pos: usize,
    version: Option<Version>,
    players: Option<Players>,
    description: Option<RawJsonText>,
    favicon: Option<String>,
    modinfo: Option<Modinfo>,
) -> (r: Option<(StatusResponse, usize)>)
    requires
        pos <= data@.len(),
    ensures
        (match r {
            Some((v, end)) => spec_walk_status_members(
                data@,
                pos as int,
                opt_version_view(version),
                opt_players_view(players),
                opt_rjt_view(description),
                opt_str_view(favicon),
                opt_modinfo_view(modinfo),
            ) == Some((v@, end as int)) && pos < end <= data@.len(),
            None => spec_walk_status_members(
                data@,
                pos as int,
                opt_version_view(version),
                opt_players_view(players),
                opt_rjt_view(description),
                opt_str_view(favicon),
                opt_modinfo_view(modinfo),
            ) is None,
        }),
    decreases data@.len() - pos, 1int,
{
    let mut version = version;
    let mut players = players;
    let mut description = description;
    let mut favicon = favicon;
    let mut modinfo = modinfo;
    let p: usize = skip_ws(data, pos);
    if p >= data.len() {
        return None;
    }
    if data[p] == 0x7d {
        return finish_status(version, players, description, favicon, modinfo, p + 1);
    }
    let (kb, p1): (Vec<u8>, usize) = match parse_jstr(data, p) {
        Some(v) => v,
        None => { return None },
    };
    proof {
        crate::json::lemma_parse_jstr_end(data@, p as int);
    }
    let p2: usize = skip_ws(data, p1);
    if p2 >= data.len() || data[p2] != 0x3a {
        return None;
    }
    let pv: usize = skip_ws(data, p2 + 1);
    if pv >= data.len() {
        return None;
    }
    let e: usize;
    if bytes_eq_lit(&kb, "version") {
        if data[pv] != 0x7b {
            return None;
        }
        let (v, e1): (Version, usize) = match walk_version_members(data, pv + 1, None, None) {
            Some(v) => v,
            None => { return None },
        };
        version = Some(v);
        e = e1;
    } else if bytes_eq_lit(&kb, "players") {
        if data[pv] != 0x7b {
            return None;
        }
        let (v, e1): (Players, usize) = match walk_players_members(data, pv + 1, None, None, None) {
            Some(v) => v,
            None => { return None },
        };
        players = Some(v);
        e = e1;
    } else if bytes_eq_lit(&kb, "description") {
        let (v, e1): (RawJsonText, usize) = match walk_text_value(data, pv) {
            Some(v) => v,
            None => { return None },
        };
        description = Some(v);
        e = e1;
    } else if bytes_eq_lit(&kb, "favicon") {
        let (v, e1): (Option<String>, usize) = match parse_opt_str(data, pv) {
            Some(v) => v,
            None => { return None },
        };
        proof {
            crate::raw_json_text::lemma_parse_opt_str_end(data@, pv as int);
        }
        favicon = v;
        e = e1;
    } else if bytes_eq_lit(&kb, "modinfo") {
        match expect_lit(data, pv, "null") {
            Some(e1) => {
                proof {
                    reveal_strlit("null");
                    lemma_ascii_bytes("null");
                }
                modinfo = None;
                e = e1;
            },
            None => {
                if data[pv] != 0x7b {
                    return None;
                }
                let (v, e1): (Modinfo, usize) = match walk_modinfo_members(
                    data,
                    pv + 1,
                    None,
                    None,
                ) {
                    Some(v) => v,
                    None => { return None },
                };
                modinfo = Some(v);
                e = e1;
            },
        }
    } else {
        e = match skip_value(data, pv) {
            Some(e1) => e1,
            None => { return None },
        };
    }
    match member_sep(data, e) {
        Some((more, q)) => if more {
            walk_status_members(data, q, version, players, description, favicon, modinfo)
        } else {
            finish_status(version, players, description, favicon, modinfo, q)
        },
        None => None,
    }
}

/// The finished document, where the required members were all seen.
fn finish_status(
    version: Option<Version>,
    players: Option<Players>,
    description: Option<RawJsonText>,
    favicon: Option<String>,
    modinfo: Option<Modinfo>,
    end: usize,
) -> (r: Option<(StatusResponse, usize)>)
    ensures
        (match r {
            Some((v, e)) => spec_finish_status(
                opt_version_view(version),
                opt_players_view(players),
                opt_rjt_view(description),
                opt_str_view(favicon),
                opt_modinfo_view(modinfo),
                end as int,
            ) == Some((v@, e as int)) && e == end,
            None => spec_finish_status(
                opt_version_view(version),
                opt_players_view(players),
                opt_rjt_view(description),
                opt_str_view(favicon),
                opt_modinfo_view(modinfo),
                end as int,
            ) is None,
        }),
{
    match (version, players, description) {
        (Some(v), Some(pl), Some(d)) => Some(
            (StatusResponse { version: v, players: pl, description: d, favicon, modinfo }, end),
        ),
        _ => None,
    }
}

/// Walks a version object's members.
fn walk_version_members(
    data: &Vec<u8>,
    pos: usize,
    name: Option<String>,
    protocol: Option<i32>,
) -> (r: Option<(Version, usize)>)
    requires
        pos <= data@.len(),
    ensures
        (match r {
            Some((v, end)) => spec_walk_version_members(
                data@,
                pos as int,
                opt_str_view(name),
                protocol,
            ) == Some((v@, end as int)) && pos < end <= data@.len(),
            None => spec_walk_version_members(
                data@,
                pos as int,
                opt_str_view(name),
                protocol,
            ) is None,
        }),
    decreases data@.len() - pos, 1int,
{
    let mut name = name;
    let mut protocol = protocol;
    let p: usize = skip_ws(data, pos);
    if p >= data.len() {
        return None;
    }
    if data[p] == 0x7d {
        return match (name, protocol) {
            (Some(n), Some(pr)) => Some((Version { name: n, protocol: pr }, p + 1)),
            _ => None,
        };
    }
    let (kb, p1): (Vec<u8>, usize) = match parse_jstr(data, p) {
        Some(v) => v,
        None => { return None },
    };
    proof {
        crate::json::lemma_parse_jstr_end(data@, p as int);
    }
    let p2: usize = skip_ws(data, p1);
    if p2 >= data.len() || data[p2] != 0x3a {
        return None;
    }
    let pv: usize = skip_ws(data, p2 + 1);
    if pv >= data.len() {
        return None;
    }
    let e: usize;
    if bytes_eq_lit(&kb, "name") {
        let (bs, e1): (Vec<u8>, usize) = match parse_jstr(data, pv) {
            Some(v) => v,
            None => { return None },
        };
        proof {
            crate::json::lemma_parse_jstr_end(data@, pv as int);
        }
        name = match bytes_to_string(bs) {
            Some(s) => Some(s),
            None => { return None },
        };
        e = e1;
    } else if bytes_eq_lit(&kb, "protocol") {
        let (v, e1): (i32, usize) = match parse_i32(data, pv) {
            Some(v) => v,
            None => { return None },
        };
        proof {
            lemma_parse_i32_end(data@, pv as int);
        }
        protocol = Some(v);
        e = e1;
    } else {
        e = match skip_value(data, pv) {
            Some(e1) => e1,
            None => { return None },
        };
    }
    match member_sep(data, e) {
        Some((more, q)) => if more {
            walk_version_members(data, q, name, protocol)
        } else {
            match (name, protocol) {
                (Some(n), Some(pr)) => Some((Version { name: n, protocol: pr }, q)),
                _ => None,
            }
        },
        None => None,
    }
}

/// Walks a players object's members.
fn walk_players_members(
    data: &Vec<u8>,
    pos: usize,
    max: Option<usize>,
    online: Option<usize>,
    sample: Option<Vec<SamplePlayer>>,
) -> (r: Option<(Players, usize)>)
    requires
        pos <= data@.len(),
    ensures
        (match r {
            Some((v, end)) => spec_walk_players_members(
                data@,
                pos as int,
                max,
                online,
                opt_sample_view(sample),
            ) == Some((v@, end as int)) && pos < end <= data@.len(),
            None => spec_walk_players_members(
                data@,
                pos as int,
                max,
                online,
                opt_sample_view(sample),
            ) is None,
        }),
    decreases data@.len() - pos, 1int,
{
    let mut max = max;
    let mut online = online;
    let mut sample = sample;
    let p: usize = skip_ws(data, pos);
    if p >= data.len() {
        return None;
    }
    if data[p] == 0x7d {
        return match (max, online) {
            (Some(m), Some(o)) => Some((Players { max: m, online: o, sample }, p + 1)),
            _ => None,
        };
    }
    let (kb, p1): (Vec<u8>, usize) = match parse_jstr(data, p) {
        Some(v) => v,
        None => { return None },
    };
    proof {
        crate::json::lemma_parse_jstr_end(data@, p as int);
    }
    let p2: usize = skip_ws(data, p1);
    if p2 >= data.len() || data[p2] != 0x3a {
        return None;
    }
    let pv: usize = skip_ws(data, p2 + 1);
    if pv >= data.len() {
        return None;
    }
    let e: usize;
    if bytes_eq_lit(&kb, "max") {
        let (v, e1): (u64, usize) = match parse_u64(data, pv) {
            Some(v) => v,
            None => {
                proof {
                    if spec_parse_dec(data@, pv as int) is Some {
                        assert(spec_parse_dec(data@, pv as int).unwrap().0 > u64::MAX
                            >= usize::MAX);
                    }
                }
                return None;
            },
        };
        if v > (usize::MAX as u64) {
            return None;
        }
        proof {
            lemma_parse_dec_end(data@, pv as int);
        }
        max = Some(v as usize);
        e = e1;
    } else if bytes_eq_lit(&kb, "online") {
        let (v, e1): (u64, usize) = match parse_u64(data, pv) {
            Some(v) => v,
            None => {
                proof {
                    if spec_parse_dec(data@, pv as int) is Some {
                        assert(spec_parse_dec(data@, pv as int).unwrap().0 > u64::MAX
                            >= usize::MAX);
                    }
                }
                return None;
            },
        };
        if v > (usize::MAX as u64) {
            return None;
        }
        proof {
            lemma_parse_dec_end(data@, pv as int);
        }
        online = Some(v as usize);
        e = e1;
    } else if bytes_eq_lit(&kb, "sample") {
        match expect_lit(data, pv, "null") {
            Some(e1) => {
                proof {
                    reveal_strlit("null");
                    lemma_ascii_bytes("null");
                }
                sample = None;
                e = e1;
            },
            None => {
                if data[pv] != 0x5b {
                    return None;
                }
                let (items, e1): (Vec<SamplePlayer>, usize) = match walk_sample_list(
                    data,
                    pv + 1,
                ) {
                    Some(v) => v,
                    None => { return None },
                };
                sample = Some(items);
                e = e1;
            },
        }
    } else {
        e = match skip_value(data, pv) {
            Some(e1) => e1,
            None => { return None },
        };
    }
    match member_sep(data, e) {
        Some((more, q)) => if more {
            walk_players_members(data, q, max, online, sample)
        } else {
            match (max, online) {
                (Some(m), Some(o)) => Some((Players { max: m, online: o, sample }, q)),
                _ => None,
            }
        },
        None => None,
    }
}

/// The view of an optional sample list.
pub open spec fn opt_sample_view(v: Option<Vec<SamplePlayer>>) -> Option<Seq<SamplePlayerView>> {
    match v {
        Some(x) => Some(sample_seq_view(x@)),
        None => None,
    }
}

/// Walks the items of a sample list.
fn walk_sample_list(data: &Vec<u8>, pos: usize) -> (r: Option<(Vec<SamplePlayer>, usize)>)
    requires
        pos <= data@.len(),
    ensures
        (match r {
            Some((items, end)) => spec_walk_sample_list(data@, pos as int) == Some(
                (sample_seq_view(items@), end as int),
            ) && pos < end <= data@.len(),
            None => spec_walk_sample_list(data@, pos as int) is None,
        }),
    decreases data@.len() - pos, 3int,
{
    let p: usize = skip_ws(data, pos);
    if p >= data.len() {
        return None;
    }
    if data[p] == 0x5d {
        let items: Vec<SamplePlayer> = Vec::new();
        proof {
            assert(sample_seq_view(items@) =~= Seq::<SamplePlayerView>::empty());
        }
        return Some((items, p + 1));
    }
    if data[p] != 0x7b {
        return None;
    }
    let (it, e): (SamplePlayer, usize) = match walk_sample_members(data, p + 1, None, None) {
        Some(v) => v,
        None => { return None },
    };
    match item_sep(data, e) {
        Some((more, q)) => if more {
            let (mut rest, e2): (Vec<SamplePlayer>, usize) = match walk_sample_list(data, q) {
                Some(v) => v,
                None => { return None },
            };
            proof {
                assert(rest@.insert(0, it) =~= seq![it] + rest@);
                lemma_sample_seq_view_cons(it, rest@);
            }
            rest.insert(0, it);
            Some((rest, e2))
        } else {
            let mut items: Vec<SamplePlayer> = Vec::new();
            items.push(it);
            proof {
                assert(items@ =~= seq![it]);
                lemma_sample_seq_view_one(it);
            }
            Some((items, q))
        },
        None => None,
    }
}

/// The view of a list grows at the front as the list does.
proof fn lemma_sample_seq_view_cons(x: SamplePlayer, rest: Seq<SamplePlayer>)
    ensures
        sample_seq_view(seq![x] + rest) == seq![x@] + sample_seq_view(rest),
{
    let w = seq![x] + rest;
    assert(w[0] == x);
    assert(w.subrange(1, w.len() as int) =~= rest);
}

/// The view of a one-item list.
proof fn lemma_sample_seq_view_one(x: SamplePlayer)
    ensures
        sample_seq_view(seq![x]) == seq![x@],
{
    let w = seq![x];
    assert(w.subrange(1, 1) =~= Seq::<SamplePlayer>::empty());
    assert(sample_seq_view(Seq::<SamplePlayer>::empty()) =~= Seq::<SamplePlayerView>::empty());
    assert(w[0] == x);
    assert(seq![x@] + Seq::<SamplePlayerView>::empty() =~= seq![x@]);
    assert(sample_seq_view(w) =~= seq![x@]);
}

/// Walks one sampled player's members.
fn walk_sample_members(data: &Vec<u8>, pos: usize, name: Option<String>, id: Option<String>) -> (r:
    Option<(SamplePlayer, usize)>)
    requires
        pos <= data@.len(),
    ensures
        (match r {
            Some((v, end)) => spec_walk_sample_members(
                data@,
                pos as int,
                opt_str_view(name),
                opt_str_view(id),
            ) == Some((v@, end as int)) && pos < end <= data@.len(),
            None => spec_walk_sample_members(
                data@,
                pos as int,
                opt_str_view(name),
                opt_str_view(id),
            ) is None,
        }),
    decreases data@.len() - pos, 1int,
{
    let mut name = name;
    let mut id = id;
    let p: usize = skip_ws(data, pos);
    if p >= data.len() {
        return None;
    }
    if data[p] == 0x7d {
        return match (name, id) {
            (Some(n), Some(i)) => Some((SamplePlayer { name: n, id: i }, p + 1)),
            _ => None,
        };
    }
    let (kb, p1): (Vec<u8>, usize) = match parse_jstr(data, p) {
        Some(v) => v,
        None => { return None },
    };
    proof {
        crate::json::lemma_parse_jstr_end(data@, p as int);
    }
    let p2: usize = skip_ws(data, p1);
    if p2 >= data.len() || data[p2] != 0x3a {
        return None;
    }
    let pv: usize = skip_ws(data, p2 + 1);
    if pv >= data.len() {
        return None;
    }
    let e: usize;
    if bytes_eq_lit(&kb, "name") {
        let (bs, e1): (Vec<u8>, usize) = match parse_jstr(data, pv) {
            Some(v) => v,
            None => { return None },
        };
        proof {
            crate::json::lemma_parse_jstr_end(data@, pv as int);
        }
        name = match bytes_to_string(bs) {
            Some(s) => Some(s),
            None => { return None },
        };
        e = e1;
    } else if bytes_eq_lit(&kb, "id") {
        let (bs, e1): (Vec<u8>, usize) = match parse_jstr(data, pv) {
            Some(v) => v,
            None => { return None },
        };
        proof {
            crate::json::lemma_parse_jstr_end(data@, pv as int);
        }
        id = match bytes_to_string(bs) {
            Some(s) => Some(s),
            None => { return None },
        };
        e = e1;
    } else {
        e = match skip_value(data, pv) {
            Some(e1) => e1,
            None => { return None },
        };
    }
    match member_sep(data, e) {
        Some((more, q)) => if more {
            walk_sample_members(data, q, name, id)
        } else {
            match (name, id) {
                (Some(n), Some(i)) => Some((SamplePlayer { name: n, id: i }, q)),
                _ => None,
            }
        },
        None => None,
    }
}

/// Walks a mod description's members.
fn walk_modinfo_members(
    data: &Vec<u8>,
    pos: usize,
    mod_list: Option<Vec<String>>,
    kind: Option<String>,
) -> (r: Option<(Modinfo, usize)>)
    requires
        pos <= data@.len(),
    ensures
        (match r {
            Some((v, end)) => spec_walk_modinfo_members(
                data@,
                pos as int,
                opt_str_list_view(mod_list),
                opt_str_view(kind),
            ) == Some((v@, end as int)) && pos < end <= data@.len(),
            None => spec_walk_modinfo_members(
                data@,
                pos as int,
                opt_str_list_view(mod_list),
                opt_str_view(kind),
            ) is None,
        }),
    decreases data@.len() - pos, 1int,
{
    let mut mod_list = mod_list;
    let mut kind = kind;
    let p: usize = skip_ws(data, pos);
    if p >= data.len() {
        return None;
    }
    if data[p] == 0x7d {
        return match (mod_list, kind) {
            (Some(m), Some(k)) => Some((Modinfo { mod_list: m, kind: k }, p + 1)),
            _ => None,
        };
    }
    let (kb, p1): (Vec<u8>, usize) = match parse_jstr(data, p) {
        Some(v) => v,
        None => { return None },
    };
    proof {
        crate::json::lemma_parse_jstr_end(data@, p as int);
    }
    let p2: usize = skip_ws(data, p1);
    if p2 >= data.len() || data[p2] != 0x3a {
        return None;
    }
    let pv: usize = skip_ws(data, p2 + 1);
    if pv >= data.len() {
        return None;
    }
    let e: usize;
    if bytes_eq_lit(&kb, "modList") {
        if data[pv] != 0x5b {
            return None;
        }
        let (items, e1): (Vec<String>, usize) = match walk_str_list(data, pv + 1) {
            Some(v) => v,
            None => { return None },
        };
        mod_list = Some(items);
        e = e1;
    } else if bytes_eq_lit(&kb, "type") {
        let (bs, e1): (Vec<u8>, usize) = match parse_jstr(data, pv) {
            Some(v) => v,
            None => { return None },
        };
        proof {
            crate::json::lemma_parse_jstr_end(data@, pv as int);
        }
        kind = match bytes_to_string(bs) {
            Some(s) => Some(s),
            None => { return None },
        };
        e = e1;
    } else {
        e = match skip_value(data, pv) {
            Some(e1) => e1,
            None => { return None },
        };
    }
    match member_sep(data, e) {
        Some((more, q)) => if more {
            walk_modinfo_members(data, q, mod_list, kind)
        } else {
            match (mod_list, kind) {
                (Some(m), Some(k)) => Some((Modinfo { mod_list: m, kind: k }, q)),
                _ => None,
            }
        },
        None => None,
    }
}

/// The view of an optional string list.
pub open spec fn opt_str_list_view(v: Option<Vec<String>>) -> Option<Seq<Seq<char>>> {
    match v {
        Some(x) => Some(str_seq_view(x@)),
        None => None,
    }
}

/// Walks the items of a string list.
fn walk_str_list(data: &Vec<u8>, pos: usize) -> (r: Option<(Vec<String>, usize)>)
    requires
        pos <= data@.len(),
    ensures
        (match r {
            Some((items, end)) => spec_walk_str_list(data@, pos as int) == Some(
                (str_seq_view(items@), end as int),
            ) && pos < end <= data@.len(),
            None => spec_walk_str_list(data@, pos as int) is None,
        }),
    decreases data@.len() - pos, 3int,
{
    let p: usize = skip_ws(data, pos);
    if p >= data.len() {
        return None;
    }
    if data[p] == 0x5d {
        let items: Vec<String> = Vec::new();
        proof {
            assert(str_seq_view(items@) =~= Seq::<Seq<char>>::empty());
        }
        return Some((items, p + 1));
    }
    let (bs, e): (Vec<u8>, usize) = match parse_jstr(data, p) {
        Some(v) => v,
        None => { return None },
    };
    proof {
        crate::json::lemma_parse_jstr_end(data@, p as int);
    }
    let it: String = match bytes_to_string(bs) {
        Some(s) => s,
        None => { return None },
    };
    match item_sep(data, e) {
        Some((more, q)) => if more {
            let (mut rest, e2): (Vec<String>, usize) = match walk_str_list(data, q) {
                Some(v) => v,
                None => { return None },
            };
            proof {
                assert(rest@.insert(0, it) =~= seq![it] + rest@);
                lemma_str_seq_view_cons(it, rest@);
            }
            rest.insert(0, it);
            Some((rest, e2))
        } else {
            let mut items: Vec<String> = Vec::new();
            items.push(it);
            proof {
                assert(items@ =~= seq![it]);
                lemma_str_seq_view_one(it);
            }
            Some((items, q))
        },
        None => None,
    }
}

/// The view of a string list grows at the front as the list does.
proof fn lemma_str_seq_view_cons(x: String, rest: Seq<String>)
    ensures
        str_seq_view(seq![x] + rest) == seq![x@] + str_seq_view(rest),
{
    let w = seq![x] + rest;
    assert(w[0] == x);
    assert(w.subrange(1, w.len() as int) =~= rest);
}

/// The view of a one-item string list.
proof fn lemma_str_seq_view_one(x: String)
    ensures
        str_seq_view(seq![x]) == seq![x@],
{
    let w = seq![x];
    assert(w.subrange(1, 1) =~= Seq::<String>::empty());
    assert(str_seq_view(Seq::<String>::empty()) =~= Seq::<Seq<char>>::empty());
    assert(w[0] == x);
    assert(seq![x@] + Seq::<Seq<char>>::empty() =~= seq![x@]);
    assert(str_seq_view(w) =~= seq![x@]);
}

/// A signed decimal read at `pos` ends past where it began and within the
/// input.
pub proof fn lemma_parse_i32_end(s: Seq<u8>, pos: int)
    requires
        0 <= pos,
    ensures
        (match spec_parse_i32(s, pos) {
            Some((_v, e)) => pos < e <= s.len(),
            None => true,
        }),
{
    lemma_parse_dec_end(s, pos);
    if 0 <= pos < s.len() && s[pos] == 0x2d {
        lemma_parse_dec_end(s, pos + 1);
    }
}

/// An unsigned decimal read at `pos` ends past where it began and within
/// the input.
pub proof fn lemma_parse_dec_end(s: Seq<u8>, pos: int)
    requires
        0 <= pos,
    ensures
        (match spec_parse_dec(s, pos) {
            Some((_v, e)) => pos < e <= s.len(),
            None => true,
        }),
{
    if pos < s.len() && is_digit(s[pos]) {
        crate::json::lemma_run_end_bounds(s, pos);
        crate::json::lemma_run_end_in_range(s, pos, pos + 1);
    }
}

} // verus!
