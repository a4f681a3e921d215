use vstd::prelude::*;
use vstd::string::StringExecFns;
use vstd::utf8::encode_utf8;

use crate::error::Error;
use crate::packet::{read_packet, spec_packet_frame, spec_read_packet, write_packet, PacketEncoder};
use crate::packet::disconnect_login::DisconnectLogin;
use crate::packet::handshake::Handshake;
use crate::packet::ping::Ping;
use crate::packet::status_request::StatusRequest;
use crate::packet::status_response::{lemma_status_json_len, spec_status_json,
    status_readback_supported, Players, StatusResponse, Version};
use crate::raw_json_text::{spec_rjt_json, RawJsonText, RawJsonTextView};
use crate::varint::spec_varint;

verus! {

/// The synthetic metadata the responder serves while the backend is not
/// reachable: an operator-chosen display name and message of the day, a
/// fixed protocol number, and player counts that only signal emptiness.
#[derive(Debug)]
pub struct MotdConfig {
    pub version_name: String,
    pub protocol: i32,
    pub players_max: usize,
    pub players_online: usize,
    pub motd: String,
}

impl MotdConfig {
    /// The text fields are small enough for the document to fit a frame.
    pub open spec fn wf(&self) -> bool {
        &&& encode_utf8(self.version_name@).len() <= 0xffff
        &&& encode_utf8(self.motd@).len() <= 0xff_ffff
    }

    /// The status document this configuration stands for.
    pub fn status_response(&self) -> (r: StatusResponse)
        requires
            self.wf(),
        ensures
            r@.version.name == self.version_name@,
            r@.version.protocol == self.protocol,
            r@.players.max == self.players_max,
            r@.players.online == self.players_online,
            r@.players.sample is None,
            r@.description == RawJsonTextView::String(self.motd@),
            r@.favicon is None,
            r@.modinfo is None,
            r.enc_wf(),
            status_readback_supported(r),
    {
        let r = StatusResponse {
            version: Version { name: self.version_name.clone(), protocol: self.protocol },
            players: Players { max: self.players_max, online: self.players_online, sample: None },
            description: RawJsonText::String(self.motd.clone()),
            favicon: None,
            modinfo: None,
        };
        proof {
            lemma_status_json_len(r);
            crate::json::lemma_escape_len(encode_utf8(self.motd@));
        }
        r
    }
}

/// What one status dialogue answers, given the input bytes just past the
/// handshake: the response to the status request, then the echo of the
/// keepalive, or the first read error.
pub open spec fn spec_motd_session(resp: StatusResponse, s: Seq<u8>, pos: int) -> Result<
    (Seq<u8>, int),
    Error,
> {
    match spec_read_packet::<StatusRequest>(s, pos) {
        Ok((_r, p1)) => match spec_read_packet::<Ping>(s, p1) {
            Ok((payload, p2)) => Ok(
                (
                    spec_packet_frame(&resp) + crate::packet::spec_frame(
                        spec_varint(0x01) + crate::wire::spec_u64_le(payload),
                    ),
                    p2,
                ),
            ),
            Err(e) => Err(e),
        },
        Err(e) => Err(e),
    }
}

/// The frame of the prepared status response.
fn write_status_frame(resp: &StatusResponse) -> (r: Vec<u8>)
    requires
        resp.enc_wf(),
    ensures
        r@ == spec_packet_frame(resp),
{
    let mut out: Vec<u8> = Vec::new();
    proof {
        crate::varint::lemma_spec_varint_len(0x00);
        crate::varint::lemma_spec_varint_len(spec_status_json(*resp).len() as u32);
    }
    write_packet(resp, &mut out);
    proof {
        assert(Seq::<u8>::empty() + spec_packet_frame(resp) =~= spec_packet_frame(resp));
    }
    out
}

/// The frame of a keepalive echo.
fn write_ping_frame(ping: &Ping) -> (r: Vec<u8>)
    ensures
        r@ == crate::packet::spec_frame(spec_varint(0x01) + crate::wire::spec_u64_le(ping@)),
{
    let mut out: Vec<u8> = Vec::new();
    proof {
        crate::varint::lemma_spec_varint_len(0x01);
    }
    write_packet(ping, &mut out);
    proof {
        assert(Seq::<u8>::empty() + spec_packet_frame(ping) =~= spec_packet_frame(ping));
    }
    out
}

/// Answers one status dialogue: reads the status request, answers with
/// `resp`, reads the keepalive, echoes its payload back.  The bytes handed
/// back are what the connection is sent, in order; the position is the
/// frame boundary after the keepalive.
#[verifier::rlimit(100)]
#[verifier::spinoff_prover]
pub fn motd_session(resp: &StatusResponse, input: &Vec<u8>, pos: usize) -> (r: Result<
    (Vec<u8>, usize),
    Error,
>)
    requires
        resp.enc_wf(),
    ensures
        (match r {
            Ok((out, end)) => spec_motd_session(*resp, input@, pos as int) == Ok::<
                (Seq<u8>, int),
                Error,
            >((out@, end as int)),
            Err(e) => spec_motd_session(*resp, input@, pos as int) == Err::<(Seq<u8>, int), Error>(
                e,
            ),
        }),
{
    let (_req, p1): (StatusRequest, usize) = match read_packet::<StatusRequest>(input, pos) {
        Ok(v) => v,
        Err(e) => { return Err(e) },
    };
    let mut out: Vec<u8> = write_status_frame(resp);
    let (ping, p2): (Ping, usize) = match read_packet::<Ping>(input, p1) {
        Ok(v) => v,
        Err(e) => { return Err(e) },
    };
    let mut echo: Vec<u8> = write_ping_frame(&ping);
    out.append(&mut echo);
    Ok((out, p2))
}

/// What one whole inbound connection answers, as the standalone responder
/// does it: a status dialogue, a disconnect notice for a login, or a
/// protocol error for anything else, on which nothing is sent back.
pub open spec fn spec_handle_connection(
    resp: StatusResponse,
    reason: DisconnectLogin,
    s: Seq<u8>,
) -> Result<Seq<u8>, Error> {
    match spec_read_packet::<Handshake>(s, 0) {
        Ok((h, p1)) => if h.next_status == 1 {
            match spec_motd_session(resp, s, p1) {
                Ok((out, _end)) => Ok(out),
                Err(e) => Err(e),
            }
        } else if h.next_status == 2 {
            Ok(spec_packet_frame(&reason))
        } else {
            Err(Error::UnsupportedNextState)
        },
        Err(e) => Err(e),
    }
}

/// Handles one whole inbound connection against a prepared response and
/// disconnect notice.
#[verifier::rlimit(100)]
#[verifier::spinoff_prover]
pub fn handle_connection(resp: &StatusResponse, reason: &DisconnectLogin, input: &Vec<u8>) -> (r:
    Result<Vec<u8>, Error>)
    requires
        resp.enc_wf(),
        reason.enc_wf(),
    ensures
        (match r {
            Ok(out) => spec_handle_connection(*resp, *reason, input@) == Ok::<Seq<u8>, Error>(
                out@,
            ),
            Err(e) => spec_handle_connection(*resp, *reason, input@) == Err::<Seq<u8>, Error>(e),
        }),
{
    let (h, p1): (Handshake, usize) = match read_packet::<Handshake>(input, 0) {
        Ok(v) => v,
        Err(e) => { return Err(e) },
    };
    if h.next_status == 1 {
        match motd_session(resp, input, p1) {
            Ok((out, _end)) => Ok(out),
            Err(e) => Err(e),
        }
    } else if h.next_status == 2 {
        let mut out: Vec<u8> = Vec::new();
        proof {
            crate::varint::lemma_spec_varint_len(0x00);
            crate::varint::lemma_spec_varint_len(spec_rjt_json(reason.reason).len() as u32);
        }
        write_packet(reason, &mut out);
        proof {
            assert(Seq::<u8>::empty() + spec_packet_frame(reason) =~= spec_packet_frame(reason));
        }
        Ok(out)
    } else {
        Err(Error::UnsupportedNextState)
    }
}

/// The standalone responder: it answers every connection itself, with
/// fixed metadata, and never touches a backend.
#[derive(Debug)]
pub struct Server {
    pub response: StatusResponse,
    pub reason: DisconnectLogin,
}

impl Server {
    /// The prepared answers fit their frames.
    pub open spec fn wf(&self) -> bool {
        &&& self.response.enc_wf()
        &&& self.reason.enc_wf()
    }

    /// Answers one connection's bytes.
    pub fn serve_connection(&self, input: &Vec<u8>) -> (r: Result<Vec<u8>, Error>)
        requires
            self.wf(),
        ensures
            (match r {
                Ok(out) => spec_handle_connection(self.response, self.reason, input@) == Ok::<
                    Seq<u8>,
                    Error,
                >(out@),
                Err(e) => spec_handle_connection(self.response, self.reason, input@) == Err::<
                    Seq<u8>,
                    Error,
                >(e),
            }),
    {
        handle_connection(&self.response, &self.reason, input)
    }
}

impl Default for Server {
    /// The standalone responder's fixed metadata.
    fn default() -> (r: Server)
        ensures
            r.wf(),
            r.response@.version.name == "Motd Only Server"@,
            r.response@.version.protocol == 765,
            r.response@.players.max == 100,
            r.response@.players.online == 1,
            r.response@.description == RawJsonTextView::String("Hello from Rust!"@),
            crate::raw_json_text::rjt_view(r.reason.reason) == RawJsonTextView::String(
                "Hello!"@,
            ),
    {
        let cfg = MotdConfig {
            version_name: String::from_str("Motd Only Server"),
            protocol: 765,
            players_max: 100,
            players_online: 1,
            motd: String::from_str("Hello from Rust!"),
        };
        proof {
            reveal_strlit("Motd Only Server");
            reveal_strlit("Hello from Rust!");
            crate::json::lemma_ascii_bytes("Motd Only Server");
            crate::json::lemma_ascii_bytes("Hello from Rust!");
        }
        let response = cfg.status_response();
        let reason = DisconnectLogin { reason: RawJsonText::String(String::from_str("Hello!")) };
        proof {
            reveal_strlit("Hello!");
            crate::json::lemma_ascii_bytes("Hello!");
            crate::json::lemma_escape_len(encode_utf8("Hello!"@));
        }
        Server { response, reason }
    }
}

} // verus!
