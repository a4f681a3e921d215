use vstd::prelude::*;
use vstd::utf8::encode_utf8;

use crate::error::Error;
use vstd::utf8::{decode_utf8, valid_utf8};

use crate::packet::{read_packet, spec_frame, spec_read_packet, write_packet, PacketEncoder};
use crate::text::bytes_to_string;
use crate::packet::handshake::Handshake;
use crate::packet::status_request::StatusRequest;
use crate::packet::status_response::StatusResponse;
use crate::varint::{lemma_spec_varint_len, read_varint, spec_read_varint, spec_varint};
use crate::wire::{spec_u16_be, u32_of_i32};

verus! {

/// The protocol number the status client names in its handshake.
pub const CLIENT_PROTOCOL_VERSION: i32 = 765;

/// Where the client stands in the two-step status dialogue.
#[derive(Clone, Copy, Debug, PartialEq, Eq, Structural)]
enum ClientStatus {
    BeforeHandshake,
    AfterHandshake,
}

/// The frame a status client opens with against `host` and `port`.
pub open spec fn spec_client_handshake_frame(host: Seq<char>, port: u16) -> Seq<u8> {
    spec_frame(
        spec_varint(0x00) + (spec_varint(u32_of_i32(CLIENT_PROTOCOL_VERSION)) + spec_varint(
            encode_utf8(host).len() as u32,
        ) + encode_utf8(host) + spec_u16_be(port) + spec_varint(u32_of_i32(1))),
    )
}

/// The frame of the empty status request.
pub open spec fn spec_status_request_frame() -> Seq<u8> {
    spec_frame(spec_varint(0x00))
}

/// The status client: it produces the bytes of the two-step status
/// dialogue against one backend address and reads the answer back.  The
/// connection itself lives with the caller.
#[derive(Debug)]
pub struct Client {
    status: ClientStatus,
    host: String,
    port: u16,
}

impl Client {
    /// The host it dials.
    pub closed spec fn spec_host(&self) -> Seq<char> {
        self.host@
    }

    /// The port it dials.
    pub closed spec fn spec_port(&self) -> u16 {
        self.port
    }

    /// Whether the handshake bytes were already produced.
    pub closed spec fn handshaken(&self) -> bool {
        self.status is AfterHandshake
    }

    /// The host name fits its length prefix.
    pub open spec fn wf(&self) -> bool {
        encode_utf8(self.spec_host()).len() < 0x7fff_0000
    }

    /// A client for one backend address, its handshake still unsent.
    pub fn new(host: &str, port: u16) -> (r: Client)
        requires
            encode_utf8(host@).len() < 0x7fff_0000,
        ensures
            r.spec_host() == host@,
            r.spec_port() == port,
            !r.handshaken(),
            r.wf(),
    {
        Client { status: ClientStatus::BeforeHandshake, host: host.to_owned(), port }
    }

    /// Produces the handshake frame and records that it was produced.
    pub fn handshake(&mut self) -> (r: Vec<u8>)
        requires
            old(self).wf(),
        ensures
            r@ == spec_client_handshake_frame(old(self).spec_host(), old(self).spec_port()),
            final(self).handshaken(),
            final(self).spec_host() == old(self).spec_host(),
            final(self).spec_port() == old(self).spec_port(),
            final(self).wf(),
    {
        let packet = Handshake {
            version: CLIENT_PROTOCOL_VERSION,
            host: self.host.clone(),
            port: self.port,
            next_status: 1,
        };
        let mut out: Vec<u8> = Vec::new();
        proof {
            lemma_spec_varint_len(0x00);
            lemma_spec_varint_len(u32_of_i32(CLIENT_PROTOCOL_VERSION));
            lemma_spec_varint_len(encode_utf8(self.host@).len() as u32);
            lemma_spec_varint_len(u32_of_i32(1));
        }
        write_packet(&packet, &mut out);
        self.status = ClientStatus::AfterHandshake;
        proof {
            assert(out@ =~= spec_client_handshake_frame(self.host@, self.port));
        }
        out
    }

    /// Produces the bytes of one status query: the handshake first, where
    /// it was not yet produced, then the status request.
    pub fn status_query(&mut self) -> (r: Vec<u8>)
        requires
            old(self).wf(),
        ensures
            (if old(self).handshaken() {
                r@ == spec_status_request_frame()
            } else {
                r@ == spec_client_handshake_frame(old(self).spec_host(), old(self).spec_port())
                    + spec_status_request_frame()
            }),
            final(self).handshaken(),
            final(self).spec_host() == old(self).spec_host(),
            final(self).spec_port() == old(self).spec_port(),
            final(self).wf(),
    {
        let mut out: Vec<u8> = match self.status {
            ClientStatus::BeforeHandshake => self.handshake(),
            ClientStatus::AfterHandshake => Vec::new(),
        };
        proof {
            lemma_spec_varint_len(0x00);
        }
        let req = StatusRequest {};
        write_packet(&req, &mut out);
        proof {
            assert(spec_varint(0x00) + req.spec_body() =~= spec_varint(0x00));
            if old(self).handshaken() {
                assert(out@ =~= spec_status_request_frame());
            }
        }
        out
    }

    /// Reads the status document out of the answer bytes.
    pub fn read_status(&self, data: &Vec<u8>) -> (r: Result<StatusResponse, Error>)
        ensures
            (match r {
                Ok(resp) => (match spec_read_packet::<StatusResponse>(data@, 0) {
                    Ok((v, _end)) => v == resp@,
                    Err(_) => false,
                }),
                Err(e) => spec_read_packet::<StatusResponse>(data@, 0) is Err,
            }),
    {
        match read_packet::<StatusResponse>(data, 0) {
            Ok((resp, _end)) => Ok(resp),
            Err(e) => Err(e),
        }
    }

    /// Reads how many players the answer bytes say are online.
    pub fn get_online_players_count(&self, data: &Vec<u8>) -> (r: Result<usize, Error>)
        ensures
            (match r {
                Ok(n) => (match spec_read_packet::<StatusResponse>(data@, 0) {
                    Ok((v, _end)) => n == v.players.online,
                    Err(_) => false,
                }),
                Err(e) => spec_read_packet::<StatusResponse>(data@, 0) is Err,
            }),
    {
        match self.read_status(data) {
            Ok(resp) => Ok(resp.players.online),
            Err(e) => Err(e),
        }
    }
}


/// What reading one text-bodied packet at `pos` yields: the frame is read,
/// its payload must open with packet id zero, and the rest is a
/// length-prefixed UTF-8 body, handed back whole with the frame boundary.
/// This is the shape of both the status response and the disconnect
/// notice on the wire.
pub open spec fn spec_read_text_packet(s: Seq<u8>, pos: int) -> Result<(Seq<char>, int), Error> {
    match crate::packet::spec_read_frame(s, pos) {
        Ok((payload, end)) => match spec_read_varint(payload, 0) {
            Ok((id, p1)) => if id != 0x00 {
                Err(Error::UnexpectedPacketId)
            } else {
                match spec_read_varint(payload, p1) {
                    Ok((slen, p2)) => if p2 + slen <= payload.len() {
                        if valid_utf8(payload.subrange(p2, p2 + slen)) {
                            Ok((decode_utf8(payload.subrange(p2, p2 + slen)), end))
                        } else {
                            Err(Error::InvalidUtf8)
                        }
                    } else {
                        Err(Error::UnexpectedEof)
                    },
                    Err(e) => Err(e),
                }
            },
            Err(e) => Err(e),
        },
        Err(e) => Err(e),
    }
}

impl Client {
    /// Reads one frame whose payload is a text body — the raw document of
    /// a status response, or a disconnect notice's reason — without
    /// interpreting the text.  The position handed back is the frame
    /// boundary: nothing past the frame is touched.
    pub fn read_text_packet(&self, data: &Vec<u8>, pos: usize) -> (r: Result<
        (String, usize),
        Error,
    >)
        ensures
            (match r {
                Ok((text, end)) => spec_read_text_packet(data@, pos as int) == Ok::<
                    (Seq<char>, int),
                    Error,
                >((text@, end as int)),
                Err(e) => spec_read_text_packet(data@, pos as int) == Err::<
                    (Seq<char>, int),
                    Error,
                >(e),
            }),
    {
        let (payload, end): (Vec<u8>, usize) = match crate::packet::read_frame(data, pos) {
            Ok(v) => v,
            Err(e) => { return Err(e) },
        };
        let (id, p1): (u32, usize) = match read_varint(&payload, 0) {
            Ok(v) => v,
            Err(e) => { return Err(e) },
        };
        if id != 0x00 {
            return Err(Error::UnexpectedPacketId);
        }
        let (slen, p2): (u32, usize) = match read_varint(&payload, p1) {
            Ok(v) => v,
            Err(e) => { return Err(e) },
        };
        assert(p2 <= payload@.len());
        let sl: usize = slen as usize;
        if sl > payload.len() - p2 {
            return Err(Error::UnexpectedEof);
        }
        let hi: usize = p2 + sl;
        let mut body: Vec<u8> = Vec::new();
        let mut i: usize = p2;
        while i < hi
            invariant
                p2 <= i <= hi <= payload@.len(),
                body@ == payload@.subrange(p2 as int, i as int),
            decreases hi - i,
        {
            body.push(payload[i]);
            i = i + 1;
            proof {
                assert(body@ =~= payload@.subrange(p2 as int, i as int));
            }
        }
        match bytes_to_string(body) {
            Some(text) => Ok((text, end)),
            None => Err(Error::InvalidUtf8),
        }
    }
}

} // verus!
