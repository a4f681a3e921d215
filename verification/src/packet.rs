use vstd::prelude::*;

use crate::error::Error;
use crate::varint::{spec_read_varint, spec_varint, write_varint, read_varint, lemma_spec_varint_len,
    lemma_read_spec_varint};

pub mod disconnect_login;
pub mod handshake;
pub mod ping;
pub mod status_request;
pub mod status_response;

verus! {

/// A packet type that can lay its wire body down into a buffer.
pub trait PacketEncoder {
    /// The packet id on the wire.
    spec fn spec_id(&self) -> u32;

    /// The body bytes that follow the id inside the frame.
    spec fn spec_body(&self) -> Seq<u8>;

    /// What must hold of a value for its wire image to exist: every
    /// length-prefixed field fits its prefix.
    spec fn enc_wf(&self) -> bool;

    fn packet_id(&self) -> (id: u32)
        ensures
            id == self.spec_id(),
    ;

    fn encode(&self, out: &mut Vec<u8>)
        requires
            self.enc_wf(),
        ensures
            final(out)@ == old(out)@ + self.spec_body(),
    ;
}

/// A packet type that can be read back from one frame's payload.  Decoding
/// is stated against the value's view, so that text fields can be spoken of
/// as the character sequences they decode to.
pub trait PacketDecoder: View + Sized {
    /// What decoding a frame payload (id and body) yields.
    spec fn spec_decode(payload: Seq<u8>) -> Result<Self::V, Error>;

    fn decode(payload: &Vec<u8>) -> (r: Result<Self, Error>)
        ensures
            (match r {
                Ok(p) => Self::spec_decode(payload@) == Ok::<Self::V, Error>(p@),
                Err(e) => Self::spec_decode(payload@) == Err::<Self::V, Error>(e),
            }),
    ;
}

/// One frame: the payload length as a variable-length integer, then the
/// payload itself, which starts with the packet id.
pub open spec fn spec_frame(payload: Seq<u8>) -> Seq<u8> {
    spec_varint(payload.len() as u32) + payload
}

/// The full frame of one packet value.
pub open spec fn spec_packet_frame<P: PacketEncoder>(packet: &P) -> Seq<u8> {
    spec_frame(spec_varint(packet.spec_id()) + packet.spec_body())
}

/// What reading one frame at `pos` yields: the payload and the position of
/// the next frame.  A frame that announces more bytes than the input still
/// holds is truncated.
pub open spec fn spec_read_frame(s: Seq<u8>, pos: int) -> Result<(Seq<u8>, int), Error> {
    match spec_read_varint(s, pos) {
        Ok((len, p1)) => if p1 + len <= s.len() {
            Ok((s.subrange(p1, p1 + len), p1 + len))
        } else {
            Err(Error::Truncated)
        },
        Err(e) => Err(e),
    }
}

/// What reading one packet of kind `P` at `pos` yields.
pub open spec fn spec_read_packet<P: PacketDecoder>(s: Seq<u8>, pos: int) -> Result<
    (P::V, int),
    Error,
> {
    match spec_read_frame(s, pos) {
        Ok((payload, end)) => match P::spec_decode(payload) {
            Ok(v) => Ok((v, end)),
            Err(e) => Err(e),
        },
        Err(e) => Err(e),
    }
}

/// Copies `data[from..to]` into a fresh buffer.
fn copy_range(data: &Vec<u8>, from: usize, to: usize) -> (r: Vec<u8>)
    requires
        from <= to <= data@.len(),
    ensures
        r@ == data@.subrange(from as int, to as int),
{
    let mut r: Vec<u8> = Vec::new();
    let mut i: usize = from;
    while i < to
        invariant
            from <= i <= to <= data@.len(),
            r@ == data@.subrange(from as int, i as int),
        decreases to - i,
    {
        r.push(data[i]);
        i = i + 1;
        proof {
            assert(r@ =~= data@.subrange(from as int, i as int));
        }
    }
    r
}

/// Appends the frame of `packet`: length prefix, id, body.
pub fn write_packet<P: PacketEncoder>(packet: &P, out: &mut Vec<u8>)
    requires
        packet.enc_wf(),
        spec_varint(packet.spec_id()).len() + packet.spec_body().len() < 0x8000_0000,
    ensures
        final(out)@ == old(out)@ + spec_packet_frame(packet),
{
    let mut payload: Vec<u8> = Vec::new();
    write_varint(packet.packet_id(), &mut payload);
    packet.encode(&mut payload);
    let n: u32 = payload.len() as u32;
    write_varint(n, out);
    out.append(&mut payload);
    assert(final(out)@ =~= old(out)@ + spec_packet_frame(packet));
}

/// Reads one frame at `pos` and hands its payload back.
pub fn read_frame(data: &Vec<u8>, pos: usize) -> (r: Result<(Vec<u8>, usize), Error>)
    ensures
        (match r {
            Ok((payload, end)) => spec_read_frame(data@, pos as int) == Ok::<(Seq<u8>, int), Error>(
                (payload@, end as int),
            ),
            Err(e) => spec_read_frame(data@, pos as int) == Err::<(Seq<u8>, int), Error>(e),
        }),
{
    match read_varint(data, pos) {
        Ok((len, p1)) => {
            assert(p1 <= data@.len());
            let body_len: usize = len as usize;
            if body_len <= data.len() - p1 {
                let payload: Vec<u8> = copy_range(data, p1, p1 + body_len);
                Ok((payload, p1 + body_len))
            } else {
                Err(Error::Truncated)
            }
        },
        Err(e) => Err(e),
    }
}

/// Reads one packet of kind `P` at `pos`: the length prefix, then exactly
/// that many payload bytes, which must open with `P`'s id.  The position
/// handed back is the frame boundary, whatever the payload held beyond the
/// packet's own fields.
pub fn read_packet<P: PacketDecoder>(data: &Vec<u8>, pos: usize) -> (r: Result<(P, usize), Error>)
    ensures
        (match r {
            Ok((p, end)) => spec_read_packet::<P>(data@, pos as int) == Ok::<(P::V, int), Error>(
                (p@, end as int),
            ),
            Err(e) => spec_read_packet::<P>(data@, pos as int) == Err::<(P::V, int), Error>(e),
        }),
{
    match read_frame(data, pos) {
        Ok((payload, end)) => match P::decode(&payload) {
            Ok(p) => Ok((p, end)),
            Err(e) => Err(e),
        },
        Err(e) => Err(e),
    }
}

/// Reading a frame laid down at the start of the input yields its payload
/// and stops exactly at the frame boundary, whatever follows.
pub proof fn lemma_read_frame_of_spec_frame(payload: Seq<u8>, rest: Seq<u8>)
    requires
        payload.len() < 0x8000_0000,
    ensures
        spec_read_frame(spec_frame(payload) + rest, 0) == Ok::<(Seq<u8>, int), Error>(
            (payload, spec_frame(payload).len() as int),
        ),
{
    let lv: u32 = payload.len() as u32;
    let s = spec_frame(payload) + rest;
    lemma_spec_varint_len(lv);
    let vl = spec_varint(lv).len() as int;
    assert(s.subrange(0, vl) =~= spec_varint(lv));
    lemma_read_spec_varint(s, 0, lv);
    assert(s.subrange(vl, vl + lv as int) =~= payload);
}

/// Framing: a stream that holds exactly one well-formed frame, whatever
/// follows it, yields that packet with the reader stopped exactly at the
/// frame boundary; and at the boundary of an input that ends there, the
/// next read signals the unexpected end.  The decoding hypothesis is what
/// each packet type's round-trip law provides.
pub proof fn lemma_framing<P: PacketDecoder + PacketEncoder>(p: P, rest: Seq<u8>)
    requires
        spec_varint(p.spec_id()).len() + p.spec_body().len() < 0x8000_0000,
        P::spec_decode(spec_varint(p.spec_id()) + p.spec_body()) == Ok::<P::V, Error>(p@),
    ensures
        spec_read_packet::<P>(spec_packet_frame(&p) + rest, 0) == Ok::<(P::V, int), Error>(
            (p@, spec_packet_frame(&p).len() as int),
        ),
        spec_read_packet::<P>(spec_packet_frame(&p), spec_packet_frame(&p).len() as int) == Err::<
            (P::V, int),
            Error,
        >(Error::UnexpectedEof),
{
    let payload = spec_varint(p.spec_id()) + p.spec_body();
    lemma_read_frame_of_spec_frame(payload, rest);
    let whole = spec_packet_frame(&p) + rest;
    assert(spec_read_frame(whole, 0) == Ok::<(Seq<u8>, int), Error>(
        (payload, spec_packet_frame(&p).len() as int),
    ));
}

/// The closed packet catalogue, keyed by the packet id inside the frame.
#[derive(Debug)]
pub enum Packet {
    Handshake(handshake::Handshake),
    StatusRequest(status_request::StatusRequest),
    StatusResponse(status_response::StatusResponse),
    Ping(ping::Ping),
    DisconnectLogin(disconnect_login::DisconnectLogin),
}

impl Packet {
    /// Whatever the variant, its wire image exists.
    pub open spec fn enc_wf(&self) -> bool {
        match self {
            Packet::Handshake(p) => p.enc_wf(),
            Packet::StatusRequest(p) => p.enc_wf(),
            Packet::StatusResponse(p) => p.enc_wf(),
            Packet::Ping(p) => p.enc_wf(),
            Packet::DisconnectLogin(p) => p.enc_wf(),
        }
    }

    /// The frame of the carried packet.
    pub open spec fn spec_frame_bytes(&self) -> Seq<u8> {
        match self {
            Packet::Handshake(p) => spec_packet_frame(p),
            Packet::StatusRequest(p) => spec_packet_frame(p),
            Packet::StatusResponse(p) => spec_packet_frame(p),
            Packet::Ping(p) => spec_packet_frame(p),
            Packet::DisconnectLogin(p) => spec_packet_frame(p),
        }
    }

    /// Appends the frame of the carried packet.
    pub fn write(&self, out: &mut Vec<u8>)
        requires
            self.enc_wf(),
        ensures
            final(out)@ == old(out)@ + self.spec_frame_bytes(),
    {
        proof {
            lemma_spec_varint_len(0x00);
            lemma_spec_varint_len(0x01);
        }
        match self {
            Packet::Handshake(p) => {
                proof {
                    lemma_spec_varint_len(vstd::utf8::encode_utf8(p.host@).len() as u32);
                    lemma_spec_varint_len(crate::wire::u32_of_i32(p.version));
                    lemma_spec_varint_len(crate::wire::u32_of_i32(p.next_status));
                }
                write_packet(p, out);
            },
            Packet::StatusRequest(p) => write_packet(p, out),
            Packet::StatusResponse(p) => {
                proof {
                    lemma_spec_varint_len(
                        crate::packet::status_response::spec_status_json(*p).len() as u32,
                    );
                }
                write_packet(p, out);
            },
            Packet::Ping(p) => write_packet(p, out),
            Packet::DisconnectLogin(p) => {
                proof {
                    lemma_spec_varint_len(
                        crate::raw_json_text::spec_rjt_json(p.reason).len() as u32,
                    );
                }
                write_packet(p, out);
            },
        }
    }
}

} // verus!
