use vstd::prelude::*;
use vstd::utf8::{decode_utf8, encode_utf8, valid_utf8};

use crate::error::Error;
use crate::packet::{PacketDecoder, PacketEncoder};
use crate::text::{bytes_to_string, string_bytes};
use crate::varint::{spec_read_varint, spec_varint, read_varint, write_varint,
    lemma_read_spec_varint, lemma_spec_varint_len};
use crate::wire::{i32_of_u32, spec_read_u16_be, spec_u16_be, u32_of_i32, from_wire_u32,
    read_u16_be, to_wire_u32, write_u16_be, lemma_read_u16_be_at};

verus! {

/// The first packet of every connection: the client names the protocol
/// version it speaks, the address it dialled, and whether it wants the
/// status dialogue or to log in.
#[derive(Debug)]
pub struct Handshake {
    pub version: i32,
    pub host: String,
    pub port: u16,
    pub next_status: i32,
}

/// The mathematical image of a handshake: its text field as characters.
#[verifier::ext_equal]
pub ghost struct HandshakeView {
    pub version: i32,
    pub host: Seq<char>,
    pub port: u16,
    pub next_status: i32,
}

impl View for Handshake {
    type V = HandshakeView;

    open spec fn view(&self) -> HandshakeView {
        HandshakeView {
            version: self.version,
            host: self.host@,
            port: self.port,
            next_status: self.next_status,
        }
    }
}

impl PacketEncoder for Handshake {
    open spec fn spec_id(&self) -> u32 {
        0x00
    }

    open spec fn spec_body(&self) -> Seq<u8> {
        spec_varint(u32_of_i32(self.version)) + spec_varint(
            encode_utf8(self.host@).len() as u32,
        ) + encode_utf8(self.host@) + spec_u16_be(self.port) + spec_varint(
            u32_of_i32(self.next_status),
        )
    }

    open spec fn enc_wf(&self) -> bool {
        encode_utf8(self.host@).len() < 0x7fff_0000
    }

    fn packet_id(&self) -> (id: u32) {
        0x00
    }

    fn encode(&self, out: &mut Vec<u8>) {
        write_varint(to_wire_u32(self.version), out);
        let mut host_bytes: Vec<u8> = string_bytes(self.host.as_str());
        write_varint(host_bytes.len() as u32, out);
        out.append(&mut host_bytes);
        write_u16_be(self.port, out);
        write_varint(to_wire_u32(self.next_status), out);
        assert(final(out)@ =~= old(out)@ + self.spec_body());
    }
}

impl PacketDecoder for Handshake {
    open spec fn spec_decode(payload: Seq<u8>) -> Result<HandshakeView, Error> {
        match spec_read_varint(payload, 0) {
            Ok((id, p1)) => if id != 0x00 {
                Err(Error::UnexpectedPacketId)
            } else {
                match spec_read_varint(payload, p1) {
                    Ok((uv, p2)) => match spec_read_varint(payload, p2) {
                        Ok((hlen, p3)) => if p3 + hlen <= payload.len() {
                            if valid_utf8(payload.subrange(p3, p3 + hlen)) {
                                match spec_read_u16_be(payload, p3 + hlen) {
                                    Ok((port, p5)) => match spec_read_varint(payload, p5) {
                                        Ok((un, _p6)) => Ok(
                                            HandshakeView {
                                                version: i32_of_u32(uv),
                                                host: decode_utf8(
                                                    payload.subrange(p3, p3 + hlen),
                                                ),
                                                port,
                                                next_status: i32_of_u32(un),
                                            },
                                        ),
                                        Err(e) => Err(e),
                                    },
                                    Err(e) => Err(e),
                                }
                            } else {
                                Err(Error::InvalidUtf8)
                            }
                        } else {
                            Err(Error::UnexpectedEof)
                        },
                        Err(e) => Err(e),
                    },
                    Err(e) => Err(e),
                }
            },
            Err(e) => Err(e),
        }
    }

    fn decode(payload: &Vec<u8>) -> (r: Result<Self, Error>) {
        let (id, p1): (u32, usize) = match read_varint(payload, 0) {
            Ok(v) => v,
            Err(e) => { return Err(e) },
        };
        if id != 0x00 {
            return Err(Error::UnexpectedPacketId);
        }
        let (uv, p2): (u32, usize) = match read_varint(payload, p1) {
            Ok(v) => v,
            Err(e) => { return Err(e) },
        };
        let (hlen, p3): (u32, usize) = match read_varint(payload, p2) {
            Ok(v) => v,
            Err(e) => { return Err(e) },
        };
        assert(p3 <= payload@.len());
        let hl: usize = hlen as usize;
        if hl > payload.len() - p3 {
            return Err(Error::UnexpectedEof);
        }
        let end: usize = p3 + hl;
        let mut host_bytes: Vec<u8> = Vec::new();
        let mut i: usize = p3;
        while i < end
            invariant
                p3 <= i <= end <= payload@.len(),
                end == p3 + hl,
                host_bytes@ == payload@.subrange(p3 as int, i as int),
            decreases end - i,
        {
            host_bytes.push(payload[i]);
            i = i + 1;
            proof {
                assert(host_bytes@ =~= payload@.subrange(p3 as int, i as int));
            }
        }
        let host: String = match bytes_to_string(host_bytes) {
            Some(s) => s,
            None => { return Err(Error::InvalidUtf8) },
        };
        let (port, p5): (u16, usize) = match read_u16_be(payload, end) {
            Ok(v) => v,
            Err(e) => { return Err(e) },
        };
        let (un, _p6): (u32, usize) = match read_varint(payload, p5) {
            Ok(v) => v,
            Err(e) => { return Err(e) },
        };
        Ok(Handshake {
            version: from_wire_u32(uv),
            host,
            port,
            next_status: from_wire_u32(un),
        })
    }
}

/// Round trip: decoding the encoded payload of any well-formed handshake
/// gives the handshake back.
#[verifier::rlimit(80)]
pub proof fn lemma_handshake_roundtrip(h: Handshake)
    requires
        h.enc_wf(),
    ensures
        Handshake::spec_decode(spec_varint(h.spec_id()) + h.spec_body()) == Ok::<
            HandshakeView,
            Error,
        >(h@),
{
    broadcast use vstd::utf8::encode_utf8_valid_utf8, vstd::utf8::encode_utf8_decode_utf8;

    let uv = u32_of_i32(h.version);
    let hb = encode_utf8(h.host@);
    let hlen: u32 = hb.len() as u32;
    let un = u32_of_i32(h.next_status);
    let a = spec_varint(0x00);
    let b = spec_varint(uv);
    let c = spec_varint(hlen);
    let d = hb;
    let e = spec_u16_be(h.port);
    let f = spec_varint(un);
    let payload = a + (b + c + d + e + f);
    assert(spec_varint(h.spec_id()) + h.spec_body() =~= payload);
    lemma_spec_varint_len(0x00);
    lemma_spec_varint_len(uv);
    lemma_spec_varint_len(hlen);
    lemma_spec_varint_len(un);
    let p1 = a.len() as int;
    let p2 = p1 + b.len() as int;
    let p3 = p2 + c.len() as int;
    let p4 = p3 + d.len() as int;
    let p5 = p4 + 2;
    let p6 = p5 + f.len() as int;
    assert(payload.len() == p6);
    assert(payload.subrange(0, p1) =~= a);
    lemma_read_spec_varint(payload, 0, 0x00);
    assert(payload.subrange(p1, p2) =~= b);
    lemma_read_spec_varint(payload, p1, uv);
    assert(payload.subrange(p2, p3) =~= c);
    lemma_read_spec_varint(payload, p2, hlen);
    assert(payload.subrange(p3, p4) =~= d);
    assert(valid_utf8(d));
    assert(decode_utf8(d) == h.host@);
    assert(payload.subrange(p4, p4 + 2) =~= e);
    lemma_read_u16_be_at(payload, p4, h.port);
    assert(payload.subrange(p5, p6) =~= f);
    lemma_read_spec_varint(payload, p5, un);
    assert(i32_of_u32(uv) == h.version);
    assert(i32_of_u32(un) == h.next_status);
    assert(Handshake::spec_decode(payload) == Ok::<HandshakeView, Error>(h@));
}

/// Framing, at this packet: an input that holds exactly one well-formed
/// handshake frame yields it with the reader stopped at the frame
/// boundary, whatever follows; and where the input ends there, the next
/// read signals the unexpected end.
#[verifier::rlimit(100)]
#[verifier::spinoff_prover]
pub proof fn lemma_handshake_framing(h: Handshake, rest: Seq<u8>)
    requires
        h.enc_wf(),
    ensures
        crate::packet::spec_read_packet::<Handshake>(
            crate::packet::spec_packet_frame(&h) + rest,
            0,
        ) == Ok::<(HandshakeView, int), Error>(
            (h@, crate::packet::spec_packet_frame(&h).len() as int),
        ),
        crate::packet::spec_read_packet::<Handshake>(
            crate::packet::spec_packet_frame(&h),
            crate::packet::spec_packet_frame(&h).len() as int,
        ) == Err::<(HandshakeView, int), Error>(Error::UnexpectedEof),
{
    lemma_spec_varint_len(0x00);
    lemma_spec_varint_len(u32_of_i32(h.version));
    lemma_spec_varint_len(encode_utf8(h.host@).len() as u32);
    lemma_spec_varint_len(u32_of_i32(h.next_status));
    lemma_handshake_roundtrip(h);
    crate::packet::lemma_framing::<Handshake>(h, rest);
}

} // verus!
