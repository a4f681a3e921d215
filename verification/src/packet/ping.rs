use vstd::prelude::*;

use crate::error::Error;
use crate::packet::{PacketDecoder, PacketEncoder};
use crate::varint::{spec_read_varint, spec_varint, read_varint, lemma_read_spec_varint,
    lemma_spec_varint_len};
use crate::wire::{spec_read_u64_le, spec_u64_le, read_u64_le, write_u64_le, lemma_read_u64_le_at};

verus! {

/// The keepalive exchanged after a status response: the server echoes the
/// payload it received.
#[derive(Debug)]
pub struct Ping {
    payload: u64,
}

impl View for Ping {
    type V = u64;

    closed spec fn view(&self) -> u64 {
        self.payload
    }
}

impl Ping {
    pub fn new(payload: u64) -> (r: Ping)
        ensures
            r@ == payload,
    {
        Ping { payload }
    }

    pub fn payload(&self) -> (r: u64)
        ensures
            r == self@,
    {
        self.payload
    }
}

impl PacketEncoder for Ping {
    open spec fn spec_id(&self) -> u32 {
        0x01
    }

    open spec fn spec_body(&self) -> Seq<u8> {
        spec_u64_le(self@)
    }

    open spec fn enc_wf(&self) -> bool {
        true
    }

    fn packet_id(&self) -> (id: u32) {
        0x01
    }

    fn encode(&self, out: &mut Vec<u8>) {
        write_u64_le(self.payload, out);
    }
}

impl PacketDecoder for Ping {
    open spec fn spec_decode(payload: Seq<u8>) -> Result<u64, Error> {
        match spec_read_varint(payload, 0) {
            Ok((id, p1)) => if id != 0x01 {
                Err(Error::UnexpectedPacketId)
            } else {
                match spec_read_u64_le(payload, p1) {
                    Ok((v, _p2)) => Ok(v),
                    Err(e) => Err(e),
                }
            },
            Err(e) => Err(e),
        }
    }

    fn decode(payload: &Vec<u8>) -> (r: Result<Self, Error>) {
        match read_varint(payload, 0) {
            Ok((id, p1)) => if id != 0x01 {
                Err(Error::UnexpectedPacketId)
            } else {
                match read_u64_le(payload, p1) {
                    Ok((v, _p2)) => Ok(Ping { payload: v }),
                    Err(e) => Err(e),
                }
            },
            Err(e) => Err(e),
        }
    }
}

/// Round trip: decoding the encoded payload of any keepalive gives its
/// payload back.
pub proof fn lemma_ping_roundtrip(p: Ping)
    ensures
        Ping::spec_decode(spec_varint(p.spec_id()) + p.spec_body()) == Ok::<u64, Error>(p@),
{
    let a = spec_varint(0x01);
    let payload = a + spec_u64_le(p@);
    lemma_spec_varint_len(0x01);
    let p1 = a.len() as int;
    assert(payload.subrange(0, p1) =~= a);
    lemma_read_spec_varint(payload, 0, 0x01);
    assert(payload.subrange(p1, p1 + 8) =~= spec_u64_le(p.payload));
    lemma_read_u64_le_at(payload, p1, p@);
}

} // verus!
