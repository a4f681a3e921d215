use vstd::prelude::*;

use crate::error::Error;
use crate::packet::{PacketDecoder, PacketEncoder};
use crate::varint::{spec_read_varint, spec_varint, read_varint, lemma_read_spec_varint,
    lemma_spec_varint_len};

verus! {

/// The empty request that asks for the server's status document.
#[derive(Debug)]
pub struct StatusRequest {}

impl View for StatusRequest {
    type V = ();

    open spec fn view(&self) -> () {
        ()
    }
}

impl PacketEncoder for StatusRequest {
    open spec fn spec_id(&self) -> u32 {
        0x00
    }

    open spec fn spec_body(&self) -> Seq<u8> {
        Seq::empty()
    }

    open spec fn enc_wf(&self) -> bool {
        true
    }

    fn packet_id(&self) -> (id: u32) {
        0x00
    }

    fn encode(&self, out: &mut Vec<u8>) {
        assert(final(out)@ =~= old(out)@ + self.spec_body());
    }
}

impl PacketDecoder for StatusRequest {
    open spec fn spec_decode(payload: Seq<u8>) -> Result<(), Error> {
        match spec_read_varint(payload, 0) {
            Ok((id, _p1)) => if id != 0x00 {
                Err(Error::UnexpectedPacketId)
            } else {
                Ok(())
            },
            Err(e) => Err(e),
        }
    }

    fn decode(payload: &Vec<u8>) -> (r: Result<Self, Error>) {
        match read_varint(payload, 0) {
            Ok((id, _p1)) => if id != 0x00 {
                Err(Error::UnexpectedPacketId)
            } else {
                Ok(StatusRequest {})
            },
            Err(e) => Err(e),
        }
    }
}

/// Round trip: the encoded payload of the status request decodes back to it.
pub proof fn lemma_status_request_roundtrip(p: StatusRequest)
    ensures
        StatusRequest::spec_decode(spec_varint(p.spec_id()) + p.spec_body()) == Ok::<(), Error>(
            p@,
        ),
{
    let payload = spec_varint(0x00) + p.spec_body();
    lemma_spec_varint_len(0x00);
    assert(payload.subrange(0, spec_varint(0x00).len() as int) =~= spec_varint(0x00));
    lemma_read_spec_varint(payload, 0, 0x00);
}

} // verus!
