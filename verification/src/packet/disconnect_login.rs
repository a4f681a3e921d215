use vstd::prelude::*;

use crate::packet::PacketEncoder;
use crate::raw_json_text::{spec_rjt_json, write_rjt, RawJsonText};
use crate::varint::{spec_varint, write_varint};

verus! {

/// The notice that turns a login attempt away, carrying the reason as a
/// text value.  It is only ever sent, never read back: a client of this
/// library is a server on that path.
#[derive(Debug)]
pub struct DisconnectLogin {
    pub reason: RawJsonText,
}

impl PacketEncoder for DisconnectLogin {
    open spec fn spec_id(&self) -> u32 {
        0x00
    }

    open spec fn spec_body(&self) -> Seq<u8> {
        spec_varint(spec_rjt_json(self.reason).len() as u32) + spec_rjt_json(self.reason)
    }

    open spec fn enc_wf(&self) -> bool {
        spec_rjt_json(self.reason).len() < 0x7fff_0000
    }

    fn packet_id(&self) -> (id: u32) {
        0x00
    }

    fn encode(&self, out: &mut Vec<u8>) {
        let mut body: Vec<u8> = Vec::new();
        write_rjt(&self.reason, &mut body);
        write_varint(body.len() as u32, out);
        out.append(&mut body);
        assert(final(out)@ =~= old(out)@ + self.spec_body());
    }
}

} // verus!
