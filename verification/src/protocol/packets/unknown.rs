use crate::protocol::types::error::DatatypeError;
use crate::protocol::types::reader::Reader;
use vstd::prelude::*;

verus! {

/// A packet whose identifier names no known layout for its direction and
/// state: the raw identifier, the direction, and the body kept byte for
/// byte. This is a first-class outcome, not an error.
#[derive(Debug, Clone)]
pub struct Unknown {
    pub packet_id: i32,
    pub server_bounded: bool,
    pub payload: Vec<u8>,
}

/// Mathematical image of an [`Unknown`].
pub struct UnknownModel {
    pub packet_id: i32,
    pub server_bounded: bool,
    pub payload: Seq<u8>,
}

impl View for Unknown {
    type V = UnknownModel;

    open spec fn view(&self) -> UnknownModel {
        UnknownModel {
            packet_id: self.packet_id,
            server_bounded: self.server_bounded,
            payload: self.payload@,
        }
    }
}

impl Unknown {
    /// Take every remaining byte as the payload, leaving the identifier and
    /// direction at their defaults for the caller to fill in.
    pub fn from_bytes(r: &mut Reader) -> (res: Result<Unknown, DatatypeError>)
        requires
            old(r).wf(),
        ensures
            final(r).wf(),
            final(r).data == old(r).data,
            res is Ok && res->Ok_0@ == (UnknownModel {
                packet_id: 0,
                server_bounded: false,
                payload: old(r).rest(),
            }),
    {
        let payload = r.read_rest();
        Ok(Unknown { packet_id: 0, server_bounded: false, payload })
    }
}

} // verus!
