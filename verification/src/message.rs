use vstd::prelude::*;

use crate::CAddressHandle;

verus! {

/// Largest payload, in bytes, that one framed message may carry.
pub const CMESSAGE_BUFFER_SIZE: usize = 255;

/// One framed transport message: an opaque, already-serialized payload of at
/// most `CMESSAGE_BUFFER_SIZE` bytes, tagged with the endpoint it goes to or
/// came from.
#[derive(Clone, PartialEq, Eq, Debug)]
pub struct CMessage {
    /// Destination (outbound) or source (inbound) endpoint.
    pub addr: CAddressHandle,
    /// The serialized payload.
    pub bytes: Vec<u8>,
    /// Number of payload bytes; always `bytes.len()` on a well-formed message.
    pub bytes_length: u32,
}

impl CMessage {
    /// A message is well formed when its payload fits the buffer and its
    /// length field agrees with the payload.
    pub open spec fn wf(self) -> bool {
        &&& self.bytes@.len() <= CMESSAGE_BUFFER_SIZE
        &&& self.bytes_length == self.bytes@.len()
    }

    /// What a message says, independent of representation: the endpoint and
    /// the payload bytes.
    pub open spec fn model(self) -> (CAddressHandle, Seq<u8>) {
        (self.addr, self.bytes@)
    }

    /// Frames a payload for an endpoint.
    pub fn new(addr: CAddressHandle, bytes: Vec<u8>) -> (m: CMessage)
        requires
            bytes@.len() <= CMESSAGE_BUFFER_SIZE,
        ensures
            m.wf(),
            m.model() == (addr, bytes@),
    {
        let len = bytes.len();
        CMessage { addr, bytes, bytes_length: len as u32 }
    }

    /// Checks well-formedness of a message handed in from outside.
    pub fn check_wf(&self) -> (ok: bool)
        ensures
            ok == self.wf(),
    {
        self.bytes.len() <= CMESSAGE_BUFFER_SIZE && self.bytes_length as usize == self.bytes.len()
    }
}

} // verus!
