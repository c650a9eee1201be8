//! The freely-copyable typed message payload: many endpoints may receive a
//! copy, but it never crosses a bridge.

use vstd::prelude::*;

use crate::rawmessage::RawMessage;
use crate::rawmessage::RawV;

verus! {

/// The mathematical value of a clone message: its type tag and its
/// payload bytes.
pub ghost struct CloneV {
    pub tyid: u64,
    pub raw: RawV,
}

/// A message payload holding the bytes of a value of a clonable type; every
/// accepting endpoint gets its own copy.
pub struct CloneMessage {
    /// The tag standing for the type of the value the bytes hold.
    pub tyid: u64,
    /// The bytes of the value.
    pub payload: RawMessage,
}

impl View for CloneMessage {
    type V = CloneV;

    open spec fn view(&self) -> CloneV {
        CloneV { tyid: self.tyid, raw: self.payload@ }
    }
}

impl CloneMessage {
    /// Create a clone message carrying the given tag and bytes.
    pub fn new(tyid: u64, payload: RawMessage) -> (r: CloneMessage)
        ensures
            r@.tyid == tyid,
            r@.raw == payload@,
    {
        CloneMessage { tyid, payload }
    }

    /// A copy with the same tag and the same bytes.
    pub fn internal_clone(&self) -> (r: CloneMessage)
        requires
            self@.raw.wf(),
        ensures
            r@ == self@,
    {
        CloneMessage { tyid: self.tyid, payload: self.payload.dup_exact() }
    }

    /// Whether the message carries the given type tag.
    pub fn is_type(&self, tyid: u64) -> (r: bool)
        ensures
            r == (tyid == self@.tyid),
    {
        tyid == self.tyid
    }

    /// Take the payload out; the tag must match, as the bytes are read back
    /// as a value of the tagged type.
    pub fn get_payload(self, tyid: u64) -> (r: RawMessage)
        requires
            tyid == self@.tyid,
        ensures
            r@ == self@.raw,
    {
        self.payload
    }
}

} // verus!
