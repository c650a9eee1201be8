//! The message: an address header over one of three payload kinds.
//!
//! Raw payloads are opaque bytes and may cross a bridge; clone payloads are
//! tagged values any number of endpoints may receive; sync payloads are
//! tagged values delivered to at most one receiver.

use vstd::prelude::*;

use crate::clonemessage::CloneMessage;
use crate::clonemessage::CloneV;
use crate::rawmessage::RawMessage;
use crate::rawmessage::RawV;
use crate::syncmessage::ClaimTable;
use crate::syncmessage::SyncMessage;
use crate::syncmessage::SyncV;

verus! {

/// The mathematical value of a payload.
pub ghost enum PayV {
    Raw(RawV),
    Sync(SyncV),
    Clone(CloneV),
}

impl PayV {
    /// The byte buffer under the payload, whatever its kind.
    pub open spec fn rawv(self) -> RawV {
        match self {
            PayV::Raw(r) => r,
            PayV::Sync(s) => s.raw,
            PayV::Clone(c) => c.raw,
        }
    }

    pub open spec fn wf(self) -> bool {
        self.rawv().wf()
    }

    /// The capacity of the underlying buffer; what the memory accounting of
    /// an endpoint charges for the message.
    pub open spec fn cap(self) -> nat {
        self.rawv().cap()
    }
}

/// The mathematical value of a message: the address header and the payload.
pub ghost struct MsgV {
    pub srcsid: u64,
    pub srceid: u64,
    pub dstsid: u64,
    pub dsteid: u64,
    pub canloop: bool,
    pub pay: PayV,
}

impl MsgV {
    pub open spec fn wf(self) -> bool {
        self.pay.wf()
    }

    pub open spec fn is_raw(self) -> bool {
        self.pay is Raw
    }

    pub open spec fn is_sync(self) -> bool {
        self.pay is Sync
    }

    pub open spec fn is_clone(self) -> bool {
        self.pay is Clone
    }

    pub open spec fn cap(self) -> nat {
        self.pay.cap()
    }

    /// The claim token number, for a sync payload.
    pub open spec fn claim(self) -> nat {
        self.pay->Sync_0.claim
    }

    /// The same message with the loop-back flag replaced; what a fan-out
    /// copy of a message looks like.
    pub open spec fn with_canloop(self, b: bool) -> MsgV {
        MsgV { canloop: b, ..self }
    }

    /// The same message with the source address replaced; what `sendas`
    /// stamps before dispatch.
    pub open spec fn stamped(self, fromsid: u64, fromeid: u64) -> MsgV {
        MsgV { srcsid: fromsid, srceid: fromeid, ..self }
    }

    /// The same message with its buffer duplicated: same bytes, length reset
    /// to the capacity.
    pub open spec fn dupped(self) -> MsgV {
        MsgV {
            pay: PayV::Raw(RawV { bytes: self.pay.rawv().bytes, len: self.pay.rawv().cap() }),
            ..self
        }
    }
}

/// The payload of a message: raw bytes, a sync value, or a clone value.
pub enum MessagePayload {
    Raw(RawMessage),
    Sync(SyncMessage),
    Clone(CloneMessage),
}

impl View for MessagePayload {
    type V = PayV;

    open spec fn view(&self) -> PayV {
        match self {
            MessagePayload::Raw(m) => PayV::Raw(m@),
            MessagePayload::Sync(m) => PayV::Sync(m@),
            MessagePayload::Clone(m) => PayV::Clone(m@),
        }
    }
}

/// A routable message: source and destination addresses, the loop-back flag,
/// and one of the three payload kinds.
pub struct Message {
    /// Source net id.
    pub srcsid: u64,
    /// Source endpoint id.
    pub srceid: u64,
    /// Destination net id; `0` broadcasts to every net, `1` means the
    /// local net.
    pub dstsid: u64,
    /// Destination endpoint id; `0` broadcasts to every endpoint of the
    /// matched net.
    pub dsteid: u64,
    /// Whether the message may be delivered back to its sender.
    pub canloop: bool,
    /// The payload.
    pub payload: MessagePayload,
}

impl View for Message {
    type V = MsgV;

    open spec fn view(&self) -> MsgV {
        MsgV {
            srcsid: self.srcsid,
            srceid: self.srceid,
            dstsid: self.dstsid,
            dsteid: self.dsteid,
            canloop: self.canloop,
            pay: self.payload@,
        }
    }
}

impl Message {
    /// The capacity of the message's buffer.
    pub fn cap(&self) -> (r: usize)
        requires
            self@.wf(),
        ensures
            r == self@.cap(),
    {
        match &self.payload {
            MessagePayload::Raw(m) => m.cap(),
            MessagePayload::Sync(m) => m.payload.cap(),
            MessagePayload::Clone(m) => m.payload.cap(),
        }
    }

    /// Duplicate a raw message into a fresh buffer, so that the copy shares
    /// nothing with this one.
    pub fn dup(&self) -> (r: Message)
        requires
            self@.wf(),
            self@.is_raw(),
        ensures
            r@.wf(),
            r@ == self@.dupped(),
    {
        match &self.payload {
            MessagePayload::Raw(m) => Message {
                canloop: self.canloop,
                srcsid: self.srcsid,
                srceid: self.srceid,
                dstsid: self.dstsid,
                dsteid: self.dsteid,
                payload: MessagePayload::Raw(m.dup()),
            },
            _ => unreached(),
        }
    }

    /// Duplicate the buffer when the payload is raw; hand any other payload
    /// back unchanged.
    pub fn dup_ifok(self) -> (r: Message)
        requires
            self@.wf(),
        ensures
            r@.wf(),
            r@ == if self@.is_raw() { self@.dupped() } else { self@ },
    {
        if self.is_raw() {
            self.dup()
        } else {
            self
        }
    }

    /// A copy made for fan-out: same header and bytes, loop-back flag
    /// cleared; a sync payload shares its claim token with this one.
    pub fn internal_clone(&self) -> (r: Message)
        requires
            self@.wf(),
        ensures
            r@.wf(),
            r@ == self@.with_canloop(false),
    {
        let payload = match &self.payload {
            MessagePayload::Raw(m) => MessagePayload::Raw(m.dup_exact()),
            MessagePayload::Sync(m) => MessagePayload::Sync(m.internal_clone()),
            MessagePayload::Clone(m) => MessagePayload::Clone(m.internal_clone()),
        };
        Message {
            canloop: false,
            srcsid: self.srcsid,
            srceid: self.srceid,
            dstsid: self.dstsid,
            dsteid: self.dsteid,
            payload,
        }
    }

    /// A copy of a raw or clone message: same header and bytes, loop-back
    /// flag cleared. A sync message cannot be copied this way: its value
    /// is uniquely owned.
    pub fn shallow_clone(&self) -> (r: Message)
        requires
            self@.wf(),
            !self@.is_sync(),
        ensures
            r@.wf(),
            r@ == self@.with_canloop(false),
    {
        self.internal_clone()
    }

    /// Take the payload as a raw message; the payload must be raw.
    pub fn get_raw(self) -> (r: RawMessage)
        requires
            self@.is_raw(),
        ensures
            r@ == self@.pay.rawv(),
    {
        match self.payload {
            MessagePayload::Raw(m) => m,
            _ => unreached(),
        }
    }

    /// Borrow the payload as a raw message; the payload must be raw.
    pub fn get_rawref(&self) -> (r: &RawMessage)
        requires
            self@.is_raw(),
        ensures
            r@ == self@.pay.rawv(),
    {
        match &self.payload {
            MessagePayload::Raw(m) => m,
            _ => unreached(),
        }
    }

    /// Borrow the payload mutably as a raw message; the payload must be raw.
    /// The header is untouched, whatever the caller writes through the
    /// borrow.
    pub fn get_rawmutref(&mut self) -> (r: &mut RawMessage)
        requires
            old(self)@.is_raw(),
        ensures
            (*r)@ == old(self)@.pay.rawv(),
            final(self)@ == (MsgV { pay: PayV::Raw((*final(r))@), ..old(self)@ }),
    {
        match &mut self.payload {
            MessagePayload::Raw(m) => m,
            _ => unreached(),
        }
    }

    /// Take the payload as a sync message; the payload must be sync.
    pub fn get_sync(self) -> (r: SyncMessage)
        requires
            self@.is_sync(),
        ensures
            r@ == self@.pay->Sync_0,
    {
        match self.payload {
            MessagePayload::Sync(m) => m,
            _ => unreached(),
        }
    }

    /// Borrow the payload as a sync message; the payload must be sync.
    pub fn get_syncref(&self) -> (r: &SyncMessage)
        requires
            self@.is_sync(),
        ensures
            r@ == self@.pay->Sync_0,
    {
        match &self.payload {
            MessagePayload::Sync(m) => m,
            _ => unreached(),
        }
    }

    /// Borrow the payload mutably as a sync message; the payload must be
    /// sync. The header is untouched, whatever the caller writes through
    /// the borrow.
    pub fn get_syncmutref(&mut self) -> (r: &mut SyncMessage)
        requires
            old(self)@.is_sync(),
        ensures
            (*r)@ == old(self)@.pay->Sync_0,
            final(self)@ == (MsgV { pay: PayV::Sync((*final(r))@), ..old(self)@ }),
    {
        match &mut self.payload {
            MessagePayload::Sync(m) => m,
            _ => unreached(),
        }
    }

    /// Take the payload as a clone message; the payload must be clone.
    pub fn get_clone(self) -> (r: CloneMessage)
        requires
            self@.is_clone(),
        ensures
            r@ == self@.pay->Clone_0,
    {
        match self.payload {
            MessagePayload::Clone(m) => m,
            _ => unreached(),
        }
    }

    /// Borrow the payload as a clone message; the payload must be clone.
    pub fn get_cloneref(&self) -> (r: &CloneMessage)
        requires
            self@.is_clone(),
        ensures
            r@ == self@.pay->Clone_0,
    {
        match &self.payload {
            MessagePayload::Clone(m) => m,
            _ => unreached(),
        }
    }

    /// Borrow the payload mutably as a clone message; the payload must be
    /// clone. The header is untouched, whatever the caller writes through
    /// the borrow.
    pub fn get_clonemutref(&mut self) -> (r: &mut CloneMessage)
        requires
            old(self)@.is_clone(),
        ensures
            (*r)@ == old(self)@.pay->Clone_0,
            final(self)@ == (MsgV { pay: PayV::Clone((*final(r))@), ..old(self)@ }),
    {
        match &mut self.payload {
            MessagePayload::Clone(m) => m,
            _ => unreached(),
        }
    }

    /// Take the typed payload's bytes out of a sync or clone message; the
    /// tag must match the one the message carries.
    pub fn typeunwrap(self, tag: u64) -> (r: RawMessage)
        requires
            self@.is_sync() || self@.is_clone(),
            self@.is_sync() ==> tag == self@.pay->Sync_0.hash,
            self@.is_clone() ==> tag == self@.pay->Clone_0.tyid,
        ensures
            r@ == self@.pay.rawv(),
    {
        match self.payload {
            MessagePayload::Sync(m) => m.get_payload(tag),
            MessagePayload::Clone(m) => m.get_payload(tag),
            _ => unreached(),
        }
    }

    /// Whether the payload is a clone value.
    pub fn is_clone(&self) -> (r: bool)
        ensures
            r == self@.is_clone(),
    {
        match &self.payload {
            MessagePayload::Clone(_) => true,
            _ => false,
        }
    }

    /// Whether the payload is raw bytes.
    pub fn is_raw(&self) -> (r: bool)
        ensures
            r == self@.is_raw(),
    {
        match &self.payload {
            MessagePayload::Raw(_) => true,
            _ => false,
        }
    }

    /// Whether the payload is a sync value.
    pub fn is_sync(&self) -> (r: bool)
        ensures
            r == self@.is_sync(),
    {
        match &self.payload {
            MessagePayload::Sync(_) => true,
            _ => false,
        }
    }

    /// Wrap a raw buffer into a message addressed to nobody in particular.
    pub fn new_fromraw(rmsg: RawMessage) -> (r: Message)
        ensures
            r@ == (MsgV {
                srcsid: 0, srceid: 0, dstsid: 0, dsteid: 0, canloop: false,
                pay: PayV::Raw(rmsg@),
            }),
    {
        Message {
            canloop: false,
            srcsid: 0,
            srceid: 0,
            dstsid: 0,
            dsteid: 0,
            payload: MessagePayload::Raw(rmsg),
        }
    }

    /// Create a raw message with a fresh buffer of `cap` bytes.
    pub fn new_raw(cap: usize) -> (r: Message)
        ensures
            r@.wf(),
            r@.is_raw(),
            r@.srcsid == 0 && r@.srceid == 0 && r@.dstsid == 0 && r@.dsteid == 0,
            !r@.canloop,
            r@.pay.rawv().len == cap,
            r@.pay.rawv().bytes == Seq::new(if cap == 0 { 1nat } else { cap as nat }, |i: int| 0u8),
    {
        Message::new_fromraw(RawMessage::new(cap))
    }

    /// Create a clone message carrying the given tag and bytes.
    pub fn new_clone(tag: u64, payload: RawMessage) -> (r: Message)
        ensures
            r@ == (MsgV {
                srcsid: 0, srceid: 0, dstsid: 0, dsteid: 0, canloop: false,
                pay: PayV::Clone(CloneV { tyid: tag, raw: payload@ }),
            }),
    {
        Message {
            canloop: false,
            srcsid: 0,
            srceid: 0,
            dstsid: 0,
            dsteid: 0,
            payload: MessagePayload::Clone(CloneMessage::new(tag, payload)),
        }
    }

    /// Create a sync message carrying the given tag and bytes, with a fresh
    /// claim token from the table.
    pub fn new_sync(tag: u64, payload: RawMessage, claims: &mut ClaimTable) -> (r: Message)
        requires
            payload@.wf(),
            old(claims)@.len() < usize::MAX,
        ensures
            final(claims)@ == old(claims)@.push(true),
            r@ == (MsgV {
                srcsid: 0, srceid: 0, dstsid: 0, dsteid: 0, canloop: false,
                pay: PayV::Sync(SyncV {
                    hash: tag,
                    claim: old(claims)@.len(),
                    raw: payload@,
                }),
            }),
    {
        Message {
            canloop: false,
            srcsid: 0,
            srceid: 0,
            dstsid: 0,
            dsteid: 0,
            payload: MessagePayload::Sync(SyncMessage::new(tag, payload, claims)),
        }
    }

    /// Whether a sync or clone payload carries the given type tag; a raw
    /// payload carries none.
    pub fn is_type(&self, tag: u64) -> (r: bool)
        ensures
            r == ((self@.is_sync() && self@.pay->Sync_0.hash == tag)
                || (self@.is_clone() && self@.pay->Clone_0.tyid == tag)),
    {
        match &self.payload {
            MessagePayload::Sync(m) => m.is_type(tag),
            MessagePayload::Clone(m) => m.is_type(tag),
            MessagePayload::Raw(_) => false,
        }
    }
}

} // verus!
