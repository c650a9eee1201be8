//! The uniquely-owned message payload and the claim tokens that enforce
//! at-most-once delivery.
//!
//! Every copy of a sync message made for fan-out shares one claim token.
//! The first receiver to take the token observes the message; all others
//! discard their copy. The tokens of a net live in a [`ClaimTable`].

use vstd::prelude::*;

use crate::rawmessage::RawMessage;
use crate::rawmessage::RawV;

verus! {

/// The claim tokens of one net, indexed by the token number a sync message
/// carries. `true` means the message is still unclaimed.
pub struct ClaimTable {
    flags: Vec<bool>,
}

impl View for ClaimTable {
    type V = Seq<bool>;

    closed spec fn view(&self) -> Seq<bool> {
        self.flags@
    }
}

impl ClaimTable {
    /// An empty table.
    pub fn new() -> (r: ClaimTable)
        ensures
            r@ == Seq::<bool>::empty(),
    {
        ClaimTable { flags: Vec::new() }
    }

    /// How many tokens have been issued.
    pub fn len(&self) -> (r: usize)
        ensures
            r == self@.len(),
    {
        self.flags.len()
    }

    /// Issue a fresh token, initially unclaimed.
    pub fn issue(&mut self) -> (c: usize)
        requires
            old(self)@.len() < usize::MAX,
        ensures
            c == old(self)@.len(),
            final(self)@ == old(self)@.push(true),
    {
        let c = self.flags.len();
        self.flags.push(true);
        c
    }

    /// Whether token `c` is still unclaimed.
    pub fn peek(&self, c: usize) -> (r: bool)
        requires
            c < self@.len(),
        ensures
            r == self@[c as int],
    {
        self.flags[c]
    }

    /// Try to take token `c`: returns whether the caller won it, and leaves
    /// the token claimed either way. A taken token never becomes free again.
    pub fn take(&mut self, c: usize) -> (r: bool)
        requires
            c < old(self)@.len(),
        ensures
            r == old(self)@[c as int],
            final(self)@ == if old(self)@[c as int] {
                old(self)@.update(c as int, false)
            } else {
                old(self)@
            },
    {
        let won = self.flags[c];
        if won {
            self.flags[c] = false;
        }
        won
    }
}

/// The mathematical value of a sync message: its type tag, the number of the
/// claim token it shares with its fan-out copies, and its payload bytes.
pub ghost struct SyncV {
    pub hash: u64,
    pub claim: nat,
    pub raw: RawV,
}

/// A message payload that is delivered to at most one receiver, however many
/// endpoints accept it. Copies made for fan-out share the claim token.
pub struct SyncMessage {
    /// The tag standing for the type of the value the bytes hold.
    pub hash: u64,
    /// The number of the claim token shared by all fan-out copies.
    pub claim: usize,
    /// The bytes of the value.
    pub payload: RawMessage,
}

impl View for SyncMessage {
    type V = SyncV;

    open spec fn view(&self) -> SyncV {
        SyncV { hash: self.hash, claim: self.claim as nat, raw: self.payload@ }
    }
}

impl SyncMessage {
    /// Create a sync message carrying the given tag and bytes, with a fresh
    /// unclaimed token from the table.
    pub fn new(hash: u64, payload: RawMessage, claims: &mut ClaimTable) -> (r: SyncMessage)
        requires
            payload@.wf(),
            old(claims)@.len() < usize::MAX,
        ensures
            r@.hash == hash,
            r@.raw == payload@,
            r@.claim == old(claims)@.len(),
            final(claims)@ == old(claims)@.push(true),
    {
        let claim = claims.issue();
        SyncMessage { hash, claim, payload }
    }

    /// A copy that shares the claim token, for handing one envelope to each
    /// accepting endpoint.
    pub fn internal_clone(&self) -> (r: SyncMessage)
        requires
            self@.raw.wf(),
        ensures
            r@ == self@,
    {
        SyncMessage { hash: self.hash, claim: self.claim, payload: self.payload.dup_exact() }
    }

    /// Try to be the one receiver of this message: take the shared claim
    /// token; whoever gets `true` keeps the message, everyone else drops it.
    pub fn takeasvalid(&self, claims: &mut ClaimTable) -> (r: bool)
        requires
            self@.claim < old(claims)@.len(),
        ensures
            r == old(claims)@[self@.claim as int],
            final(claims)@ == if old(claims)@[self@.claim as int] {
                old(claims)@.update(self@.claim as int, false)
            } else {
                old(claims)@
            },
    {
        claims.take(self.claim)
    }

    /// Whether the message carries the given type tag.
    pub fn is_type(&self, hash: u64) -> (r: bool)
        ensures
            r == (hash == self@.hash),
    {
        hash == self.hash
    }

    /// Take the payload out; the tag must match, as the bytes are read back
    /// as a value of the tagged type.
    pub fn get_payload(self, hash: u64) -> (r: RawMessage)
        requires
            hash == self@.hash,
        ensures
            r@ == self@.raw,
    {
        self.payload
    }
}

} // verus!
