//! The endpoint: an addressable mailbox on a net. It decides by its address
//! whether to accept an offered message, queues what it accepts within its
//! limits, and hands queued messages to receivers, discarding sync messages
//! whose claim was already taken.

use vstd::prelude::*;

use crate::message::Message;
use crate::message::MsgV;
use crate::queue::SafeQueue;
use crate::syncmessage::ClaimTable;
use crate::timespec::Timespec;

verus! {

/// The exact failure of a receive operation.
#[derive(Clone, Copy, Debug, PartialEq, Eq, Structural)]
pub enum IoErrorCode {
    /// The deadline passed before a deliverable message arrived.
    TimedOut,
    /// There was no message to take.
    NoMessages,
}

/// The error a receive operation reports; `code` says which condition held.
#[derive(Clone, Copy, Debug, PartialEq, Eq, Structural)]
pub struct IoError {
    pub code: IoErrorCode,
}

/// A successful value or an [`IoError`].
pub enum IoResult<T> {
    Error(IoError),
    Okay(T),
}

impl<T> IoResult<T> {
    /// Take the value; the result must be a success.
    pub fn ok(self) -> (r: T)
        requires
            self is Okay,
        ensures
            self == IoResult::Okay(r),
    {
        match self {
            IoResult::Okay(v) => v,
            IoResult::Error(_) => unreached(),
        }
    }

    /// Take the error; the result must be a failure.
    pub fn err(self) -> (r: IoError)
        requires
            self is Error,
        ensures
            self == IoResult::<T>::Error(r),
    {
        match self {
            IoResult::Okay(_) => unreached(),
            IoResult::Error(e) => e,
        }
    }

    pub fn is_ok(&self) -> (r: bool)
        ensures
            r == (self is Okay),
    {
        match self {
            IoResult::Okay(_) => true,
            IoResult::Error(_) => false,
        }
    }

    pub fn is_err(&self) -> (r: bool)
        ensures
            r == (self is Error),
    {
        match self {
            IoResult::Okay(_) => false,
            IoResult::Error(_) => true,
        }
    }
}

/// A wake-up time so far in the future that it never comes.
pub const NEVER_SEC: i64 = 0x7fff_ffff_ffff_ffff;

/// Addition on a `usize` count that stops at the top instead of overflowing.
pub open spec fn sat_add(a: usize, b: nat) -> usize {
    if a + b <= usize::MAX {
        (a + b) as usize
    } else {
        usize::MAX
    }
}

/// Subtraction on a `usize` count that stops at zero instead of underflowing.
pub open spec fn sat_sub(a: usize, b: nat) -> usize {
    if b <= a {
        (a - b) as usize
    } else {
        0
    }
}

/// The mathematical state of an endpoint.
pub ghost struct EndpointV {
    /// The id this library hands out for the endpoint, unique within its net.
    pub uid: u64,
    /// Net id of the endpoint's address.
    pub sid: u64,
    /// Endpoint id of the endpoint's address.
    pub eid: u64,
    /// Group id: a second endpoint id that a group of endpoints may share.
    pub gid: u64,
    /// The queued messages, front first.
    pub queue: Seq<MsgV>,
    /// Most messages the queue may hold; `0` means unlimited.
    pub limitpending: usize,
    /// Most bytes of buffer capacity the queue may hold; `0` means unlimited.
    pub limitmemory: usize,
    /// Sum of the buffer capacities of the queued messages, as accounted.
    pub memoryused: usize,
    /// How many handles exist, the net's own included.
    pub refcnt: usize,
    /// Whether the endpoint has been removed from its net's list.
    pub dropped: bool,
    /// How many threads sleep on the endpoint.
    pub slpcnt: usize,
    /// When a blocked receiver next wants to be woken.
    pub wakeupat: Timespec,
}

impl EndpointV {
    /// Every queued message is well formed.
    pub open spec fn wf(self) -> bool {
        forall|i: int| 0 <= i < self.queue.len() ==> (#[trigger] self.queue[i]).wf()
    }
}

/// The address test of the acceptance predicate: may this endpoint, standing
/// on a net whose id is `netsid`, take the message at all?
///
/// A message never loops back to its sender unless it asks to; destination
/// net `0` matches every net, `1` matches endpoints standing on their own
/// net, and any other value must equal the endpoint's net id; destination
/// endpoint `0` matches every endpoint of the matched net, and any other
/// value must equal the endpoint's id or its group id.
pub open spec fn deliver_addr(m: MsgV, sid: u64, eid: u64, gid: u64, netsid: u64) -> bool {
    &&& !(!m.canloop && m.srcsid == sid && m.srceid == eid)
    &&& if m.dstsid == 0 {
            true
        } else if m.dstsid == 1 {
            sid == netsid
        } else {
            m.dstsid == sid
        }
    &&& (m.dsteid == 0 || m.dsteid == eid || m.dsteid == gid)
}

/// The capacity test of the acceptance predicate: taking the message must
/// not push the endpoint over its pending-count or memory limit (a zero
/// limit does not bind), nor over what a queue can physically hold.
pub open spec fn caps_ok(ep: EndpointV, m: MsgV) -> bool {
    &&& ep.limitpending > 0 ==> ep.queue.len() < ep.limitpending
    &&& ep.limitmemory > 0 ==> ep.memoryused + m.cap() <= ep.limitmemory
    &&& ep.queue.len() < usize::MAX
}

/// Whether `give` accepts the message: the address matches and the limits
/// leave room.
pub open spec fn give_accepts(ep: EndpointV, m: MsgV, netsid: u64) -> bool {
    deliver_addr(m, ep.sid, ep.eid, ep.gid, netsid) && caps_ok(ep, m)
}

/// How one `give` call changes an endpoint: an accepted message is queued
/// as a fan-out copy (loop-back flag cleared) and its capacity is charged;
/// a rejected one leaves the endpoint as it was.
pub open spec fn give_post(pre: EndpointV, post: EndpointV, m: MsgV, netsid: u64,
    accepted: bool) -> bool {
    &&& accepted == give_accepts(pre, m, netsid)
    &&& if accepted {
            post == (EndpointV {
                queue: pre.queue.push(m.with_canloop(false)),
                memoryused: sat_add(pre.memoryused, m.cap()),
                ..pre
            })
        } else {
            post == pre
        }
}

/// A sync message whose claim is already taken (or malformed): a receiver
/// discards it.
pub open spec fn sync_dead(m: MsgV, claims: Seq<bool>) -> bool {
    m.is_sync() && !(m.claim() < claims.len() && claims[m.claim() as int])
}

/// What a receiver hands out for a popped message: a raw payload is
/// duplicated into a fresh buffer first, so the receiver shares no bytes
/// with anyone.
pub open spec fn delivered(m: MsgV) -> MsgV {
    if m.is_raw() {
        m.dupped()
    } else {
        m
    }
}

/// The outcome of one receive: the queue, claim table and memory accounting
/// afterwards, and the message handed out, if any.
pub ghost struct RecvStep {
    pub queue: Seq<MsgV>,
    pub claims: Seq<bool>,
    pub mem: usize,
    pub out: Option<MsgV>,
}

/// What one receive does, as a function: pop messages from the front,
/// discarding sync messages whose claim is dead, until a message can be
/// handed out — a raw or clone message as it stands, a live sync message by
/// taking its claim — or the queue is empty. Every popped message's capacity
/// is released from the memory accounting.
pub open spec fn spec_recv(q: Seq<MsgV>, claims: Seq<bool>, mem: usize) -> RecvStep
    decreases q.len(),
{
    if q.len() == 0 {
        RecvStep { queue: q, claims, mem, out: None }
    } else {
        let m = q[0];
        let mem1 = sat_sub(mem, m.cap());
        if !m.is_sync() {
            RecvStep { queue: q.drop_first(), claims, mem: mem1, out: Some(delivered(m)) }
        } else if sync_dead(m, claims) {
            spec_recv(q.drop_first(), claims, mem1)
        } else {
            RecvStep {
                queue: q.drop_first(),
                claims: claims.update(m.claim() as int, false),
                mem: mem1,
                out: Some(m),
            }
        }
    }
}

/// An addressable mailbox standing on a net.
pub struct Endpoint {
    uid: u64,
    sid: u64,
    eid: u64,
    gid: u64,
    messages: SafeQueue<Message>,
    limitpending: usize,
    limitmemory: usize,
    memoryused: usize,
    refcnt: usize,
    dropped: bool,
    slpcnt: usize,
    wakeupat: Timespec,
}

impl View for Endpoint {
    type V = EndpointV;

    closed spec fn view(&self) -> EndpointV {
        EndpointV {
            uid: self.uid,
            sid: self.sid,
            eid: self.eid,
            gid: self.gid,
            queue: self.messages@.map_values(|m: Message| m@),
            limitpending: self.limitpending,
            limitmemory: self.limitmemory,
            memoryused: self.memoryused,
            refcnt: self.refcnt,
            dropped: self.dropped,
            slpcnt: self.slpcnt,
            wakeupat: self.wakeupat,
        }
    }
}

impl Endpoint {
    /// A fresh endpoint with the given address and library id: empty queue,
    /// no limits, one handle, group id unused.
    pub fn new(sid: u64, eid: u64, uid: u64) -> (r: Endpoint)
        ensures
            r@ == (EndpointV {
                uid, sid, eid,
                gid: crate::net::UNUSED_ID,
                queue: Seq::<MsgV>::empty(),
                limitpending: 0,
                limitmemory: 0,
                memoryused: 0,
                refcnt: 1,
                dropped: false,
                slpcnt: 0,
                wakeupat: Timespec { sec: NEVER_SEC, nsec: 0 },
            }),
            r@.wf(),
    {
        let r = Endpoint {
            uid,
            sid,
            eid,
            gid: crate::net::UNUSED_ID,
            messages: SafeQueue::new(10),
            limitpending: 0,
            limitmemory: 0,
            memoryused: 0,
            refcnt: 1,
            dropped: false,
            slpcnt: 0,
            wakeupat: Timespec { sec: NEVER_SEC, nsec: 0 },
        };
        proof {
            assert(r@.queue =~= Seq::<MsgV>::empty());
        }
        r
    }

    /// The id this library handed out for the endpoint, unique within
    /// its net.
    pub fn id(&self) -> (r: u64)
        ensures
            r == self@.uid,
    {
        self.uid
    }

    /// How many handles to the endpoint exist, the net's own included.
    pub fn getrefcnt(&self) -> (r: usize)
        ensures
            r == self@.refcnt,
    {
        self.refcnt
    }

    /// When a blocked receiver next wants to be woken.
    pub fn getwaketime(&self) -> (r: Timespec)
        ensures
            r == self@.wakeupat,
    {
        self.wakeupat
    }

    /// Advertise when a blocked receiver next wants to be woken; the tick
    /// thread signals sleepers whose advertised time has passed.
    pub fn setwaketime(&mut self, t: Timespec)
        ensures
            final(self)@ == (EndpointV { wakeupat: t, ..old(self)@ }),
    {
        self.wakeupat = t;
    }

    /// Advertise that no wake-up is wanted: the wake-up time moves so far
    /// into the future that it never comes.
    pub fn neverwakeme(&mut self)
        ensures
            final(self)@ == (EndpointV {
                wakeupat: Timespec { sec: NEVER_SEC, nsec: 0 },
                ..old(self)@
            }),
    {
        self.wakeupat = Timespec { sec: NEVER_SEC, nsec: 0 };
    }

    /// How many threads sleep on the endpoint.
    pub fn sleepercount(&self) -> (r: usize)
        ensures
            r == self@.slpcnt,
    {
        self.slpcnt
    }

    /// Whether a receive would find at least one queued message (though a
    /// sync message among them may already be claimed).
    pub fn hasmessages(&self) -> (r: bool)
        ensures
            r == (self@.queue.len() > 0),
    {
        self.messages.len() > 0
    }

    /// Get the net id of the endpoint's address.
    pub fn getsid(&self) -> (r: u64)
        ensures
            r == self@.sid,
    {
        self.sid
    }

    /// Get the endpoint id.
    pub fn geteid(&self) -> (r: u64)
        ensures
            r == self@.eid,
    {
        self.eid
    }

    /// Get the group id.
    pub fn getgid(&self) -> (r: u64)
        ensures
            r == self@.gid,
    {
        self.gid
    }

    /// Set the net id of the endpoint's address.
    pub fn setsid(&mut self, id: u64)
        ensures
            final(self)@ == (EndpointV { sid: id, ..old(self)@ }),
    {
        self.sid = id;
    }

    /// Set the endpoint id.
    pub fn seteid(&mut self, id: u64)
        ensures
            final(self)@ == (EndpointV { eid: id, ..old(self)@ }),
    {
        self.eid = id;
    }

    /// Set the group id.
    pub fn setgid(&mut self, id: u64)
        ensures
            final(self)@ == (EndpointV { gid: id, ..old(self)@ }),
    {
        self.gid = id;
    }

    /// Set the most messages the queue may hold; `0` means unlimited.
    pub fn setlimitpending(&mut self, limit: usize)
        ensures
            final(self)@ == (EndpointV { limitpending: limit, ..old(self)@ }),
    {
        self.limitpending = limit;
    }

    /// Set the most bytes of buffer capacity the queue may hold; `0` means
    /// unlimited.
    pub fn setlimitmemory(&mut self, limit: usize)
        ensures
            final(self)@ == (EndpointV { limitmemory: limit, ..old(self)@ }),
    {
        self.limitmemory = limit;
    }

    /// Replace the library id; the net does this when it registers an
    /// endpoint built by a caller.
    pub(crate) fn set_uid(&mut self, uid: u64)
        ensures
            final(self)@ == (EndpointV { uid, ..old(self)@ }),
    {
        self.uid = uid;
    }

    /// Add one to the handle count: a new handle to this endpoint exists.
    pub fn addref(&mut self)
        requires
            old(self)@.refcnt < usize::MAX,
        ensures
            final(self)@ == (EndpointV { refcnt: (old(self)@.refcnt + 1) as usize, ..old(self)@ }),
    {
        self.refcnt = self.refcnt + 1;
    }

    /// Drop one handle: take one from the handle count, and say whether
    /// this was the moment the net must remove its own handle — the count
    /// fell to one (only the net's handle is left) and removal had not been
    /// triggered before. The flag flips at most once, so removal cannot
    /// happen twice.
    pub fn release(&mut self) -> (remove: bool)
        requires
            old(self)@.refcnt >= 2,
        ensures
            remove == (old(self)@.refcnt == 2 && !old(self)@.dropped),
            final(self)@ == (EndpointV {
                refcnt: (old(self)@.refcnt - 1) as usize,
                dropped: old(self)@.dropped || old(self)@.refcnt == 2,
                ..old(self)@
            }),
    {
        self.refcnt = self.refcnt - 1;
        if self.refcnt == 1 && !self.dropped {
            self.dropped = true;
            true
        } else {
            if self.refcnt == 1 {
                self.dropped = true;
            }
            false
        }
    }

    /// Whether the tick thread should wake this endpoint's sleepers: its
    /// advertised wake-up time has passed, or messages wait while someone
    /// sleeps.
    pub fn should_wake(&self, now: &Timespec) -> (r: bool)
        requires
            self@.wakeupat.normed(),
            now.normed(),
        ensures
            r == (now.total_ns() > self@.wakeupat.total_ns()
                || (self@.queue.len() > 0 && self@.slpcnt > 0)),
    {
        now.after(&self.wakeupat) || (self.hasmessages() && self.sleepercount() > 0)
    }

    /// Offer a message to the endpoint, standing on a net whose id is
    /// `netsid`. The endpoint takes it exactly when the acceptance predicate
    /// and its limits allow, queueing a fan-out copy and charging its
    /// capacity.
    pub fn give(&mut self, msg: &Message, netsid: u64) -> (r: bool)
        requires
            old(self)@.wf(),
            msg@.wf(),
        ensures
            final(self)@.wf(),
            give_post(old(self)@, final(self)@, msg@, netsid, r),
    {
        let myeid = self.eid;
        let mysid = self.sid;
        let mygid = self.gid;

        // Do not hand the message back to the endpoint it came from.
        if !msg.canloop && msg.srceid == myeid && msg.srcsid == mysid {
            return false;
        }

        if msg.dstsid != 0 {
            if msg.dstsid != 1 {
                // Addressed to one specific net.
                if msg.dstsid != mysid {
                    return false;
                }
            } else {
                // Addressed to the local net; a bridge endpoint wearing a
                // remote net's id is not part of it.
                if mysid != netsid {
                    return false;
                }
            }
        }

        // Addressed to one specific endpoint or group.
        if msg.dsteid != 0 && msg.dsteid != myeid && msg.dsteid != mygid {
            return false;
        }

        let qlen = self.messages.len();
        if self.limitpending > 0 && qlen >= self.limitpending {
            return false;
        }

        let cap = msg.cap();
        if self.limitmemory > 0
            && (self.memoryused > self.limitmemory || cap > self.limitmemory - self.memoryused) {
            return false;
        }

        if qlen == usize::MAX {
            return false;
        }

        let cloned = msg.internal_clone();
        self.messages.put(cloned);
        self.memoryused = if self.memoryused <= usize::MAX - cap {
            self.memoryused + cap
        } else {
            usize::MAX
        };
        proof {
            assert(final(self)@.queue =~=
                old(self)@.queue.push(msg@.with_canloop(false)));
        }
        true
    }

    /// Take one message: pop from the front, discarding sync messages whose
    /// claim was already taken, until a message can be handed out or the
    /// queue is empty — then the error is `NoMessages`. A raw payload is
    /// duplicated, so the receiver shares no bytes with anyone; a live sync
    /// message is handed out after taking its claim, so no other receiver
    /// ever gets one with the same claim.
    pub fn recv(&mut self, claims: &mut ClaimTable) -> (r: IoResult<Message>)
        requires
            old(self)@.wf(),
        ensures
            final(self)@.wf(),
            ({
                let step = spec_recv(old(self)@.queue, old(claims)@, old(self)@.memoryused);
                &&& final(self)@ == (EndpointV {
                        queue: step.queue,
                        memoryused: step.mem,
                        ..old(self)@
                    })
                &&& final(claims)@ == step.claims
                &&& match r {
                        IoResult::Okay(m) => step.out == Some(m@) && m@.wf(),
                        IoResult::Error(e) => step.out is None && e.code is NoMessages,
                    }
            }),
    {
        loop
            invariant
                self@.wf(),
                spec_recv(old(self)@.queue, old(claims)@, old(self)@.memoryused)
                    == spec_recv(self@.queue, claims@, self@.memoryused),
                self@ == (EndpointV {
                    queue: self@.queue,
                    memoryused: self@.memoryused,
                    ..old(self)@
                }),
            decreases self@.queue.len(),
        {
            let ghost qpre = self@.queue;
            let ghost cpre = claims@;
            let ghost mpre = self@.memoryused;
            let got = self.messages.get();
            match got {
                Option::None => {
                    return IoResult::Error(IoError { code: IoErrorCode::NoMessages });
                },
                Option::Some(msg) => {
                    let ghost m0 = msg@;
                    proof {
                        assert(m0 == qpre[0]);
                        assert(m0.wf());
                        assert(self@.queue =~= qpre.drop_first());
                        assert forall|i: int| 0 <= i < self@.queue.len() implies
                            (#[trigger] self@.queue[i]).wf()
                        by {
                            assert(self@.queue[i] == qpre[i + 1]);
                        }
                    }
                    let msg = msg.dup_ifok();
                    let sz = msg.cap();
                    self.memoryused = if sz <= self.memoryused {
                        self.memoryused - sz
                    } else {
                        0
                    };
                    proof {
                        assert(m0.cap() == msg@.cap());
                        assert(self@.memoryused == sat_sub(mpre, m0.cap()));
                    }
                    if msg.is_raw() {
                        let out = msg.dup();
                        proof {
                            assert(out@ == delivered(m0));
                            assert(spec_recv(qpre, cpre, mpre) == (RecvStep {
                                queue: qpre.drop_first(),
                                claims: cpre,
                                mem: sat_sub(mpre, m0.cap()),
                                out: Some(delivered(m0)),
                            }));
                        }
                        return IoResult::Okay(out);
                    }
                    if msg.is_sync() {
                        // Only the receiver that takes the claim keeps a
                        // sync message; the rest drop theirs and read on.
                        let won = {
                            let sm = msg.get_syncref();
                            if sm.claim < claims.len() {
                                sm.takeasvalid(claims)
                            } else {
                                false
                            }
                        };
                        if won {
                            proof {
                                assert(!sync_dead(m0, cpre));
                                assert(spec_recv(qpre, cpre, mpre) == (RecvStep {
                                    queue: qpre.drop_first(),
                                    claims: cpre.update(m0.claim() as int, false),
                                    mem: sat_sub(mpre, m0.cap()),
                                    out: Some(m0),
                                }));
                            }
                            return IoResult::Okay(msg);
                        }
                        proof {
                            assert(sync_dead(m0, cpre));
                            assert(claims@ == cpre);
                            assert(spec_recv(qpre, cpre, mpre)
                                == spec_recv(qpre.drop_first(), cpre, sat_sub(mpre, m0.cap())));
                        }
                    } else {
                        proof {
                            assert(spec_recv(qpre, cpre, mpre) == (RecvStep {
                                queue: qpre.drop_first(),
                                claims: cpre,
                                mem: sat_sub(mpre, m0.cap()),
                                out: Some(delivered(m0)),
                            }));
                        }
                        return IoResult::Okay(msg);
                    }
                },
            }
        }
    }
}

/// A receive hands a sync message out only by taking its claim while it is
/// live, and leaves it dead; claims already dead stay dead, and no claim
/// ever comes back to life through a receive.
pub proof fn lemma_recv_sync_claims(q: Seq<MsgV>, claims: Seq<bool>, mem: usize)
    ensures
        spec_recv(q, claims, mem).claims.len() == claims.len(),
        forall|c: int| 0 <= c < claims.len() && !claims[c] ==>
            !(#[trigger] spec_recv(q, claims, mem).claims[c]),
        (spec_recv(q, claims, mem).out matches Some(m) && m.is_sync()) ==> ({
            let m = spec_recv(q, claims, mem).out->Some_0;
            &&& m.claim() < claims.len()
            &&& claims[m.claim() as int]
            &&& !spec_recv(q, claims, mem).claims[m.claim() as int]
        }),
    decreases q.len(),
{
    if q.len() > 0 {
        let m = q[0];
        if m.is_sync() && sync_dead(m, claims) {
            lemma_recv_sync_claims(q.drop_first(), claims, sat_sub(mem, m.cap()));
        }
    }
}

/// Sync uniqueness. Once one receive has handed out a sync message, no
/// later receive — from any endpoint's queue, in any state — hands out a
/// sync message carrying the same claim, as long as the claim table has
/// only let claims die in between, which is all that sends and receives
/// ever do to it.
pub proof fn lemma_sync_unique(q1: Seq<MsgV>, c1: Seq<bool>, mem1: usize, m1: MsgV,
    q2: Seq<MsgV>, c2: Seq<bool>, mem2: usize)
    requires
        spec_recv(q1, c1, mem1).out == Some(m1),
        m1.is_sync(),
        forall|c: int| 0 <= c < spec_recv(q1, c1, mem1).claims.len() && c < c2.len()
            && !spec_recv(q1, c1, mem1).claims[c] ==> !(#[trigger] c2[c]),
    ensures
        !(spec_recv(q2, c2, mem2).out matches Some(m2) && m2.is_sync()
            && m2.claim() == m1.claim()),
{
    lemma_recv_sync_claims(q1, c1, mem1);
    lemma_recv_sync_claims(q2, c2, mem2);
    let cl = m1.claim() as int;
    assert(!spec_recv(q1, c1, mem1).claims[cl]);
    if spec_recv(q2, c2, mem2).out matches Some(m2) && m2.is_sync()
        && m2.claim() == m1.claim() {
        assert(cl < c2.len() && c2[cl]);
        assert(!c2[cl]);
    }
}

/// One receive consumes a prefix of the queue: what it hands out is the
/// last message of that prefix, every earlier one being a discarded dead
/// sync message; nothing behind the prefix moves.
pub proof fn lemma_recv_consumes_prefix(q: Seq<MsgV>, claims: Seq<bool>, mem: usize)
    ensures
        ({
            let st = spec_recv(q, claims, mem);
            let k = q.len() - st.queue.len();
            &&& 0 <= k <= q.len()
            &&& st.queue == q.skip(k as int)
            &&& (st.out matches Some(m) ==> k >= 1 && m == delivered(q[k as int - 1]))
            &&& (st.out is None ==> st.queue.len() == 0)
        }),
    decreases q.len(),
{
    let st = spec_recv(q, claims, mem);
    if q.len() == 0 {
        assert(st.queue =~= q.skip(0));
    } else {
        let m = q[0];
        if m.is_sync() && sync_dead(m, claims) {
            lemma_recv_consumes_prefix(q.drop_first(), claims, sat_sub(mem, m.cap()));
            let st1 = spec_recv(q.drop_first(), claims, sat_sub(mem, m.cap()));
            let k1 = q.drop_first().len() - st1.queue.len();
            assert(q.drop_first() =~= q.skip(1));
            assert(st.queue =~= q.skip(k1 + 1));
            if st.out matches Some(mm) {
                assert(q.drop_first()[k1 - 1] == q[k1 as int]);
            }
        } else {
            assert(st.queue =~= q.skip(1));
        }
    }
}

/// First in, first out. When a receive hands out a message and a later
/// receive on the same endpoint hands out another — whatever was appended
/// to the queue and whatever happened to the claim table in between — the
/// second message stood strictly behind the first in the queue as the
/// first receive found it, with the appended messages behind everything
/// it held.
pub proof fn lemma_recv_fifo(q: Seq<MsgV>, c1: Seq<bool>, mem1: usize,
    extra: Seq<MsgV>, c2: Seq<bool>, mem2: usize)
    ensures
        ({
            let st1 = spec_recv(q, c1, mem1);
            let q2 = st1.queue + extra;
            let st2 = spec_recv(q2, c2, mem2);
            let k1 = q.len() - st1.queue.len();
            let k2 = q2.len() - st2.queue.len();
            &&& (st1.out matches Some(m1) ==> m1 == delivered(q[k1 as int - 1]))
            &&& (st2.out matches Some(m2) ==> (st1.out is Some && k2 <= st1.queue.len() ==>
                    m2 == delivered(q[k1 + k2 - 1]) && k1 + k2 - 1 > k1 - 1))
        }),
{
    let st1 = spec_recv(q, c1, mem1);
    let q2 = st1.queue + extra;
    let st2 = spec_recv(q2, c2, mem2);
    lemma_recv_consumes_prefix(q, c1, mem1);
    lemma_recv_consumes_prefix(q2, c2, mem2);
    let k1 = q.len() - st1.queue.len();
    let k2 = q2.len() - st2.queue.len();
    if st1.out matches Some(m1) {
        if st2.out matches Some(m2) && k2 <= st1.queue.len() {
            assert(q2[k2 - 1] == st1.queue[k2 - 1]);
            assert(st1.queue[k2 - 1] == q[k1 + k2 - 1]);
        }
    }
}

/// Capacity bound. With a pending limit set, a queue standing within the
/// limit never grows past it: an offer that would is rejected.
pub proof fn lemma_capacity_bound(pre: EndpointV, post: EndpointV, m: MsgV, netsid: u64,
    accepted: bool)
    requires
        give_post(pre, post, m, netsid, accepted),
        pre.limitpending > 0,
        pre.queue.len() <= pre.limitpending,
    ensures
        post.limitpending == pre.limitpending,
        post.queue.len() <= post.limitpending,
{
}

/// Memory bound. With a memory limit set, the bytes accounted to an
/// endpoint never stand above the limit right after an accepted offer:
/// an offer whose buffer would not fit is rejected.
pub proof fn lemma_memory_bound(pre: EndpointV, post: EndpointV, m: MsgV, netsid: u64)
    requires
        give_post(pre, post, m, netsid, true),
        pre.limitmemory > 0,
    ensures
        post.limitmemory == pre.limitmemory,
        post.memoryused <= post.limitmemory,
{
}

/// What waiting on a set of endpoints does: try a receive on each endpoint
/// in the order given, stopping at the first that hands out a message;
/// every try transforms that endpoint and the claim table as
/// [`spec_recv`] says, whether or not it hands one out.
pub open spec fn spec_select(pre: crate::net::NetV, list: Seq<u64>)
    -> (crate::net::NetV, Option<MsgV>)
    decreases list.len(),
{
    if list.len() == 0 {
        (pre, None)
    } else {
        let uid = list[0];
        let step = crate::net::recv_step(pre, uid);
        let post = crate::net::NetV {
            eps: pre.eps.update(pre.index_of(uid), EndpointV {
                queue: step.queue,
                memoryused: step.mem,
                ..pre.ep(uid)
            }),
            claims: step.claims,
            ..pre
        };
        if step.out is Some {
            (post, step.out)
        } else {
            spec_select(post, list.drop_first())
        }
    }
}

/// Try each listed endpoint in order and hand out the first message any of
/// them yields; with none to hand out anywhere, the error is `NoMessages`.
pub fn recv(net: &mut crate::net::Net, list: &Vec<u64>) -> (r: IoResult<Message>)
    requires
        old(net)@.wf(),
        forall|i: int| 0 <= i < list@.len() ==> old(net)@.has_ep(#[trigger] list@[i]),
    ensures
        final(net)@.wf(),
        final(net)@ == spec_select(old(net)@, list@).0,
        ({
            let out = spec_select(old(net)@, list@).1;
            match r {
                IoResult::Okay(m) => out == Some(m@) && m@.wf(),
                IoResult::Error(e) => out is None && e.code is NoMessages,
            }
        }),
{
    let n = list.len();
    proof {
        assert(list@.skip(0) =~= list@);
    }
    let mut i: usize = 0;
    while i < n
        invariant
            i <= n,
            n == list@.len(),
            net@.wf(),
            forall|j: int| 0 <= j < n ==> net@.has_ep(#[trigger] list@[j]),
            spec_select(old(net)@, list@) == spec_select(net@, list@.skip(i as int)),
        decreases n - i,
    {
        let ghost mid = net@;
        let uid = list[i];
        let got = net.recv(uid);
        proof {
            assert(list@.skip(i as int)[0] == list@[i as int]);
            assert(list@.skip(i as int).drop_first() =~= list@.skip(i as int + 1));
            let i0 = mid.index_of(uid);
            crate::net::lemma_index_of_uid(mid.eps, uid);
            assert forall|j: int| 0 <= j < n implies
                net@.has_ep(#[trigger] list@[j]) by {
                crate::net::lemma_index_of_update(mid.eps, i0, EndpointV {
                    queue: crate::net::recv_step(mid, uid).queue,
                    memoryused: crate::net::recv_step(mid, uid).mem,
                    ..mid.ep(uid)
                }, list@[j]);
            }
        }
        match got {
            IoResult::Okay(m) => {
                return IoResult::Okay(m);
            },
            IoResult::Error(_) => {},
        }
        i = i + 1;
    }
    proof {
        assert(list@.skip(n as int) =~= Seq::<u64>::empty());
    }
    IoResult::Error(IoError { code: IoErrorCode::NoMessages })
}

/// Try each listed endpoint in order, waiting up to `duration` for a
/// message: when nothing can be handed out anywhere, the call returns
/// `TimedOut` once the clock passes `now + duration`.
pub fn recvorblock(net: &mut crate::net::Net, list: &Vec<u64>, duration: Timespec)
    -> (r: IoResult<Message>)
    requires
        old(net)@.wf(),
        forall|i: int| 0 <= i < list@.len() ==> old(net)@.has_ep(#[trigger] list@[i]),
        duration.normed(),
    ensures
        final(net)@.wf(),
        final(net)@ == spec_select(old(net)@, list@).0,
        ({
            let out = spec_select(old(net)@, list@).1;
            match r {
                IoResult::Okay(m) => out == Some(m@) && m@.wf(),
                IoResult::Error(e) => out is None && e.code is TimedOut,
            }
        }),
{
    let first = crate::endpoint::recv(net, list);
    if first.is_ok() {
        return first;
    }
    let ghost mid = net@;
    let now = crate::timespec::get_time();
    let deadline = crate::timespec::deadline_after(now, duration);
    // Poll the clock until it passes the deadline. The poll count is
    // bounded, as every loop here must come to an end, but at a bound no
    // clock outlives.
    let mut fuel: u64 = 0xffff_ffff_ffff_ffff;
    while fuel > 0
        invariant
            net@ == mid,
            deadline.normed(),
        decreases fuel,
    {
        let t = crate::timespec::get_time();
        if t.after(&deadline) {
            break;
        }
        fuel = fuel - 1;
    }
    IoResult::Error(IoError { code: IoErrorCode::TimedOut })
}

} // verus!
