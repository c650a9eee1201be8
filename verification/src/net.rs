//! The net: the registry of endpoints that a single send fans out over.
//!
//! Endpoints are owned by their net and reached through the ids the net
//! hands out; each endpoint also carries a handle count, and when the last
//! handle outside the net is dropped, the net removes the endpoint from
//! its list exactly once.

use vstd::prelude::*;

use crate::endpoint::give_accepts;
use crate::endpoint::give_post;
use crate::endpoint::spec_recv;
use crate::endpoint::Endpoint;
use crate::endpoint::EndpointV;
use crate::endpoint::IoError;
use crate::endpoint::IoErrorCode;
use crate::endpoint::IoResult;
use crate::message::Message;
use crate::rawmessage::RawMessage;
use crate::message::MsgV;
use crate::message::PayV;
use crate::clonemessage::CloneV;
use crate::syncmessage::ClaimTable;
use crate::syncmessage::SyncV;
use crate::timespec::get_time;
use crate::timespec::deadline_after;
use crate::timespec::Timespec;

verus! {

/// An identifier of a net or an endpoint.
pub type ID = u64;

/// The id that stands for "no id": the group id of a fresh endpoint, and
/// the net id a bridge endpoint wears before the handshake.
pub const UNUSED_ID: ID = 0xffff_ffff_ffff_ffff;

/// Where endpoint ids start when the net assigns them.
pub const FIRST_AUTO_EID: ID = 0x10000;

/// An address outside the local process that a bridge can reach: a TCP
/// host and port.
pub enum NetExternalAddress {
    TCP(String, u16),
}

/// The shapes a message destination can take: everyone everywhere, one net,
/// one endpoint or group of a net, or the matching scope on every net.
pub enum NetAddress {
    /// Every endpoint of every net.
    Everyone,
    /// Every endpoint of one net.
    GlobalSingle(u64),
    /// One endpoint of one net.
    ServerSingle(u64, u64),
    /// Every endpoint of every net sharing a group id.
    GlobalGroup(u64),
    /// A group of endpoints of one net.
    ServerGroup(u64, u64),
}

/// The mathematical state of a net.
pub ghost struct NetV {
    /// The net's own id.
    pub sid: u64,
    /// The lowest endpoint id the net has not handed out yet.
    pub hueid: u64,
    /// The next library id for an endpoint.
    pub nextuid: u64,
    /// The registered endpoints, in registration order.
    pub eps: Seq<EndpointV>,
    /// The claim tokens of the net's sync messages.
    pub claims: Seq<bool>,
}

impl NetV {
    /// Every endpoint is well formed and the library ids are unique and
    /// below the counter.
    pub open spec fn wf(self) -> bool {
        &&& forall|i: int| 0 <= i < self.eps.len() ==> (#[trigger] self.eps[i]).wf()
        &&& forall|i: int| 0 <= i < self.eps.len() ==> (#[trigger] self.eps[i]).uid < self.nextuid
        &&& forall|i: int, j: int|
                #![trigger self.eps[i].uid, self.eps[j].uid]
                0 <= i < j < self.eps.len() ==> self.eps[i].uid != self.eps[j].uid
    }

    /// The position of the endpoint with library id `uid`, or `-1`.
    pub open spec fn index_of(self, uid: u64) -> int {
        index_of_uid(self.eps, uid)
    }

    /// Whether `uid` names an endpoint of this net.
    pub open spec fn has_ep(self, uid: u64) -> bool {
        self.index_of(uid) >= 0
    }

    /// The endpoint with library id `uid`.
    pub open spec fn ep(self, uid: u64) -> EndpointV {
        self.eps[self.index_of(uid)]
    }
}

/// The first position in `eps` of an endpoint with library id `uid`,
/// or `-1` if there is none.
pub open spec fn index_of_uid(eps: Seq<EndpointV>, uid: u64) -> int
    decreases eps.len(),
{
    if eps.len() == 0 {
        -1
    } else if eps[0].uid == uid {
        0
    } else {
        let r = index_of_uid(eps.drop_first(), uid);
        if r == -1 {
            -1
        } else {
            r + 1
        }
    }
}

/// Basic facts about `index_of_uid`: the index it gives is in range and
/// names an endpoint with the id asked for, and `-1` means no endpoint
/// has it.
pub proof fn lemma_index_of_uid(eps: Seq<EndpointV>, uid: u64)
    ensures
        index_of_uid(eps, uid) >= 0 ==> index_of_uid(eps, uid) < eps.len()
            && eps[index_of_uid(eps, uid)].uid == uid,
        index_of_uid(eps, uid) == -1 ==> forall|i: int| 0 <= i < eps.len() ==>
            (#[trigger] eps[i]).uid != uid,
        index_of_uid(eps, uid) >= -1,
    decreases eps.len(),
{
    if eps.len() > 0 && eps[0].uid != uid {
        lemma_index_of_uid(eps.drop_first(), uid);
        assert forall|i: int| 0 <= i < eps.len() && index_of_uid(eps, uid) == -1 implies
            (#[trigger] eps[i]).uid != uid
        by {
            if i > 0 {
                assert(eps.drop_first()[i - 1] == eps[i]);
            }
        }
    }
}

/// The first matching position determines `index_of_uid`.
pub proof fn lemma_index_of_uid_first(eps: Seq<EndpointV>, uid: u64, i: int)
    requires
        0 <= i < eps.len(),
        eps[i].uid == uid,
        forall|j: int| 0 <= j < i ==> (#[trigger] eps[j]).uid != uid,
    ensures
        index_of_uid(eps, uid) == i,
    decreases i,
{
    if i == 0 {
    } else {
        assert forall|j: int| 0 <= j < i - 1 implies
            (#[trigger] eps.drop_first()[j]).uid != uid
        by {
            assert(eps.drop_first()[j] == eps[j + 1]);
        }
        assert(eps.drop_first()[i - 1] == eps[i]);
        lemma_index_of_uid_first(eps.drop_first(), uid, i - 1);
    }
}

/// When no endpoint carries the id, `index_of_uid` is `-1`.
pub proof fn lemma_index_of_uid_none(eps: Seq<EndpointV>, uid: u64)
    requires
        forall|j: int| 0 <= j < eps.len() ==> (#[trigger] eps[j]).uid != uid,
    ensures
        index_of_uid(eps, uid) == -1,
    decreases eps.len(),
{
    if eps.len() > 0 {
        assert forall|j: int| 0 <= j < eps.drop_first().len() implies
            (#[trigger] eps.drop_first()[j]).uid != uid
        by {
            assert(eps.drop_first()[j] == eps[j + 1]);
        }
        lemma_index_of_uid_none(eps.drop_first(), uid);
    }
}

/// How many endpoints of `eps` accept the message: the size of the set
/// the acceptance predicate and the limits select.
pub open spec fn accept_count(eps: Seq<EndpointV>, m: MsgV, netsid: u64) -> nat
    decreases eps.len(),
{
    if eps.len() == 0 {
        0
    } else {
        accept_count(eps.drop_last(), m, netsid)
            + if give_accepts(eps.last(), m, netsid) { 1nat } else { 0nat }
    }
}

/// How one send changes the endpoints of a net: each endpoint takes the
/// offered message exactly when its acceptance predicate and limits allow.
pub open spec fn send_post(pre: Seq<EndpointV>, post: Seq<EndpointV>, m: MsgV,
    netsid: u64) -> bool {
    &&& post.len() == pre.len()
    &&& forall|i: int| 0 <= i < pre.len() ==>
            give_post(#[trigger] pre[i], post[i], m, netsid, give_accepts(pre[i], m, netsid))
}

/// What a message looks like once `send` has prepared it for dispatch: a
/// raw payload is duplicated first, so the sender's buffer is shared with
/// nobody; other payloads go as they are.
pub open spec fn prepared(m: MsgV) -> MsgV {
    if m.is_raw() {
        m.dupped()
    } else {
        m
    }
}

/// A group of endpoints that can all communicate locally, and the claim
/// tokens of the sync messages created for it.
pub struct Net {
    sid: u64,
    hueid: u64,
    nextuid: u64,
    endpoints: Vec<Endpoint>,
    claims: ClaimTable,
}

impl View for Net {
    type V = NetV;

    closed spec fn view(&self) -> NetV {
        NetV {
            sid: self.sid,
            hueid: self.hueid,
            nextuid: self.nextuid,
            eps: self.endpoints@.map_values(|e: Endpoint| e@),
            claims: self.claims@,
        }
    }
}

impl Net {
    /// A new, empty net with the given id. Endpoint ids assigned by the net
    /// start at [`FIRST_AUTO_EID`].
    pub fn new(sid: ID) -> (r: Net)
        ensures
            r@.wf(),
            r@ == (NetV {
                sid,
                hueid: FIRST_AUTO_EID,
                nextuid: 0,
                eps: Seq::<EndpointV>::empty(),
                claims: Seq::<bool>::empty(),
            }),
    {
        let r = Net {
            sid,
            hueid: FIRST_AUTO_EID,
            nextuid: 0,
            endpoints: Vec::new(),
            claims: ClaimTable::new(),
        };
        proof {
            assert(r@.eps =~= Seq::<EndpointV>::empty());
        }
        r
    }

    /// How many endpoints are registered.
    pub fn getepcount(&self) -> (r: usize)
        ensures
            r == self@.eps.len(),
    {
        self.endpoints.len()
    }

    /// The net's own id.
    pub fn getserveraddr(&self) -> (r: ID)
        ensures
            r == self@.sid,
    {
        self.sid
    }

    /// Hand out an endpoint id no endpoint of this net was given before.
    pub fn get_neweid(&mut self) -> (r: ID)
        requires
            old(self)@.hueid < u64::MAX,
        ensures
            r == old(self)@.hueid,
            final(self)@ == (NetV { hueid: (old(self)@.hueid + 1) as u64, ..old(self)@ }),
    {
        let eid = self.hueid;
        self.hueid = self.hueid + 1;
        eid
    }

    /// The position of the endpoint with library id `uid`, if it is
    /// registered.
    pub fn find_endpoint(&self, uid: u64) -> (r: Option<usize>)
        ensures
            match r {
                Some(i) => self@.index_of(uid) == i,
                None => self@.index_of(uid) == -1,
            },
    {
        let n = self.endpoints.len();
        let mut i: usize = 0;
        while i < n
            invariant
                i <= n,
                n == self@.eps.len(),
                forall|j: int| 0 <= j < i ==> (#[trigger] self@.eps[j]).uid != uid,
            decreases n - i,
        {
            if self.endpoints[i].id() == uid {
                proof {
                    lemma_index_of_uid_first(self@.eps, uid, i as int);
                }
                return Some(i);
            }
            i = i + 1;
        }
        proof {
            lemma_index_of_uid_none(self@.eps, uid);
        }
        None
    }

    /// Borrow the endpoint at position `i` of the registration order.
    pub fn endpoint_at(&self, i: usize) -> (r: &Endpoint)
        requires
            i < self@.eps.len(),
        ensures
            r@ == self@.eps[i as int],
    {
        &self.endpoints[i]
    }

    /// Borrow the endpoint at position `i` mutably; the rest of the net is
    /// untouched, whatever the caller does through the borrow.
    pub fn endpoint_at_mut(&mut self, i: usize) -> (r: &mut Endpoint)
        requires
            i < old(self)@.eps.len(),
        ensures
            (*r)@ == old(self)@.eps[i as int],
            final(self)@.eps.len() == old(self)@.eps.len(),
            final(self)@.eps[i as int] == (*final(r))@,
            forall|j: int| 0 <= j < old(self)@.eps.len() && j != i ==>
                final(self)@.eps[j] == old(self)@.eps[j],
            final(self)@.sid == old(self)@.sid,
            final(self)@.hueid == old(self)@.hueid,
            final(self)@.nextuid == old(self)@.nextuid,
            final(self)@.claims == old(self)@.claims,
    {
        &mut self.endpoints[i]
    }

    /// Register a new endpoint with an id the net assigns, and return its
    /// library id. The net itself keeps one handle and the caller gets one,
    /// so the endpoint starts with two.
    pub fn new_endpoint(&mut self) -> (r: u64)
        requires
            old(self)@.wf(),
            old(self)@.hueid < u64::MAX,
            old(self)@.nextuid < u64::MAX,
        ensures
            final(self)@.wf(),
            r == old(self)@.nextuid,
            final(self)@ == (NetV {
                hueid: (old(self)@.hueid + 1) as u64,
                nextuid: (old(self)@.nextuid + 1) as u64,
                eps: old(self)@.eps.push(fresh_endpoint(old(self)@.sid, old(self)@.hueid,
                    old(self)@.nextuid)),
                ..old(self)@
            }),
            final(self)@.index_of(r) == old(self)@.eps.len(),
    {
        let eid = self.hueid;
        self.hueid = self.hueid + 1;
        proof {
            assert(self@.eps == old(self)@.eps);
            assert(self@.nextuid == old(self)@.nextuid);
        }
        self.register(eid)
    }

    /// Register a new endpoint under the given endpoint id, and return its
    /// library id; ids the net assigns later stay clear of `eid`. The net
    /// itself keeps one handle and the caller gets one.
    pub fn new_endpoint_withid(&mut self, eid: ID) -> (r: u64)
        requires
            old(self)@.wf(),
            eid < u64::MAX,
            old(self)@.nextuid < u64::MAX,
        ensures
            final(self)@.wf(),
            r == old(self)@.nextuid,
            final(self)@ == (NetV {
                hueid: if eid >= old(self)@.hueid { (eid + 1) as u64 } else { old(self)@.hueid },
                nextuid: (old(self)@.nextuid + 1) as u64,
                eps: old(self)@.eps.push(fresh_endpoint(old(self)@.sid, eid,
                    old(self)@.nextuid)),
                ..old(self)@
            }),
            final(self)@.index_of(r) == old(self)@.eps.len(),
    {
        // an explicit id at or past the allocator moves the allocator past
        // it, so ids the net assigns later never collide with it
        if eid >= self.hueid {
            self.hueid = eid + 1;
        }
        proof {
            assert(self@.eps == old(self)@.eps);
            assert(self@.nextuid == old(self)@.nextuid);
        }
        self.register(eid)
    }

    /// Register a fresh endpoint under `eid` and hand back its library id.
    fn register(&mut self, eid: ID) -> (r: u64)
        requires
            old(self)@.wf(),
            old(self)@.nextuid < u64::MAX,
        ensures
            final(self)@.wf(),
            r == old(self)@.nextuid,
            final(self)@ == (NetV {
                nextuid: (old(self)@.nextuid + 1) as u64,
                eps: old(self)@.eps.push(fresh_endpoint(old(self)@.sid, eid,
                    old(self)@.nextuid)),
                ..old(self)@
            }),
            final(self)@.index_of(r) == old(self)@.eps.len(),
    {
        let uid = self.nextuid;
        self.nextuid = self.nextuid + 1;
        let mut ep = Endpoint::new(self.sid, eid, uid);
        ep.addref();
        self.endpoints.push(ep);
        proof {
            assert(final(self)@.eps =~= old(self)@.eps.push(
                fresh_endpoint(old(self)@.sid, eid, old(self)@.nextuid)));
            let post = final(self)@.eps;
            let n = old(self)@.eps.len() as int;
            assert forall|j: int| 0 <= j < n implies (#[trigger] post[j]).uid != uid by {
                assert(post[j] == old(self)@.eps[j]);
            }
            lemma_index_of_uid_first(post, uid, n);
        }
        uid
    }
}

impl Net {
    /// Register an endpoint built by the caller (a bridge endpoint, for
    /// instance, wears no net id until the handshake). The net assigns the
    /// library id and keeps a handle of its own beside the caller's.
    pub fn add_endpoint(&mut self, ep: Endpoint) -> (r: u64)
        requires
            old(self)@.wf(),
            old(self)@.nextuid < u64::MAX,
            ep@.refcnt < usize::MAX,
            ep@.wf(),
        ensures
            final(self)@.wf(),
            r == old(self)@.nextuid,
            final(self)@ == (NetV {
                nextuid: (old(self)@.nextuid + 1) as u64,
                eps: old(self)@.eps.push(EndpointV {
                    uid: old(self)@.nextuid,
                    refcnt: (ep@.refcnt + 1) as usize,
                    ..ep@
                }),
                ..old(self)@
            }),
            final(self)@.index_of(r) == old(self)@.eps.len(),
    {
        let uid = self.nextuid;
        self.nextuid = self.nextuid + 1;
        let mut ep = ep;
        ep.set_uid(uid);
        ep.addref();
        self.endpoints.push(ep);
        proof {
            assert(final(self)@.eps =~= old(self)@.eps.push(EndpointV {
                uid: old(self)@.nextuid,
                refcnt: (ep@.refcnt) as usize,
                ..ep@
            }));
            let n = old(self)@.eps.len() as int;
            assert forall|k: int| 0 <= k < n implies
                final(self)@.eps[k] == old(self)@.eps[k] by {}
            assert(final(self)@.wf());
            let post = final(self)@.eps;
            assert forall|j: int| 0 <= j < n implies (#[trigger] post[j]).uid != uid by {
                assert(post[j] == old(self)@.eps[j]);
            }
            lemma_index_of_uid_first(post, uid, n);
        }
        uid
    }

    /// Offer the message to every endpoint in registration order and count
    /// how many took it; the message goes as it stands.
    fn send_internal(&mut self, msg: Message) -> (r: usize)
        requires
            old(self)@.wf(),
            msg@.wf(),
        ensures
            final(self)@.wf(),
            send_post(old(self)@.eps, final(self)@.eps, msg@, old(self)@.sid),
            r == accept_count(old(self)@.eps, msg@, old(self)@.sid),
            final(self)@.sid == old(self)@.sid,
            final(self)@.hueid == old(self)@.hueid,
            final(self)@.nextuid == old(self)@.nextuid,
            final(self)@.claims == old(self)@.claims,
    {
        let sid = self.sid;
        let n = self.endpoints.len();
        let mut i: usize = 0;
        let mut ocnt: usize = 0;
        while i < n
            invariant
                i <= n,
                ocnt <= i,
                n == self@.eps.len(),
                n == old(self)@.eps.len(),
                msg@.wf(),
                sid == old(self)@.sid,
                forall|j: int| i <= j < n ==> self@.eps[j] == old(self)@.eps[j],
                forall|j: int| 0 <= j < i ==> give_post(#[trigger] old(self)@.eps[j],
                    self@.eps[j], msg@, sid, give_accepts(old(self)@.eps[j], msg@, sid)),
                forall|j: int| 0 <= j < n ==> (#[trigger] self@.eps[j]).wf(),
                forall|j: int| 0 <= j < n ==>
                    (#[trigger] self@.eps[j]).uid == old(self)@.eps[j].uid,
                ocnt == accept_count(old(self)@.eps.take(i as int), msg@, sid),
                self@.sid == old(self)@.sid,
                self@.hueid == old(self)@.hueid,
                self@.nextuid == old(self)@.nextuid,
                self@.claims == old(self)@.claims,
                old(self)@.wf(),
            decreases n - i,
        {
            let ghost pre = self@.eps;
            proof {
                assert(self@.eps[i as int].wf());
            }
            let ep = &mut self.endpoints[i];
            let accepted = ep.give(&msg, sid);
            if accepted {
                ocnt = ocnt + 1;
            }
            proof {
                assert(self@.eps[i as int].wf());
                assert(give_post(old(self)@.eps[i as int], self@.eps[i as int], msg@, sid,
                    accepted));
                assert(self@.eps[i as int].uid == old(self)@.eps[i as int].uid);
                assert forall|j: int| 0 <= j < n implies (#[trigger] self@.eps[j]).wf() by {
                    if j != i {
                        assert(self@.eps[j] == pre[j]);
                    }
                }
                assert forall|j: int| 0 <= j < n implies
                    (#[trigger] self@.eps[j]).uid == old(self)@.eps[j].uid by {
                    if j != i {
                        assert(self@.eps[j] == pre[j]);
                    }
                }
                assert(old(self)@.eps.take(i + 1 as int).drop_last() =~=
                    old(self)@.eps.take(i as int));
                assert(old(self)@.eps.take(i + 1 as int).last() == old(self)@.eps[i as int]);
            }
            i = i + 1;
        }
        proof {
            assert(old(self)@.eps.take(n as int) =~= old(self)@.eps);
            assert(final(self)@.wf());
        }
        ocnt
    }

    /// Send the message: a raw payload is first duplicated into a fresh
    /// buffer, so the sender's buffer reaches nobody. Every endpoint is
    /// offered the message and takes it exactly when the acceptance
    /// predicate and its limits allow; the count of takers is returned.
    pub fn send(&mut self, msg: Message) -> (r: usize)
        requires
            old(self)@.wf(),
            msg@.wf(),
        ensures
            final(self)@.wf(),
            send_post(old(self)@.eps, final(self)@.eps, prepared(msg@), old(self)@.sid),
            r == accept_count(old(self)@.eps, prepared(msg@), old(self)@.sid),
            final(self)@.sid == old(self)@.sid,
            final(self)@.hueid == old(self)@.hueid,
            final(self)@.nextuid == old(self)@.nextuid,
            final(self)@.claims == old(self)@.claims,
    {
        if msg.is_raw() {
            let m2 = msg.dup();
            self.send_internal(m2)
        } else {
            self.send_internal(msg)
        }
    }

    /// Send the message with the given source address stamped into its
    /// header first.
    pub fn sendas(&mut self, msg: Message, fromsid: ID, fromeid: ID) -> (r: usize)
        requires
            old(self)@.wf(),
            msg@.wf(),
        ensures
            final(self)@.wf(),
            send_post(old(self)@.eps, final(self)@.eps,
                prepared(msg@.stamped(fromsid, fromeid)), old(self)@.sid),
            r == accept_count(old(self)@.eps, prepared(msg@.stamped(fromsid, fromeid)),
                old(self)@.sid),
            final(self)@.sid == old(self)@.sid,
            final(self)@.hueid == old(self)@.hueid,
            final(self)@.nextuid == old(self)@.nextuid,
            final(self)@.claims == old(self)@.claims,
    {
        let mut msg = msg;
        msg.srcsid = fromsid;
        msg.srceid = fromeid;
        self.send(msg)
    }
}

/// Removing one endpoint keeps a net's endpoint list well formed.
proof fn lemma_wf_remove(v: NetV, i: int)
    requires
        v.wf(),
        0 <= i < v.eps.len(),
    ensures
        (NetV { eps: v.eps.remove(i), ..v }).wf(),
{
    let post = v.eps.remove(i);
    assert forall|j: int| 0 <= j < post.len() implies (#[trigger] post[j]).wf() by {
        if j < i {
            assert(post[j] == v.eps[j]);
        } else {
            assert(post[j] == v.eps[j + 1]);
        }
    }
    assert forall|j: int| 0 <= j < post.len() implies (#[trigger] post[j]).uid < v.nextuid by {
        if j < i {
            assert(post[j] == v.eps[j]);
        } else {
            assert(post[j] == v.eps[j + 1]);
        }
    }
    assert forall|j: int, k: int|
        #![trigger post[j].uid, post[k].uid]
        0 <= j < k < post.len() implies post[j].uid != post[k].uid by {
        if j < i {
            assert(post[j] == v.eps[j]);
        } else {
            assert(post[j] == v.eps[j + 1]);
        }
        if k < i {
            assert(post[k] == v.eps[k]);
        } else {
            assert(post[k] == v.eps[k + 1]);
        }
    }
}

/// Replacing one endpoint keeps a net's endpoint list well formed, as long
/// as the endpoint stays well formed and keeps its library id.
proof fn lemma_wf_update(v: NetV, i: int, e: EndpointV)
    requires
        v.wf(),
        0 <= i < v.eps.len(),
        e.wf(),
        e.uid == v.eps[i].uid,
    ensures
        (NetV { eps: v.eps.update(i, e), ..v }).wf(),
{
    let post = v.eps.update(i, e);
    assert forall|j: int| 0 <= j < post.len() implies (#[trigger] post[j]).wf() by {
        if j != i {
            assert(post[j] == v.eps[j]);
        }
    }
    assert forall|j: int| 0 <= j < post.len() implies (#[trigger] post[j]).uid < v.nextuid by {
        if j != i {
            assert(post[j] == v.eps[j]);
        }
    }
    assert forall|j: int, k: int|
        #![trigger post[j].uid, post[k].uid]
        0 <= j < k < post.len() implies post[j].uid != post[k].uid by {
        assert(post[j].uid == v.eps[j].uid);
        assert(post[k].uid == v.eps[k].uid);
    }
}

impl Net {
    /// Remove the endpoint with library id `uid` from the list, if it is
    /// there; asking again is harmless.
    pub fn drop_endpoint(&mut self, uid: u64)
        requires
            old(self)@.wf(),
        ensures
            final(self)@.wf(),
            old(self)@.index_of(uid) == -1 ==> final(self)@ == old(self)@,
            old(self)@.index_of(uid) >= 0 ==> final(self)@ == (NetV {
                eps: old(self)@.eps.remove(old(self)@.index_of(uid)),
                ..old(self)@
            }),
    {
        match self.find_endpoint(uid) {
            Option::None => {},
            Option::Some(i) => {
                proof {
                    lemma_index_of_uid(self@.eps, uid);
                    lemma_wf_remove(self@, i as int);
                }
                self.endpoints.remove(i);
                proof {
                    assert(final(self)@.eps =~=
                        old(self)@.eps.remove(old(self)@.index_of(uid)));
                }
            },
        }
    }

    /// A new handle to the endpoint with library id `uid` exists: its
    /// handle count grows by one. Models handing a clone of the endpoint
    /// to another owner.
    pub fn clone_endpoint(&mut self, uid: u64)
        requires
            old(self)@.wf(),
            old(self)@.has_ep(uid),
            old(self)@.ep(uid).refcnt < usize::MAX,
        ensures
            final(self)@.wf(),
            final(self)@ == (NetV {
                eps: old(self)@.eps.update(old(self)@.index_of(uid), EndpointV {
                    refcnt: (old(self)@.ep(uid).refcnt + 1) as usize,
                    ..old(self)@.ep(uid)
                }),
                ..old(self)@
            }),
    {
        proof {
            lemma_index_of_uid(self@.eps, uid);
        }
        let i = match self.find_endpoint(uid) {
            Option::Some(i) => i,
            Option::None => unreached(),
        };
        proof {
            assert(self@.eps[i as int].wf());
        }
        let ep = &mut self.endpoints[i];
        ep.addref();
        proof {
            assert(final(self)@.eps =~= old(self)@.eps.update(old(self)@.index_of(uid),
                EndpointV {
                    refcnt: (old(self)@.ep(uid).refcnt + 1) as usize,
                    ..old(self)@.ep(uid)
                }));
            lemma_wf_update(old(self)@, old(self)@.index_of(uid), EndpointV {
                refcnt: (old(self)@.ep(uid).refcnt + 1) as usize,
                ..old(self)@.ep(uid)
            });
        }
    }

    /// Drop a user handle to the endpoint with library id `uid`: its handle
    /// count falls by one, and the moment only the net's own handle is left
    /// the endpoint is removed from the list — exactly once, however many
    /// handles are dropped afterwards. Returns whether this call removed it.
    pub fn release_endpoint(&mut self, uid: u64) -> (removed: bool)
        requires
            old(self)@.wf(),
            old(self)@.has_ep(uid),
            old(self)@.ep(uid).refcnt >= 2,
        ensures
            final(self)@.wf(),
            removed == (old(self)@.ep(uid).refcnt == 2 && !old(self)@.ep(uid).dropped),
            removed ==> final(self)@ == (NetV {
                eps: old(self)@.eps.remove(old(self)@.index_of(uid)),
                ..old(self)@
            }),
            !removed ==> final(self)@ == (NetV {
                eps: old(self)@.eps.update(old(self)@.index_of(uid), EndpointV {
                    refcnt: (old(self)@.ep(uid).refcnt - 1) as usize,
                    dropped: old(self)@.ep(uid).dropped || old(self)@.ep(uid).refcnt == 2,
                    ..old(self)@.ep(uid)
                }),
                ..old(self)@
            }),
    {
        proof {
            lemma_index_of_uid(self@.eps, uid);
        }
        let i = match self.find_endpoint(uid) {
            Option::Some(i) => i,
            Option::None => unreached(),
        };
        let ep = &mut self.endpoints[i];
        let remove = ep.release();
        proof {
            let i0 = old(self)@.index_of(uid);
            let released = EndpointV {
                refcnt: (old(self)@.ep(uid).refcnt - 1) as usize,
                dropped: old(self)@.ep(uid).dropped || old(self)@.ep(uid).refcnt == 2,
                ..old(self)@.ep(uid)
            };
            assert(self@.eps =~= old(self)@.eps.update(i0, released));
            lemma_wf_update(old(self)@, i0, released);
            assert(self@ == (NetV { eps: old(self)@.eps.update(i0, released), ..old(self)@ }));
        }
        if remove {
            proof {
                let i0 = old(self)@.index_of(uid);
                assert(self@.eps[i0].uid == uid);
                assert forall|j: int| 0 <= j < i0 implies
                    (#[trigger] self@.eps[j]).uid != uid by {
                    assert(self@.eps[j] == old(self)@.eps[j]);
                    assert(old(self)@.eps[j].uid != old(self)@.eps[i0].uid);
                }
                lemma_index_of_uid_first(self@.eps, uid, i0);
                lemma_wf_remove(self@, i0);
            }
            self.endpoints.remove(i);
            proof {
                assert(self@.eps =~=
                    old(self)@.eps.remove(old(self)@.index_of(uid)));
            }
            true
        } else {
            false
        }
    }
}

impl Net {
    /// Create a sync message whose claim token lives in this net's table.
    pub fn new_sync_message(&mut self, tag: u64, payload: RawMessage)
        -> (r: Message)
        requires
            old(self)@.wf(),
            payload@.wf(),
            old(self)@.claims.len() < usize::MAX,
        ensures
            final(self)@.wf(),
            final(self)@ == (NetV { claims: old(self)@.claims.push(true), ..old(self)@ }),
            r@ == (MsgV {
                srcsid: 0, srceid: 0, dstsid: 0, dsteid: 0, canloop: false,
                pay: PayV::Sync(SyncV {
                    hash: tag,
                    claim: old(self)@.claims.len(),
                    raw: payload@,
                }),
            }),
            r@.wf(),
    {
        Message::new_sync(tag, payload, &mut self.claims)
    }

    /// Send a message with the source address of the endpoint with library
    /// id `uid` stamped into the header.
    pub fn send_from(&mut self, uid: u64, msg: Message) -> (r: usize)
        requires
            old(self)@.wf(),
            old(self)@.has_ep(uid),
            msg@.wf(),
        ensures
            final(self)@.wf(),
            send_post(old(self)@.eps, final(self)@.eps,
                prepared(msg@.stamped(old(self)@.ep(uid).sid, old(self)@.ep(uid).eid)),
                old(self)@.sid),
            r == accept_count(old(self)@.eps,
                prepared(msg@.stamped(old(self)@.ep(uid).sid, old(self)@.ep(uid).eid)),
                old(self)@.sid),
            final(self)@.sid == old(self)@.sid,
            final(self)@.hueid == old(self)@.hueid,
            final(self)@.nextuid == old(self)@.nextuid,
            final(self)@.claims == old(self)@.claims,
    {
        proof {
            lemma_index_of_uid(self@.eps, uid);
        }
        let i = match self.find_endpoint(uid) {
            Option::Some(i) => i,
            Option::None => unreached(),
        };
        let sid = self.endpoints[i].getsid();
        let eid = self.endpoints[i].geteid();
        self.sendas(msg, sid, eid)
    }

    /// Wrap a value's bytes into a sync message addressed to every endpoint
    /// of the local net and send it from the endpoint with library id `uid`;
    /// at most one endpoint will ever receive it.
    pub fn sendsynctype(&mut self, uid: u64, tag: u64,
        payload: RawMessage) -> (r: usize)
        requires
            old(self)@.wf(),
            old(self)@.has_ep(uid),
            payload@.wf(),
            old(self)@.claims.len() < usize::MAX,
        ensures
            final(self)@.wf(),
            ({
                let m = MsgV {
                    srcsid: old(self)@.ep(uid).sid,
                    srceid: old(self)@.ep(uid).eid,
                    dstsid: 1, dsteid: 0, canloop: false,
                    pay: PayV::Sync(SyncV {
                        hash: tag,
                        claim: old(self)@.claims.len(),
                        raw: payload@,
                    }),
                };
                &&& send_post(old(self)@.eps, final(self)@.eps, m, old(self)@.sid)
                &&& r == accept_count(old(self)@.eps, m, old(self)@.sid)
            }),
            final(self)@.sid == old(self)@.sid,
            final(self)@.hueid == old(self)@.hueid,
            final(self)@.nextuid == old(self)@.nextuid,
            final(self)@.claims == old(self)@.claims.push(true),
    {
        let mut msg = self.new_sync_message(tag, payload);
        msg.dstsid = 1;
        msg.dsteid = 0;
        self.send_from(uid, msg)
    }

    /// Wrap a value's bytes into a clone message addressed to every endpoint
    /// of the local net and send it from the endpoint with library id `uid`;
    /// every other endpoint of the net receives its own copy.
    pub fn sendclonetype(&mut self, uid: u64, tag: u64,
        payload: RawMessage) -> (r: usize)
        requires
            old(self)@.wf(),
            old(self)@.has_ep(uid),
            payload@.wf(),
        ensures
            final(self)@.wf(),
            ({
                let m = MsgV {
                    srcsid: old(self)@.ep(uid).sid,
                    srceid: old(self)@.ep(uid).eid,
                    dstsid: 1, dsteid: 0, canloop: false,
                    pay: PayV::Clone(CloneV {
                        tyid: tag,
                        raw: payload@,
                    }),
                };
                &&& send_post(old(self)@.eps, final(self)@.eps, m, old(self)@.sid)
                &&& r == accept_count(old(self)@.eps, m, old(self)@.sid)
            }),
            final(self)@.sid == old(self)@.sid,
            final(self)@.hueid == old(self)@.hueid,
            final(self)@.nextuid == old(self)@.nextuid,
            final(self)@.claims == old(self)@.claims,
    {
        let mut msg = Message::new_clone(tag, payload);
        msg.dstsid = 1;
        msg.dsteid = 0;
        self.send_from(uid, msg)
    }

    /// Take one message from the endpoint with library id `uid`, without
    /// waiting: the error is `NoMessages` when nothing can be handed out.
    /// Sync messages whose claim another receiver already took are
    /// discarded along the way.
    pub fn recv(&mut self, uid: u64) -> (r: IoResult<Message>)
        requires
            old(self)@.wf(),
            old(self)@.has_ep(uid),
        ensures
            final(self)@.wf(),
            recv_transition(old(self)@, final(self)@, uid),
            final(self)@.index_of(uid) == old(self)@.index_of(uid),
            ({
                let step = recv_step(old(self)@, uid);
                match r {
                    IoResult::Okay(m) => step.out == Some(m@) && m@.wf(),
                    IoResult::Error(e) => step.out is None && e.code is NoMessages,
                }
            }),
    {
        proof {
            lemma_index_of_uid(self@.eps, uid);
        }
        let i = match self.find_endpoint(uid) {
            Option::Some(i) => i,
            Option::None => unreached(),
        };
        proof {
            assert(self@.eps[i as int].wf());
        }
        let ep = &mut self.endpoints[i];
        let r = ep.recv(&mut self.claims);
        proof {
            let i0 = old(self)@.index_of(uid);
            let step = recv_step(old(self)@, uid);
            assert(self@.eps =~= old(self)@.eps.update(i0, EndpointV {
                queue: step.queue,
                memoryused: step.mem,
                ..old(self)@.eps[i0]
            }));
            lemma_wf_update(old(self)@, i0, EndpointV {
                queue: step.queue,
                memoryused: step.mem,
                ..old(self)@.eps[i0]
            });
            lemma_index_of_update(old(self)@.eps, i0, EndpointV {
                queue: step.queue,
                memoryused: step.mem,
                ..old(self)@.eps[i0]
            }, uid);
        }
        r
    }

    /// Take one message from the endpoint with library id `uid`, waiting up
    /// to `duration` for one: when nothing can be handed out, the call
    /// returns `TimedOut` once the clock passes `now + duration`.
    pub fn recvorblock(&mut self, uid: u64, duration: Timespec) -> (r: IoResult<Message>)
        requires
            old(self)@.wf(),
            old(self)@.has_ep(uid),
            duration.normed(),
        ensures
            final(self)@.wf(),
            recv_transition(old(self)@, final(self)@, uid),
            ({
                let step = recv_step(old(self)@, uid);
                match r {
                    IoResult::Okay(m) => step.out == Some(m@) && m@.wf(),
                    IoResult::Error(e) => step.out is None && e.code is TimedOut,
                }
            }),
    {
        let first = self.recv(uid);
        if first.is_ok() {
            return first;
        }
        let ghost mid = self@;
        let now = get_time();
        let deadline = deadline_after(now, duration);
        // Poll the clock until it passes the deadline. The poll count is
        // bounded, as every loop here must come to an end, but at a bound
        // no clock outlives.
        let mut fuel: u64 = 0xffff_ffff_ffff_ffff;
        while fuel > 0
            invariant
                self@ == mid,
                deadline.normed(),
            decreases fuel,
        {
            let t = get_time();
            if t.after(&deadline) {
                break;
            }
            fuel = fuel - 1;
        }
        IoResult::Error(IoError { code: IoErrorCode::TimedOut })
    }

}

/// The outcome of one receive on the endpoint with library id `uid` of net
/// `pre`, in terms of [`spec_recv`].
pub open spec fn recv_step(pre: NetV, uid: u64) -> crate::endpoint::RecvStep {
    spec_recv(pre.ep(uid).queue, pre.claims, pre.ep(uid).memoryused)
}

/// How one receive on the endpoint with library id `uid` changes a net: the
/// endpoint's queue and memory accounting and the net's claim table move as
/// [`spec_recv`] says; everything else stands.
pub open spec fn recv_transition(pre: NetV, post: NetV, uid: u64) -> bool {
    &&& post == (NetV {
            eps: pre.eps.update(pre.index_of(uid), EndpointV {
                queue: recv_step(pre, uid).queue,
                memoryused: recv_step(pre, uid).mem,
                ..pre.ep(uid)
            }),
            claims: recv_step(pre, uid).claims,
            ..pre
        })
}

/// The state of a just-registered endpoint: the given address, group id
/// unused, empty queue, no limits, and two handles — the caller's and the
/// net's own.
pub open spec fn fresh_endpoint(sid: u64, eid: u64, uid: u64) -> EndpointV {
    EndpointV {
        uid,
        sid,
        eid,
        gid: UNUSED_ID,
        queue: Seq::<MsgV>::empty(),
        limitpending: 0,
        limitmemory: 0,
        memoryused: 0,
        refcnt: 2,
        dropped: false,
        slpcnt: 0,
        wakeupat: Timespec { sec: crate::endpoint::NEVER_SEC, nsec: 0 },
    }
}

/// Address routing. One send delivers to exactly the endpoints that the
/// acceptance predicate and the limits select at the moment of dispatch:
/// each selected endpoint's queue grows by the message — as a fan-out copy
/// with the loop-back flag cleared — and every other endpoint stands
/// untouched.
pub proof fn lemma_address_routing(pre: Seq<EndpointV>, post: Seq<EndpointV>, m: MsgV,
    netsid: u64)
    requires
        send_post(pre, post, m, netsid),
    ensures
        post.len() == pre.len(),
        forall|i: int| 0 <= i < pre.len() ==>
            (give_accepts(#[trigger] pre[i], m, netsid) <==>
                post[i].queue == pre[i].queue.push(m.with_canloop(false))),
        forall|i: int| 0 <= i < pre.len() ==>
            (!give_accepts(#[trigger] pre[i], m, netsid) <==> post[i] == pre[i]),
{
    assert forall|i: int| 0 <= i < pre.len() implies
        (give_accepts(#[trigger] pre[i], m, netsid) <==>
            post[i].queue == pre[i].queue.push(m.with_canloop(false)))
        && (!give_accepts(pre[i], m, netsid) <==> post[i] == pre[i])
    by {
        assert(give_post(pre[i], post[i], m, netsid, give_accepts(pre[i], m, netsid)));
        if !give_accepts(pre[i], m, netsid) {
            assert(post[i].queue.len() == pre[i].queue.len());
        } else {
            assert(post[i].queue.len() == pre[i].queue.len() + 1);
        }
    }
}

/// Raw buffer isolation. What a send queues for a raw message is a copy of
/// the sender's bytes taken at the moment of the send: every accepting
/// endpoint's queue ends in a raw message holding exactly those bytes. The
/// sender's own buffer reaches no queue, so whatever the sender writes to
/// it afterwards changes nothing any receiver observes.
pub proof fn lemma_raw_isolation(pre: Seq<EndpointV>, post: Seq<EndpointV>, m: MsgV,
    netsid: u64)
    requires
        send_post(pre, post, prepared(m), netsid),
        m.is_raw(),
    ensures
        forall|i: int| 0 <= i < pre.len() && give_accepts(#[trigger] pre[i], prepared(m), netsid)
            ==> post[i].queue.last().pay.rawv().bytes == m.pay.rawv().bytes
                && post[i].queue.last().is_raw(),
{
    assert forall|i: int| 0 <= i < pre.len()
        && give_accepts(#[trigger] pre[i], prepared(m), netsid)
        implies post[i].queue.last().pay.rawv().bytes == m.pay.rawv().bytes
            && post[i].queue.last().is_raw()
    by {
        assert(give_post(pre[i], post[i], prepared(m), netsid, true));
        assert(post[i].queue.last() == prepared(m).with_canloop(false));
    }
}

/// An endpoint leaves its net exactly once. The release that removes it is
/// the one that finds the handle count at two with the removal flag clear;
/// afterwards its id names no endpoint of the net, so no later release can
/// remove it again.
pub proof fn lemma_release_removes_once(pre: NetV, post: NetV, uid: u64)
    requires
        pre.wf(),
        pre.has_ep(uid),
        post == (NetV { eps: pre.eps.remove(pre.index_of(uid)), ..pre }),
    ensures
        !post.has_ep(uid),
{
    let i0 = pre.index_of(uid);
    lemma_index_of_uid(pre.eps, uid);
    assert forall|j: int| 0 <= j < post.eps.len() implies
        (#[trigger] post.eps[j]).uid != uid
    by {
        if j < i0 {
            assert(post.eps[j] == pre.eps[j]);
            assert(pre.eps[j].uid != pre.eps[i0].uid);
        } else {
            assert(post.eps[j] == pre.eps[j + 1]);
            assert(pre.eps[i0].uid != pre.eps[j + 1].uid);
        }
    }
    lemma_index_of_uid_none(post.eps, uid);
}

/// Replacing an endpoint by one wearing the same library id moves no
/// endpoint's position.
pub proof fn lemma_index_of_update(eps: Seq<EndpointV>, k: int, e: EndpointV, uid: u64)
    requires
        0 <= k < eps.len(),
        e.uid == eps[k].uid,
    ensures
        index_of_uid(eps.update(k, e), uid) == index_of_uid(eps, uid),
    decreases eps.len(),
{
    let post = eps.update(k, e);
    if k == 0 {
        assert(post.drop_first() =~= eps.drop_first());
    } else {
        assert(post[0] == eps[0]);
        if post[0].uid != uid {
            assert(post.drop_first() =~= eps.drop_first().update(k - 1, e));
            lemma_index_of_update(eps.drop_first(), k - 1, e, uid);
        }
    }
}

/// The longest wait of the tick thread, in microseconds.
pub const NET_MAXLATENCY: i64 = 100000;

/// The shortest wait of the tick thread, in microseconds.
pub const NET_MINLATENCY: i64 = 100;

/// The tick thread's next wait: halved when the last scan woke someone,
/// doubled when it found nothing to do, and held between its bounds.
pub fn next_latency(latency: i64, wokesomeone: bool) -> (r: i64)
    requires
        NET_MINLATENCY <= latency <= NET_MAXLATENCY,
    ensures
        r == if wokesomeone {
            if latency / 2 < NET_MINLATENCY { NET_MINLATENCY as int } else { latency / 2 }
        } else {
            if latency * 2 > NET_MAXLATENCY { NET_MAXLATENCY as int } else { latency * 2 }
        },
        NET_MINLATENCY <= r <= NET_MAXLATENCY,
{
    if wokesomeone {
        let half = latency / 2;
        if half < NET_MINLATENCY {
            NET_MINLATENCY
        } else {
            half
        }
    } else {
        let twice = latency * 2;
        if twice > NET_MAXLATENCY {
            NET_MAXLATENCY
        } else {
            twice
        }
    }
}

/// Two endpoint lists whose entries wear the same ids position every id
/// alike; a send changes no id, so no endpoint moves.
pub proof fn lemma_index_of_same_uids(pre: Seq<EndpointV>, post: Seq<EndpointV>, uid: u64)
    requires
        post.len() == pre.len(),
        forall|i: int| 0 <= i < pre.len() ==>
            (#[trigger] post[i]).uid == pre[i].uid,
    ensures
        index_of_uid(post, uid) == index_of_uid(pre, uid),
    decreases pre.len(),
{
    if pre.len() > 0 {
        assert forall|i: int| 0 <= i < pre.drop_first().len() implies
            (#[trigger] post.drop_first()[i]).uid == pre.drop_first()[i].uid
        by {
            assert(post.drop_first()[i] == post[i + 1]);
            assert(pre.drop_first()[i] == pre[i + 1]);
        }
        lemma_index_of_same_uids(pre.drop_first(), post.drop_first(), uid);
    }
}

/// A send moves no endpoint: each keeps its id, so each keeps its position.
pub proof fn lemma_send_preserves_index(pre: Seq<EndpointV>, post: Seq<EndpointV>, m: MsgV,
    netsid: u64, uid: u64)
    requires
        send_post(pre, post, m, netsid),
    ensures
        index_of_uid(post, uid) == index_of_uid(pre, uid),
{
    assert forall|i: int| 0 <= i < pre.len() implies
        (#[trigger] post[i]).uid == pre[i].uid
    by {
        assert(give_post(pre[i], post[i], m, netsid, give_accepts(pre[i], m, netsid)));
    }
    lemma_index_of_same_uids(pre, post, uid);
}

} // verus!
