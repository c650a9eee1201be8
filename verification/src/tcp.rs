//! The TCP bridge: the wire protocol that carries raw messages between two
//! nets, and the state the listening and connecting sides keep.
//!
//! Per connection each side first writes its own net id as eight big-endian
//! bytes; each side then wears the peer's id on its bridge endpoint, so that
//! messages addressed off-net reach it. After the handshake the socket
//! carries frames; only raw messages are framed, sync and clone messages
//! never cross. The socket work itself is left to the caller: the functions
//! here turn a queued message into the bytes to write ([`tx_step`]) and
//! received frame bytes back into a message to inject ([`rx_step`]).

use vstd::prelude::*;

use crate::message::Message;
use crate::message::MsgV;
use crate::message::PayV;
use crate::rawmessage::RawMessage;
use crate::rawmessage::RawV;
use vstd::slice::slice_index_get;
use vstd::slice::slice_subrange;

verus! {

/// The type tag of the control message that tells a bridge's transmit task
/// to close its connection.
pub const TERMINATE_TAG: u64 = 0x7465726d_696e6174;

/// The control message a bridge is terminated with: sent as a clone message
/// carrying [`TERMINATE_TAG`] to the bridge's endpoint.
pub struct TerminateMessage;

/// Which side of a bridge a connection task serves.
pub enum Which<T, V> {
    Listener(T),
    Connector(V),
}

/// Take the value out of a result that must be a success.
pub fn getok<T, E>(result: Result<T, E>) -> (r: T)
    requires
        result is Ok,
    ensures
        result == Ok::<T, E>(r),
{
    match result {
        Result::Ok(v) => v,
        Result::Err(_) => unreached(),
    }
}

/// The eight bytes of a 64-bit value, most significant first.
pub open spec fn u64_be_bytes(v: u64) -> Seq<u8> {
    seq![
        (v / 0x100_0000_0000_0000 % 0x100) as u8,
        (v / 0x1_0000_0000_0000 % 0x100) as u8,
        (v / 0x100_0000_0000 % 0x100) as u8,
        (v / 0x1_0000_0000 % 0x100) as u8,
        (v / 0x100_0000 % 0x100) as u8,
        (v / 0x1_0000 % 0x100) as u8,
        (v / 0x100 % 0x100) as u8,
        (v % 0x100) as u8,
    ]
}

/// The 64-bit value eight bytes hold, most significant first.
pub open spec fn u64_of_be(b: Seq<u8>) -> u64 {
    (b[0] * 0x100_0000_0000_0000 + b[1] * 0x1_0000_0000_0000 + b[2] * 0x100_0000_0000
        + b[3] * 0x1_0000_0000 + b[4] * 0x100_0000 + b[5] * 0x1_0000 + b[6] * 0x100
        + b[7]) as u64
}

/// Reading the eight bytes of a value back gives the value.
pub proof fn lemma_u64_be_roundtrip(v: u64)
    ensures
        u64_of_be(u64_be_bytes(v)) == v,
{
    let x = v as int;
    assert(x == (x / 0x100) * 0x100 + x % 0x100) by (nonlinear_arith);
    assert(x / 0x100 == (x / 0x100 / 0x100) * 0x100 + x / 0x100 % 0x100) by (nonlinear_arith);
    assert(x / 0x100 / 0x100 == x / 0x1_0000) by (nonlinear_arith);
    assert(x / 0x1_0000 == (x / 0x1_0000 / 0x100) * 0x100 + x / 0x1_0000 % 0x100)
        by (nonlinear_arith);
    assert(x / 0x1_0000 / 0x100 == x / 0x100_0000) by (nonlinear_arith);
    assert(x / 0x100_0000 == (x / 0x100_0000 / 0x100) * 0x100 + x / 0x100_0000 % 0x100)
        by (nonlinear_arith);
    assert(x / 0x100_0000 / 0x100 == x / 0x1_0000_0000) by (nonlinear_arith);
    assert(x / 0x1_0000_0000 == (x / 0x1_0000_0000 / 0x100) * 0x100 + x / 0x1_0000_0000 % 0x100)
        by (nonlinear_arith);
    assert(x / 0x1_0000_0000 / 0x100 == x / 0x100_0000_0000) by (nonlinear_arith);
    assert(x / 0x100_0000_0000 == (x / 0x100_0000_0000 / 0x100) * 0x100
        + x / 0x100_0000_0000 % 0x100) by (nonlinear_arith);
    assert(x / 0x100_0000_0000 / 0x100 == x / 0x1_0000_0000_0000) by (nonlinear_arith);
    assert(x / 0x1_0000_0000_0000 == (x / 0x1_0000_0000_0000 / 0x100) * 0x100
        + x / 0x1_0000_0000_0000 % 0x100) by (nonlinear_arith);
    assert(x / 0x1_0000_0000_0000 / 0x100 == x / 0x100_0000_0000_0000) by (nonlinear_arith);
    assert(0 <= x / 0x100_0000_0000_0000 <= 0xff) by (nonlinear_arith)
        requires 0 <= x <= 0xffff_ffff_ffff_ffff;
}

/// Append the eight big-endian bytes of `v`.
pub fn push_u64_be(out: &mut Vec<u8>, v: u64)
    requires
        old(out)@.len() + 8 <= usize::MAX,
    ensures
        final(out)@ == old(out)@ + u64_be_bytes(v),
{
    proof {
        let x = v as int;
        assert(0 <= x / 0x100_0000_0000_0000 <= 0xff) by (nonlinear_arith)
            requires 0 <= x <= 0xffff_ffff_ffff_ffff;
    }
    out.push((v / 0x100_0000_0000_0000 % 0x100) as u8);
    out.push((v / 0x1_0000_0000_0000 % 0x100) as u8);
    out.push((v / 0x100_0000_0000 % 0x100) as u8);
    out.push((v / 0x1_0000_0000 % 0x100) as u8);
    out.push((v / 0x100_0000 % 0x100) as u8);
    out.push((v / 0x1_0000 % 0x100) as u8);
    out.push((v / 0x100 % 0x100) as u8);
    out.push((v % 0x100) as u8);
    proof {
        assert(final(out)@ =~= old(out)@ + u64_be_bytes(v));
    }
}

/// Read the eight big-endian bytes at `off` as a 64-bit value.
pub fn read_u64_be(s: &[u8], off: usize) -> (r: u64)
    requires
        off + 8 <= s@.len(),
    ensures
        r == u64_of_be(s@.subrange(off as int, off + 8)),
{
    let n = s.len();
    proof {
        assert(off + 8 <= n);
    }
    let b0 = *slice_index_get(s, off);
    let b1 = *slice_index_get(s, off + 1);
    let b2 = *slice_index_get(s, off + 2);
    let b3 = *slice_index_get(s, off + 3);
    let b4 = *slice_index_get(s, off + 4);
    let b5 = *slice_index_get(s, off + 5);
    let b6 = *slice_index_get(s, off + 6);
    let b7 = *slice_index_get(s, off + 7);
    let r: u64 = b0 as u64 * 0x100_0000_0000_0000 + b1 as u64 * 0x1_0000_0000_0000
        + b2 as u64 * 0x100_0000_0000 + b3 as u64 * 0x1_0000_0000 + b4 as u64 * 0x100_0000
        + b5 as u64 * 0x1_0000 + b6 as u64 * 0x100 + b7 as u64;
    proof {
        let sub = s@.subrange(off as int, off + 8);
        assert(sub[0] == b0 && sub[1] == b1 && sub[2] == b2 && sub[3] == b3
            && sub[4] == b4 && sub[5] == b5 && sub[6] == b6 && sub[7] == b7);
    }
    r
}

/// The eight bytes each side writes before any frame: its own net id.
pub fn encode_handshake(sid: u64) -> (r: Vec<u8>)
    ensures
        r@ == u64_be_bytes(sid),
{
    let mut out: Vec<u8> = Vec::new();
    push_u64_be(&mut out, sid);
    proof {
        assert(out@ =~= u64_be_bytes(sid));
    }
    out
}

/// The net id the peer's handshake bytes carry.
pub fn decode_handshake(s: &[u8]) -> (r: u64)
    requires
        s@.len() == 8,
    ensures
        r == u64_of_be(s@),
{
    let r = read_u64_be(s, 0);
    proof {
        assert(s@.subrange(0, 8) =~= s@);
    }
    r
}

/// What one frame carries: the address header and the raw body bytes.
pub ghost struct FrameV {
    pub srcsid: u64,
    pub srceid: u64,
    pub dstsid: u64,
    pub dsteid: u64,
    pub body: Seq<u8>,
}

/// The bytes of one frame: the count of bytes that follow it (33 for kind
/// and header plus the body), the payload kind — 1, raw, is the only kind
/// written — the four header fields, all big-endian, and the body.
pub open spec fn frame_bytes(f: FrameV) -> Seq<u8> {
    u64_be_bytes((33 + f.body.len()) as u64) + seq![1u8] + u64_be_bytes(f.srcsid)
        + u64_be_bytes(f.srceid) + u64_be_bytes(f.dstsid) + u64_be_bytes(f.dsteid) + f.body
}

/// What a receiver makes of the bytes of one complete frame: the frame,
/// when the size field matches what follows it and the kind is raw; nothing
/// otherwise — a frame of any other kind is silently dropped.
pub open spec fn spec_decode_frame(bytes: Seq<u8>) -> Option<FrameV> {
    if bytes.len() < 41 {
        None
    } else if u64_of_be(bytes.subrange(0, 8)) != bytes.len() - 8 {
        None
    } else if bytes[8] != 1 {
        None
    } else {
        Some(FrameV {
            srcsid: u64_of_be(bytes.subrange(9, 17)),
            srceid: u64_of_be(bytes.subrange(17, 25)),
            dstsid: u64_of_be(bytes.subrange(25, 33)),
            dsteid: u64_of_be(bytes.subrange(33, 41)),
            body: bytes.skip(41),
        })
    }
}

/// Bridge round trip: the bytes of a frame decode back to the frame — the
/// body bytes and all four header fields come out exactly as they went in.
#[verifier::rlimit(100)]
pub proof fn lemma_frame_roundtrip(f: FrameV)
    requires
        f.body.len() + 41 <= usize::MAX,
    ensures
        spec_decode_frame(frame_bytes(f)) == Some(f),
{
    let bytes = frame_bytes(f);
    assert(bytes.len() == 41 + f.body.len());
    lemma_u64_be_roundtrip((33 + f.body.len()) as u64);
    lemma_u64_be_roundtrip(f.srcsid);
    lemma_u64_be_roundtrip(f.srceid);
    lemma_u64_be_roundtrip(f.dstsid);
    lemma_u64_be_roundtrip(f.dsteid);
    assert(bytes.subrange(0, 8) =~= u64_be_bytes((33 + f.body.len()) as u64));
    assert(bytes[8] == 1);
    assert(bytes.subrange(9, 17) =~= u64_be_bytes(f.srcsid));
    assert(bytes.subrange(17, 25) =~= u64_be_bytes(f.srceid));
    assert(bytes.subrange(25, 33) =~= u64_be_bytes(f.dstsid));
    assert(bytes.subrange(33, 41) =~= u64_be_bytes(f.dsteid));
    assert(bytes.skip(41) =~= f.body);
}


/// Bridge round trip at the message level. The frame a raw message is
/// written to decodes back to exactly the four header fields the message
/// carried and a body byte-identical to the first `len` bytes of its
/// buffer — what [`tx_step`] writes, [`rx_step`] rebuilds unchanged.
pub proof fn lemma_bridge_roundtrip(m: MsgV)
    requires
        m.wf(),
        m.is_raw(),
        m.pay.rawv().len + 41 <= usize::MAX,
    ensures
        ({
            let f = FrameV {
                srcsid: m.srcsid,
                srceid: m.srceid,
                dstsid: m.dstsid,
                dsteid: m.dsteid,
                body: m.pay.rawv().bytes.subrange(0, m.pay.rawv().len as int),
            };
            spec_decode_frame(frame_bytes(f)) == Some(f)
        }),
{
    let f = FrameV {
        srcsid: m.srcsid,
        srceid: m.srceid,
        dstsid: m.dstsid,
        dsteid: m.dsteid,
        body: m.pay.rawv().bytes.subrange(0, m.pay.rawv().len as int),
    };
    lemma_frame_roundtrip(f);
}

/// What the transmit task does with one message taken from the bridge
/// endpoint's queue.
pub enum TxAction {
    /// The terminate control message: close both halves of the socket and
    /// stop; no further frame leaves on this connection.
    Close,
    /// A sync or clone message: drop it, those kinds never cross a bridge.
    Ignore,
    /// A raw message: write these bytes to the peer.
    Frame(Vec<u8>),
}

/// Decide what the transmit task does with one received message: close on
/// the terminate control message, drop any other sync or clone message,
/// and frame a raw message's first `len` bytes with its address header.
pub fn tx_step(msg: &Message) -> (r: TxAction)
    requires
        msg@.wf(),
        msg@.pay.rawv().len + 41 <= usize::MAX,
    ensures
        ({
            let m = msg@;
            if (m.is_sync() && m.pay->Sync_0.hash == TERMINATE_TAG)
                || (m.is_clone() && m.pay->Clone_0.tyid == TERMINATE_TAG) {
                r is Close
            } else if !m.is_raw() {
                r is Ignore
            } else {
                r matches TxAction::Frame(bytes) && bytes@ == frame_bytes(FrameV {
                    srcsid: m.srcsid,
                    srceid: m.srceid,
                    dstsid: m.dstsid,
                    dsteid: m.dsteid,
                    body: m.pay.rawv().bytes.subrange(0, m.pay.rawv().len as int),
                })
            }
        }),
{
    if msg.is_type(TERMINATE_TAG) {
        return TxAction::Close;
    }
    if !msg.is_raw() {
        return TxAction::Ignore;
    }
    let rmsg = msg.get_rawref();
    let body = rmsg.as_slice();
    let blen = body.len();
    let mut out: Vec<u8> = Vec::new();
    push_u64_be(&mut out, 33 + blen as u64);
    out.push(1u8);
    push_u64_be(&mut out, msg.srcsid);
    push_u64_be(&mut out, msg.srceid);
    push_u64_be(&mut out, msg.dstsid);
    push_u64_be(&mut out, msg.dsteid);
    let mut i: usize = 0;
    let ghost head = out@;
    while i < blen
        invariant
            i <= blen,
            blen == body@.len(),
            head.len() + blen <= usize::MAX,
            out@ == head + body@.subrange(0, i as int),
        decreases blen - i,
    {
        let b: u8 = *slice_index_get(body, i);
        out.push(b);
        proof {
            assert(out@ =~= head + body@.subrange(0, i + 1));
        }
        i = i + 1;
    }
    proof {
        assert(body@ =~= body@.subrange(0, blen as int));
        assert(out@ =~= frame_bytes(FrameV {
            srcsid: msg@.srcsid,
            srceid: msg@.srceid,
            dstsid: msg@.dstsid,
            dsteid: msg@.dsteid,
            body: msg@.pay.rawv().bytes.subrange(0, msg@.pay.rawv().len as int),
        }));
    }
    TxAction::Frame(out)
}

/// Turn the bytes of one complete received frame into the message to hand
/// to the local net, carrying the header fields the frame brought and the
/// body as a raw payload; bytes that are no raw frame yield nothing.
pub fn rx_step(frame: &[u8]) -> (r: Option<Message>)
    ensures
        ({
            match spec_decode_frame(frame@) {
                Some(f) => r matches Some(msg) && msg@ == (MsgV {
                    srcsid: f.srcsid,
                    srceid: f.srceid,
                    dstsid: f.dstsid,
                    dsteid: f.dsteid,
                    canloop: false,
                    pay: PayV::Raw(RawV {
                        bytes: if f.body.len() == 0 { seq![0u8] } else { f.body },
                        len: f.body.len(),
                    }),
                }) && msg@.wf(),
                None => r is None,
            }
        }),
{
    let n = frame.len();
    if n < 41 {
        return None;
    }
    let total = read_u64_be(frame, 0);
    if total != (n - 8) as u64 {
        return None;
    }
    if *slice_index_get(frame, 8) != 1 {
        return None;
    }
    let srcsid = read_u64_be(frame, 9);
    let srceid = read_u64_be(frame, 17);
    let dstsid = read_u64_be(frame, 25);
    let dsteid = read_u64_be(frame, 33);
    let body = slice_subrange(frame, 41, n);
    let rmsg = RawMessage::new_fromslice(body);
    proof {
        assert(frame@.subrange(41, n as int) =~= frame@.skip(41));
    }
    let mut msg = Message::new_fromraw(rmsg);
    msg.srcsid = srcsid;
    msg.srceid = srceid;
    msg.dstsid = dstsid;
    msg.dsteid = dsteid;
    Some(msg)
}

/// The mathematical state of a bridge listener.
pub ghost struct ListenerV {
    pub addr: Seq<char>,
    pub terminate: bool,
    pub clientcount: u64,
    pub negcount: u64,
}

/// The state the listening side of a bridge keeps: the address it stands
/// on, whether it was told to stop, and how many connections it has taken
/// and completed the handshake on. The sockets and the tasks that serve
/// them live with the caller; this state makes their decisions.
pub struct TcpBridgeListener {
    addr: String,
    terminate: bool,
    clientcount: u64,
    negcount: u64,
}

impl View for TcpBridgeListener {
    type V = ListenerV;

    closed spec fn view(&self) -> ListenerV {
        ListenerV {
            addr: self.addr@,
            terminate: self.terminate,
            clientcount: self.clientcount,
            negcount: self.negcount,
        }
    }
}

impl ListenerV {
    /// Whether the accept loop may take another connection.
    pub open spec fn accepting(self) -> bool {
        !self.terminate
    }

    /// What the counting and bookkeeping operations may do to a listener
    /// state: counters only grow, the address stands, and the terminate
    /// flag is never cleared.
    pub open spec fn step(pre: ListenerV, post: ListenerV) -> bool {
        &&& post.addr == pre.addr
        &&& post.clientcount >= pre.clientcount
        &&& post.negcount >= pre.negcount
        &&& (pre.terminate ==> post.terminate)
    }
}

impl TcpBridgeListener {
    /// A fresh listener state for the given address.
    pub fn new(addr: String) -> (r: TcpBridgeListener)
        ensures
            r@ == (ListenerV {
                addr: addr@,
                terminate: false,
                clientcount: 0,
                negcount: 0,
            }),
    {
        TcpBridgeListener { addr, terminate: false, clientcount: 0, negcount: 0 }
    }

    /// Stop the listener: no further connection is accepted, now or ever.
    pub fn terminate(&mut self)
        ensures
            final(self)@ == (ListenerV { terminate: true, ..old(self)@ }),
            !final(self)@.accepting(),
            ListenerV::step(old(self)@, final(self)@),
    {
        self.terminate = true;
    }

    /// Whether the listener was told to stop.
    pub fn getterminate(&self) -> (r: bool)
        ensures
            r == self@.terminate,
    {
        self.terminate
    }

    /// The address the listener stands on.
    pub fn getaddr(&self) -> (r: String)
        ensures
            r@ == self@.addr,
    {
        self.addr.clone()
    }

    /// Count one accepted connection.
    pub fn clientcountinc(&mut self)
        requires
            old(self)@.clientcount < u64::MAX,
        ensures
            final(self)@ == (ListenerV {
                clientcount: (old(self)@.clientcount + 1) as u64,
                ..old(self)@
            }),
            ListenerV::step(old(self)@, final(self)@),
    {
        self.clientcount = self.clientcount + 1;
    }

    /// How many connections have been accepted.
    pub fn getclientcount(&self) -> (r: u64)
        ensures
            r == self@.clientcount,
    {
        self.clientcount
    }

    /// Count one completed handshake.
    pub fn negcountinc(&mut self)
        requires
            old(self)@.negcount < u64::MAX,
        ensures
            final(self)@ == (ListenerV {
                negcount: (old(self)@.negcount + 1) as u64,
                ..old(self)@
            }),
            ListenerV::step(old(self)@, final(self)@),
    {
        self.negcount = self.negcount + 1;
    }

    /// How many handshakes have completed.
    pub fn getnegcount(&self) -> (r: u64)
        ensures
            r == self@.negcount,
    {
        self.negcount
    }
}

/// The mathematical state of a bridge connector.
pub ghost struct ConnectorV {
    pub addr: Seq<char>,
    pub terminate: bool,
    pub connected: bool,
    pub ep: Option<u64>,
    pub gid: u64,
}

/// The state the connecting side of a bridge keeps: the address it dials,
/// whether it was told to stop, whether a handshake has completed, and the
/// library id of its bridge endpoint once one exists. The socket and the
/// dial loop live with the caller; this state makes their decisions.
pub struct TcpBridgeConnector {
    addr: String,
    terminate: bool,
    connected: bool,
    ep: Option<u64>,
    gid: u64,
}

impl View for TcpBridgeConnector {
    type V = ConnectorV;

    closed spec fn view(&self) -> ConnectorV {
        ConnectorV {
            addr: self.addr@,
            terminate: self.terminate,
            connected: self.connected,
            ep: self.ep,
            gid: self.gid,
        }
    }
}

impl ConnectorV {
    /// Whether the dial loop may try another connection.
    pub open spec fn dialing(self) -> bool {
        !self.terminate
    }
}

impl TcpBridgeConnector {
    /// A fresh connector state for the given address.
    pub fn new(addr: String) -> (r: TcpBridgeConnector)
        ensures
            r@ == (ConnectorV {
                addr: addr@,
                terminate: false,
                connected: false,
                ep: None,
                gid: crate::net::UNUSED_ID,
            }),
    {
        TcpBridgeConnector {
            addr,
            terminate: false,
            connected: false,
            ep: None,
            gid: crate::net::UNUSED_ID,
        }
    }

    /// Stop the connector: the dial loop tries no further connection. The
    /// result names the bridge endpoint the terminate control message must
    /// go to so the transmit task closes the live connection, if one exists.
    pub fn terminate(&mut self) -> (r: Option<u64>)
        ensures
            final(self)@ == (ConnectorV { terminate: true, ..old(self)@ }),
            !final(self)@.dialing(),
            r == old(self)@.ep,
    {
        self.terminate = true;
        self.ep
    }

    /// Whether the connector was told to stop.
    pub fn getterminate(&self) -> (r: bool)
        ensures
            r == self@.terminate,
    {
        self.terminate
    }

    /// The address the connector dials.
    pub fn getaddr(&self) -> (r: String)
        ensures
            r@ == self@.addr,
    {
        self.addr.clone()
    }

    /// Whether a handshake has completed on a live connection.
    pub fn connected(&self) -> (r: bool)
        ensures
            r == self@.connected,
    {
        self.connected
    }

    /// Record whether a handshake is complete; the receive task sets this
    /// when it has read the peer's net id, and the dial loop clears it when
    /// the connection falls.
    pub fn setconnected(&mut self, connected: bool)
        ensures
            final(self)@ == (ConnectorV { connected, ..old(self)@ }),
            final(self)@.terminate == old(self)@.terminate,
    {
        self.connected = connected;
    }

    /// Record the library id of the bridge endpoint serving the live
    /// connection.
    pub fn setep(&mut self, uid: u64)
        ensures
            final(self)@ == (ConnectorV { ep: Some(uid), ..old(self)@ }),
            final(self)@.terminate == old(self)@.terminate,
    {
        self.ep = Some(uid);
    }

    /// The library id of the bridge endpoint, once one exists.
    pub fn getep(&self) -> (r: Option<u64>)
        ensures
            r == self@.ep,
    {
        self.ep
    }
}

/// Termination is final. Once a listener's terminate flag stands, no run of
/// counting or bookkeeping steps brings its accept loop back: the flag is
/// never cleared, so no new connection is ever accepted. The frames side is
/// [`tx_step`]: handed the terminate control message, it closes the
/// connection instead of framing, and a closed connection emits nothing.
pub proof fn lemma_terminate_is_final(pre: ListenerV, post: ListenerV)
    requires
        !pre.accepting(),
        ListenerV::step(pre, post),
    ensures
        !post.accepting(),
{
}

} // verus!
