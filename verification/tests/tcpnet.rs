use water::tcp;
use water::tcp::TxAction;
use water::Endpoint;
use water::Message;
use water::Net;
use water::RawMessage;
use water::TcpBridgeConnector;
use water::TcpBridgeListener;
use water::Timespec;

fn attach_bridge_endpoint(net: &mut Net) -> u64 {
    // a bridge endpoint wears no net id until the handshake, and a fresh
    // group id so control messages can single it out
    let eid = net.get_neweid();
    let gid = net.get_neweid();
    let mut ep = Endpoint::new(water::UNUSED_ID, eid, 0);
    ep.setgid(gid);
    net.add_endpoint(ep)
}

fn set_bridge_sid(net: &mut Net, uid: u64, sid: u64) {
    let i = net.find_endpoint(uid).unwrap();
    net.endpoint_at_mut(i).setsid(sid);
}

#[test]
fn u64_codec_roundtrip() {
    for v in [0u64, 1, 255, 256, 0x12345678, u64::MAX, 0x0102030405060708] {
        let mut out: Vec<u8> = Vec::new();
        tcp::push_u64_be(&mut out, v);
        assert_eq!(out.len(), 8);
        assert_eq!(tcp::read_u64_be(out.as_slice(), 0), v);
    }
    // big-endian: most significant byte first
    let mut out: Vec<u8> = Vec::new();
    tcp::push_u64_be(&mut out, 0x0102030405060708);
    assert_eq!(out, vec![1, 2, 3, 4, 5, 6, 7, 8]);
}

#[test]
fn handshake_roundtrip() {
    let hs = tcp::encode_handshake(875);
    assert_eq!(hs.len(), 8);
    assert_eq!(tcp::decode_handshake(hs.as_slice()), 875);
}

// The frame a raw message is serialized to decodes back to the same header
// fields and byte-identical body.
#[test]
fn frame_roundtrip() {
    let mut msg = Message::new_raw(4);
    msg.srcsid = 234;
    msg.srceid = 0x10000;
    msg.dstsid = 875;
    msg.dsteid = 42;
    msg.get_rawmutref().write_from_slice(0, &[0xde, 0xad, 0xbe, 0xef]);

    let bytes = match tcp::tx_step(&msg) {
        TxAction::Frame(b) => b,
        _ => panic!("a raw message must be framed"),
    };
    // size field, kind, four ids, body
    assert_eq!(bytes.len(), 8 + 1 + 32 + 4);
    assert_eq!(tcp::read_u64_be(bytes.as_slice(), 0), 33 + 4);
    assert_eq!(bytes[8], 1);

    let back = tcp::rx_step(bytes.as_slice()).unwrap();
    assert_eq!(back.srcsid, 234);
    assert_eq!(back.srceid, 0x10000);
    assert_eq!(back.dstsid, 875);
    assert_eq!(back.dsteid, 42);
    let raw = back.get_raw();
    assert_eq!(raw.len(), 4);
    assert_eq!(raw.readu8(0), 0xde);
    assert_eq!(raw.readu8(1), 0xad);
    assert_eq!(raw.readu8(2), 0xbe);
    assert_eq!(raw.readu8(3), 0xef);
}

#[test]
fn rx_step_rejects_other_kinds() {
    let mut msg = Message::new_raw(2);
    msg.get_rawmutref().write_from_slice(0, &[7, 8]);
    let mut bytes = match tcp::tx_step(&msg) {
        TxAction::Frame(b) => b,
        _ => panic!("a raw message must be framed"),
    };
    bytes[8] = 2; // a reserved payload kind
    assert!(tcp::rx_step(bytes.as_slice()).is_none());
    assert!(tcp::rx_step(&bytes.as_slice()[0..20]).is_none());
}

// Net(234) listens, net(875) connects; once connected with the handshake
// done, raw bytes cross and come out byte-identical; then both sides
// terminate cleanly.
#[test]
fn tcpio() {
    let mut net1 = Net::new(234);
    let ep1 = net1.new_endpoint();
    let mut net2 = Net::new(875);
    let ep2 = net2.new_endpoint();

    let mut listener = TcpBridgeListener::new(String::from("localhost:34200"));
    let mut connector = TcpBridgeConnector::new(String::from("localhost:34200"));

    // one connection: a bridge endpoint on each net, then the handshake —
    // each side writes its own net id, each side wears the peer's
    let b1 = attach_bridge_endpoint(&mut net1);
    let b2 = attach_bridge_endpoint(&mut net2);
    listener.clientcountinc();
    let hs1 = tcp::encode_handshake(net1.getserveraddr());
    let hs2 = tcp::encode_handshake(net2.getserveraddr());
    set_bridge_sid(&mut net1, b1, tcp::decode_handshake(hs2.as_slice()));
    set_bridge_sid(&mut net2, b2, tcp::decode_handshake(hs1.as_slice()));
    listener.negcountinc();
    connector.setconnected(true);
    connector.setep(b2);

    assert!(connector.connected());
    assert!(listener.getclientcount() >= 1);
    assert!(listener.getnegcount() >= 1);

    // send a raw message addressed to the remote net
    let mut msg = Message::new_raw(4);
    msg.dstsid = 875;
    msg.dsteid = 0;
    msg.get_rawmutref().write_from_slice(0, &[0x12, 0x34, 0x56, 0x78]);
    // only net1's bridge endpoint, wearing the peer's id, accepts it
    assert_eq!(net1.send_from(ep1, msg), 1);

    // the transmit task frames what the bridge endpoint queued
    let queued = net1.recv(b1).ok();
    let frame = match tcp::tx_step(&queued) {
        TxAction::Frame(b) => b,
        _ => panic!("a raw message must be framed"),
    };

    // the receive task on the other side injects it into net2
    let injected = tcp::rx_step(frame.as_slice()).unwrap();
    assert_eq!(net2.send(injected), 1);

    let got = net2.recvorblock(ep2, Timespec { sec: 900, nsec: 0 }).ok();
    let raw = got.get_raw();
    assert_eq!(raw.readu8(0), 0x12);
    assert_eq!(raw.readu8(1), 0x34);
    assert_eq!(raw.readu8(2), 0x56);
    assert_eq!(raw.readu8(3), 0x78);

    // terminate both sides
    listener.terminate();
    assert!(listener.getterminate());
    let target = connector.terminate();
    assert_eq!(target, Some(b2));
    let tmsg = Message::new_clone(tcp::TERMINATE_TAG, RawMessage::new(0));
    let sid2 = net2.getserveraddr();
    let i2 = net2.find_endpoint(b2).unwrap();
    assert!(net2.endpoint_at_mut(i2).give(&tmsg, sid2));
    let ctl = net2.recv(b2).ok();
    assert!(matches!(tcp::tx_step(&ctl), TxAction::Close));
}

// A sync message is never forwarded across a bridge: the local bridge
// endpoint takes it and silently declines to frame it.
#[test]
fn sync_is_not_bridged() {
    let mut net1 = Net::new(234);
    let ep1 = net1.new_endpoint();
    let b1 = attach_bridge_endpoint(&mut net1);
    set_bridge_sid(&mut net1, b1, 875);

    let mut payload = RawMessage::new(8);
    payload.writeu32(0, 1);
    let mut msg = net1.new_sync_message(0x51ec, payload);
    msg.dstsid = 875;
    msg.dsteid = 0;
    assert_eq!(net1.send_from(ep1, msg), 1);

    let queued = net1.recv(b1).ok();
    assert!(queued.is_sync());
    assert!(matches!(tcp::tx_step(&queued), TxAction::Ignore));
}

#[test]
fn connector_state() {
    let mut c = TcpBridgeConnector::new(String::from("somewhere:1"));
    assert_eq!(c.getaddr(), String::from("somewhere:1"));
    assert!(!c.connected());
    assert!(!c.getterminate());
    assert_eq!(c.getep(), None);
    // termination before any connection names no endpoint
    assert_eq!(c.terminate(), None);
    assert!(c.getterminate());
}
