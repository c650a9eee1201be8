use water::IoErrorCode;
use water::Message;
use water::Net;
use water::RawMessage;

#[test]
fn rawmessage() {
    let m = RawMessage::new_fromstr("ABCDE");
    assert!(m.readu8(0) == 65);
    assert!(m.readu8(1) == 66);
    assert!(m.readu8(2) == 67);
    assert!(m.readu8(3) == 68);
    assert!(m.readu8(4) == 69);
    assert!(m.len() == 5);
}

#[test]
fn rawmsgstress() {
    let mut v: Vec<RawMessage> = Vec::new();

    for _ in 0..10000 {
        let rm = RawMessage::new(32);
        v.push(rm.dup());
        v.push(rm);
    }
}

#[test]
fn rawmessage_readwrite() {
    let mut m = RawMessage::new(16);
    assert_eq!(m.cap(), 16);
    assert_eq!(m.len(), 16);
    m.writeu8(0, 0xab);
    assert_eq!(m.readu8(0), 0xab);
    m.writeu16(1, 0xbeef);
    assert_eq!(m.readu16(1), 0xbeef);
    m.writeu32(4, 0x12345678);
    assert_eq!(m.readu32(4), 0x12345678);
    // least-significant byte first
    assert_eq!(m.readu8(4), 0x78);
    assert_eq!(m.readu8(7), 0x12);
    m.writei8(8, -5);
    assert_eq!(m.readi8(8), -5);
    m.writei16(9, -2000);
    assert_eq!(m.readi16(9), -2000);
    m.writei32(12, -123456);
    assert_eq!(m.readi32(12), -123456);
}

#[test]
fn rawmessage_len_tracking() {
    let mut m = RawMessage::new(8);
    m.setlen(0);
    assert_eq!(m.len(), 0);
    m.write_from_slice(2, &[1, 2, 3]);
    assert_eq!(m.len(), 5);
    assert_eq!(m.readu8(2), 1);
    assert_eq!(m.readu8(4), 3);
    m.resize(3);
    assert_eq!(m.cap(), 3);
    assert_eq!(m.len(), 3);
    assert_eq!(m.readu8(2), 1);
}

#[test]
fn rawmessage_zero_cap_gets_one_byte() {
    let m = RawMessage::new(0);
    assert_eq!(m.len(), 0);
    assert_eq!(m.cap(), 1);
    // empty sources get the same one-byte region
    let m = RawMessage::new_fromslice(&[]);
    assert_eq!(m.len(), 0);
    assert_eq!(m.cap(), 1);
    let m = RawMessage::new_fromstr("");
    assert_eq!(m.len(), 0);
    assert_eq!(m.cap(), 1);
}

#[test]
fn rawmessage_dup_is_separate() {
    let mut a = RawMessage::new(4);
    a.writeu8(0, 7);
    let b = a.dup();
    a.writeu8(0, 9);
    assert_eq!(b.readu8(0), 7);
    assert_eq!(a.readu8(0), 9);
}

// Mutating the sender's buffer after a send never changes what a
// receiver observes.
#[test]
fn raw_buffer_isolation() {
    let mut net = Net::new(77);
    let a = net.new_endpoint();
    let _b = net.new_endpoint();

    let mut msg = Message::new_raw(4);
    msg.dstsid = 0;
    msg.dsteid = 0;
    msg.get_rawmutref().writeu8(0, 0x11);
    let sent = net.send(msg.dup());
    assert_eq!(sent, 2);

    // scribble over the sender's copy
    msg.get_rawmutref().writeu8(0, 0x99);

    let got = net.recv(a).ok();
    assert_eq!(got.get_raw().readu8(0), 0x11);
}

#[test]
fn broadcast_raw_counts() {
    let mut net = Net::new(5);
    let a = net.new_endpoint();
    let b = net.new_endpoint();
    let c = net.new_endpoint();

    let mut msg = Message::new_raw(8);
    msg.dstsid = 0;
    msg.dsteid = 0;
    // an unstamped message matches no sender, so every endpoint takes it
    assert_eq!(net.send(msg), 3);
    assert!(net.recv(a).is_ok());
    assert!(net.recv(b).is_ok());
    assert!(net.recv(c).is_ok());
    let e = net.recv(a).err();
    assert!(matches!(e.code, IoErrorCode::NoMessages));
}

// Messages sent in order by one sender are received in that order.
#[test]
fn fifo_per_sender() {
    let mut net = Net::new(9);
    let a = net.new_endpoint();
    let b = net.new_endpoint();

    for k in 0..5u8 {
        let mut msg = Message::new_raw(1);
        msg.dstsid = 1;
        msg.dsteid = 0;
        msg.get_rawmutref().writeu8(0, k);
        net.send_from(a, msg);
    }
    for k in 0..5u8 {
        let got = net.recv(b).ok();
        assert_eq!(got.get_raw().readu8(0), k);
    }
}

#[test]
fn unicast_by_eid_and_gid() {
    let mut net = Net::new(3);
    let a = net.new_endpoint();
    let b = net.new_endpoint();
    let c = net.new_endpoint();

    let beid = {
        let i = net.find_endpoint(b).unwrap();
        net.endpoint_at(i).geteid()
    };
    let mut msg = Message::new_raw(1);
    msg.dstsid = 1;
    msg.dsteid = beid;
    assert_eq!(net.send(msg), 1);
    assert!(net.recv(b).is_ok());
    assert!(net.recv(a).is_err());

    // a group id matches like an endpoint id
    {
        let i = net.find_endpoint(c).unwrap();
        net.endpoint_at_mut(i).setgid(4242);
    }
    let mut msg = Message::new_raw(1);
    msg.dstsid = 1;
    msg.dsteid = 4242;
    assert_eq!(net.send(msg), 1);
    assert!(net.recv(c).is_ok());
}

#[test]
fn no_loopback_unless_asked() {
    let mut net = Net::new(11);
    let a = net.new_endpoint();
    let _b = net.new_endpoint();

    let mut msg = Message::new_raw(1);
    msg.dstsid = 0;
    msg.dsteid = 0;
    // stamped with the sender's own address: the sender is skipped
    assert_eq!(net.send_from(a, msg), 1);
}
