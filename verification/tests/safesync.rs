use water::IoErrorCode;
use water::Message;
use water::Net;
use water::RawMessage;

const FOO_TAG: u64 = 0xf00;

// A sync message offered to several endpoints is received by exactly one.
#[test]
fn sync_delivered_at_most_once() {
    let mut net = Net::new(234);
    let sender = net.new_endpoint();
    let b = net.new_endpoint();
    let c = net.new_endpoint();

    let mut payload = RawMessage::new(8);
    payload.writeu32(0, 0xcafe);
    // both b and c accept the envelope
    assert_eq!(net.sendsynctype(sender, FOO_TAG, payload), 2);

    let rb = net.recv(b);
    let rc = net.recv(c);
    assert!(rb.is_ok() != rc.is_ok());
    let winner = if rb.is_ok() { rb } else { rc };
    let msg = winner.ok();
    assert!(msg.is_sync());
    assert!(msg.is_type(FOO_TAG));
    assert_eq!(msg.typeunwrap(FOO_TAG).readu32(0), 0xcafe);
}

#[test]
fn syncio() {
    // One worker endpoint sends a sync value straight at another endpoint's
    // id on the local net; the addressee takes it.
    let mut net = Net::new(234);
    let ep = net.new_endpoint();
    let worker = net.new_endpoint();

    let eid = {
        let i = net.find_endpoint(ep).unwrap();
        net.endpoint_at(i).geteid()
    };
    let mut msg = net.new_sync_message(FOO_TAG, RawMessage::new(0));
    msg.dsteid = eid; // specific endpoint
    msg.dstsid = 1; // local net only
    assert_eq!(net.send_from(worker, msg), 1);

    let got = net.recv(ep).ok();
    assert!(got.is_sync());
    assert!(got.is_type(FOO_TAG));
}

// Net(100), two endpoints; a sync unit value bounces between them, each
// reception answered with another send, with no spurious extras.
#[test]
fn pingpong_sync() {
    let mut net = Net::new(100);
    let epa = net.new_endpoint();
    let epb = net.new_endpoint();

    let mut a_got: u32 = 0;
    let mut b_got: u32 = 0;
    for _ in 0..10000 {
        assert_eq!(net.sendsynctype(epa, FOO_TAG, RawMessage::new(0)), 1);
        let r = net.recvorblock(epb, water::Timespec { sec: 9, nsec: 0 });
        assert!(r.ok().is_type(FOO_TAG));
        b_got += 1;

        assert_eq!(net.sendsynctype(epb, FOO_TAG, RawMessage::new(0)), 1);
        let r = net.recvorblock(epa, water::Timespec { sec: 9, nsec: 0 });
        assert!(r.ok().is_type(FOO_TAG));
        a_got += 1;
    }
    assert_eq!(a_got, 10000);
    assert_eq!(b_got, 10000);
    assert!(net.recv(epa).is_err());
    assert!(net.recv(epb).is_err());
}

// Net(234), four endpoints: a broadcast clone value reaches the three
// non-senders, each with its own copy, and not the sender.
#[test]
fn broadcast_clone() {
    let mut net = Net::new(234);
    let sender = net.new_endpoint();
    let rest = [net.new_endpoint(), net.new_endpoint(), net.new_endpoint()];

    let mut payload = RawMessage::new(4);
    payload.writeu32(0, 0x12345678);
    let mut msg = Message::new_clone(0xc10e, payload);
    msg.dstsid = 0;
    msg.dsteid = 0;
    assert_eq!(net.send_from(sender, msg), 3);

    for ep in rest {
        let got = net.recv(ep).ok();
        assert!(got.is_clone());
        assert!(got.is_type(0xc10e));
        assert_eq!(got.typeunwrap(0xc10e).readu32(0), 0x12345678);
    }
    let e = net.recv(sender).err();
    assert!(matches!(e.code, IoErrorCode::NoMessages));
}

// The loser of the claim race finds its copy dead and reads past it to the
// next deliverable message.
#[test]
fn dead_sync_is_skipped() {
    let mut net = Net::new(7);
    let sender = net.new_endpoint();
    let b = net.new_endpoint();
    let c = net.new_endpoint();

    assert_eq!(net.sendsynctype(sender, FOO_TAG, RawMessage::new(0)), 2);
    let mut msg = Message::new_raw(1);
    msg.dstsid = 1;
    msg.dsteid = 0;
    assert_eq!(net.send_from(sender, msg), 2);

    // b wins the sync claim
    assert!(net.recv(b).ok().is_sync());
    // c's copy of the sync is dead; it gets the raw message instead
    let got = net.recv(c).ok();
    assert!(got.is_raw());
    // b still has its raw copy queued
    assert!(net.recv(b).ok().is_raw());
    assert!(net.recv(c).is_err());
}

#[test]
fn is_type_on_raw_is_false() {
    let msg = Message::new_raw(4);
    assert!(!msg.is_type(FOO_TAG));
    assert!(msg.is_raw());
    assert!(!msg.is_sync());
    assert!(!msg.is_clone());
}
