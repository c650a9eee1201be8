use water::Message;
use water::Net;

// Net(1), two endpoints, one capped at a single pending message: three
// rapid sends are taken by two, one and one endpoints while nobody drains.
#[test]
fn fanout_with_cap() {
    let mut net = Net::new(1);
    let other = net.new_endpoint();
    let capped = net.new_endpoint();
    {
        let i = net.find_endpoint(capped).unwrap();
        net.endpoint_at_mut(i).setlimitpending(1);
    }

    let mut counts: Vec<usize> = Vec::new();
    for _ in 0..3 {
        let mut msg = Message::new_raw(32);
        msg.dstsid = 0;
        msg.dsteid = 0;
        counts.push(net.send(msg));
    }
    assert_eq!(counts, vec![2, 1, 1]);

    // the capped endpoint's queue never grew past one message
    assert!(net.recv(capped).is_ok());
    assert!(net.recv(capped).is_err());
    // the other endpoint took all three
    for _ in 0..3 {
        assert!(net.recv(other).is_ok());
    }
    assert!(net.recv(other).is_err());
}

// A memory limit rejects a message whose buffer would push the accounted
// bytes past the limit.
#[test]
fn memory_limit_binds() {
    let mut net = Net::new(2);
    let ep = net.new_endpoint();
    {
        let i = net.find_endpoint(ep).unwrap();
        net.endpoint_at_mut(i).setlimitmemory(100);
    }

    let mut msg = Message::new_raw(60);
    msg.dstsid = 0;
    msg.dsteid = 0;
    assert_eq!(net.send(msg), 1); // 60 of 100 accounted

    let mut msg = Message::new_raw(60);
    msg.dstsid = 0;
    msg.dsteid = 0;
    assert_eq!(net.send(msg), 0); // 120 would exceed the limit

    let mut msg = Message::new_raw(40);
    msg.dstsid = 0;
    msg.dsteid = 0;
    assert_eq!(net.send(msg), 1); // exactly 100 fits

    // draining releases the accounting
    assert!(net.recv(ep).is_ok());
    assert!(net.recv(ep).is_ok());
    let mut msg = Message::new_raw(60);
    msg.dstsid = 0;
    msg.dsteid = 0;
    assert_eq!(net.send(msg), 1);
}

// A zero limit means unlimited.
#[test]
fn zero_limits_do_not_bind() {
    let mut net = Net::new(3);
    let ep = net.new_endpoint();
    for _ in 0..50 {
        let mut msg = Message::new_raw(1000);
        msg.dstsid = 0;
        msg.dsteid = 0;
        assert_eq!(net.send(msg), 1);
    }
    for _ in 0..50 {
        assert!(net.recv(ep).is_ok());
    }
}
