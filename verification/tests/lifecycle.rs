use water::Net;

// Endpoint ids the net assigns start at 0x10000 and grow one by one; an
// explicit id moves the allocator past itself.
#[test]
fn eid_allocation() {
    let mut net = Net::new(100);
    let a = net.new_endpoint();
    let b = net.new_endpoint();
    let ia = net.find_endpoint(a).unwrap();
    let ib = net.find_endpoint(b).unwrap();
    assert_eq!(net.endpoint_at(ia).geteid(), 0x10000);
    assert_eq!(net.endpoint_at(ib).geteid(), 0x10001);
    assert_eq!(net.get_neweid(), 0x10002);

    let c = net.new_endpoint_withid(0x20000);
    let ic = net.find_endpoint(c).unwrap();
    assert_eq!(net.endpoint_at(ic).geteid(), 0x20000);
    let d = net.new_endpoint();
    let id = net.find_endpoint(d).unwrap();
    assert_eq!(net.endpoint_at(id).geteid(), 0x20001);
}

// An explicit id equal to the allocator's next id moves the allocator past
// it, so the next assigned id never collides with it.
#[test]
fn explicit_eid_at_allocator_advances_it() {
    let mut net = Net::new(100);
    let a = net.new_endpoint_withid(0x10000);
    let b = net.new_endpoint();
    let ia = net.find_endpoint(a).unwrap();
    let ib = net.find_endpoint(b).unwrap();
    assert_eq!(net.endpoint_at(ia).geteid(), 0x10000);
    assert_eq!(net.endpoint_at(ib).geteid(), 0x10001);
}

#[test]
fn address_fields_settable() {
    let mut net = Net::new(50);
    let a = net.new_endpoint();
    let i = net.find_endpoint(a).unwrap();
    assert_eq!(net.endpoint_at(i).getsid(), 50);
    assert_eq!(net.endpoint_at(i).getgid(), water::UNUSED_ID);
    net.endpoint_at_mut(i).setsid(60);
    net.endpoint_at_mut(i).seteid(77);
    net.endpoint_at_mut(i).setgid(88);
    assert_eq!(net.endpoint_at(i).getsid(), 60);
    assert_eq!(net.endpoint_at(i).geteid(), 77);
    assert_eq!(net.endpoint_at(i).getgid(), 88);
}

// After the last user handle is dropped the endpoint leaves the net, and
// leaves it exactly once.
#[test]
fn refcount_removes_once() {
    let mut net = Net::new(8);
    let a = net.new_endpoint();
    let _b = net.new_endpoint();
    assert_eq!(net.getepcount(), 2);

    // a second user handle exists; dropping it does not remove
    net.clone_endpoint(a);
    {
        let i = net.find_endpoint(a).unwrap();
        assert_eq!(net.endpoint_at(i).getrefcnt(), 3);
    }
    assert!(!net.release_endpoint(a));
    assert_eq!(net.getepcount(), 2);

    // dropping the last user handle removes the endpoint, once
    assert!(net.release_endpoint(a));
    assert_eq!(net.getepcount(), 1);
    assert!(net.find_endpoint(a).is_none());

    // asking the net to drop an absent endpoint is harmless
    net.drop_endpoint(a);
    assert_eq!(net.getepcount(), 1);
}

#[test]
fn drop_endpoint_is_idempotent() {
    let mut net = Net::new(8);
    let a = net.new_endpoint();
    assert_eq!(net.getepcount(), 1);
    net.drop_endpoint(a);
    assert_eq!(net.getepcount(), 0);
    net.drop_endpoint(a);
    assert_eq!(net.getepcount(), 0);
}

#[test]
fn peer_bookkeeping() {
    let mut net = Net::new(44);
    assert_eq!(net.getserveraddr(), 44);
    assert_eq!(net.getepcount(), 0);
    let a = net.new_endpoint();
    assert_eq!(net.getepcount(), 1);
    let i = net.find_endpoint(a).unwrap();
    assert!(!net.endpoint_at(i).hasmessages());
    assert_eq!(net.endpoint_at(i).sleepercount(), 0);
}
