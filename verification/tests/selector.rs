use water::endpoint;
use water::IoErrorCode;
use water::Message;
use water::Net;
use water::Timespec;

#[test]
fn select_takes_first_ready() {
    let mut net = Net::new(6);
    let a = net.new_endpoint();
    let b = net.new_endpoint();
    let c = net.new_endpoint();

    let beid = {
        let i = net.find_endpoint(b).unwrap();
        net.endpoint_at(i).geteid()
    };
    let mut msg = Message::new_raw(1);
    msg.dstsid = 1;
    msg.dsteid = beid;
    msg.get_rawmutref().writeu8(0, 0x42);
    assert_eq!(net.send(msg), 1);

    let list = vec![a, b, c];
    let got = endpoint::recv(&mut net, &list).ok();
    assert_eq!(got.get_raw().readu8(0), 0x42);
    // nothing else anywhere
    let e = endpoint::recv(&mut net, &list).err();
    assert!(matches!(e.code, IoErrorCode::NoMessages));
}

#[test]
fn select_times_out_when_empty() {
    let mut net = Net::new(6);
    let a = net.new_endpoint();
    let b = net.new_endpoint();
    let list = vec![a, b];
    let r = endpoint::recvorblock(&mut net, &list, Timespec { sec: 0, nsec: 50_000_000 });
    assert!(matches!(r.err().code, IoErrorCode::TimedOut));
    let r = endpoint::recv(&mut net, &list);
    assert!(matches!(r.err().code, IoErrorCode::NoMessages));
}
