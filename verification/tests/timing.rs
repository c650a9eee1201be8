use water::net::next_latency;
use water::net::NET_MAXLATENCY;
use water::net::NET_MINLATENCY;
use water::timespec;
use water::IoErrorCode;
use water::Net;
use water::Timespec;

#[test]
fn timespec_add_carries() {
    let r = timespec::add(
        Timespec { sec: 1, nsec: 600_000_000 },
        Timespec { sec: 2, nsec: 700_000_000 },
    );
    assert_eq!(r, Timespec { sec: 4, nsec: 300_000_000 });
}

#[test]
fn timespec_sub_borrows() {
    let r = timespec::sub(
        Timespec { sec: 4, nsec: 300_000_000 },
        Timespec { sec: 2, nsec: 700_000_000 },
    );
    assert_eq!(r, Timespec { sec: 1, nsec: 600_000_000 });
}

#[test]
fn timespec_unitize() {
    let mut t = Timespec { sec: 0, nsec: 2_100_000_000 };
    timespec::unitize(&mut t);
    assert_eq!(t, Timespec { sec: 2, nsec: 100_000_000 });

    let mut t = Timespec { sec: 5, nsec: -1_500_000_000 };
    timespec::unitize(&mut t);
    assert_eq!(t, Timespec { sec: 3, nsec: 500_000_000 });
}

#[test]
fn timespec_after() {
    let a = Timespec { sec: 3, nsec: 2 };
    let b = Timespec { sec: 3, nsec: 1 };
    let c = Timespec { sec: 2, nsec: 999_999_999 };
    assert!(a.after(&b));
    assert!(!b.after(&a));
    assert!(b.after(&c));
    assert!(!b.after(&b));
}

#[test]
fn deadline_saturates() {
    let now = Timespec { sec: i64::MAX - 1, nsec: 0 };
    let d = timespec::deadline_after(now, Timespec { sec: 100, nsec: 0 });
    assert!(d.sec == i64::MAX && d.nsec == 999_999_999);
    let d = timespec::deadline_after(
        Timespec { sec: 10, nsec: 500_000_000 },
        Timespec { sec: 1, nsec: 600_000_000 },
    );
    assert_eq!(d, Timespec { sec: 12, nsec: 100_000_000 });
}

// The clock wrapper hands back a real reading, not its own constant: two
// distant reads differ, and the nanoseconds are in range.
#[test]
fn clock_moves() {
    let a = water::get_time();
    assert!(a.nsec >= 0 && a.nsec < 1_000_000_000);
    assert!(a.sec > 0);
    let mut moved = false;
    for _ in 0..10_000_000u64 {
        let b = water::get_time();
        if b != a {
            moved = true;
            break;
        }
    }
    assert!(moved);
}

// An empty endpoint's timed receive comes back with TimedOut, and not
// before the duration has passed.
#[test]
fn recv_timeout() {
    let mut net = Net::new(1);
    let ep = net.new_endpoint();
    let before = water::get_time();
    let r = net.recvorblock(ep, Timespec { sec: 0, nsec: 100_000_000 });
    let after = water::get_time();
    assert!(r.is_err());
    assert!(matches!(r.err().code, IoErrorCode::TimedOut));
    let elapsed = timespec::sub(after, before);
    assert!(elapsed.sec > 0 || elapsed.nsec >= 100_000_000);
}

#[test]
fn tick_latency_adapts() {
    assert_eq!(next_latency(NET_MAXLATENCY, true), NET_MAXLATENCY / 2);
    assert_eq!(next_latency(NET_MAXLATENCY, false), NET_MAXLATENCY);
    assert_eq!(next_latency(NET_MINLATENCY, true), NET_MINLATENCY);
    assert_eq!(next_latency(NET_MINLATENCY, false), NET_MINLATENCY * 2);
    assert_eq!(next_latency(150, true), NET_MINLATENCY);
    assert_eq!(next_latency(60000, false), NET_MAXLATENCY);
}

#[test]
fn wake_decision() {
    let mut net = Net::new(2);
    let ep = net.new_endpoint();
    let i = net.find_endpoint(ep).unwrap();
    let now = water::get_time();
    // a fresh endpoint advertises a wake-up time that never comes
    assert!(!net.endpoint_at(i).should_wake(&now));
    net.endpoint_at_mut(i).setwaketime(Timespec { sec: 0, nsec: 1 });
    assert!(net.endpoint_at(i).should_wake(&now));
    assert_eq!(net.endpoint_at(i).getwaketime(), Timespec { sec: 0, nsec: 1 });
    net.endpoint_at_mut(i).neverwakeme();
    assert!(!net.endpoint_at(i).should_wake(&now));
}

#[test]
fn nonblocking_recv_reports_no_messages() {
    let mut net = Net::new(1);
    let ep = net.new_endpoint();
    let r = net.recv(ep);
    assert!(r.is_err());
    assert!(matches!(r.err().code, IoErrorCode::NoMessages));
}
