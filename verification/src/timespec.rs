//! Seconds-and-nanoseconds time values, and the arithmetic the fabric needs
//! to turn a duration into an absolute deadline.

use vstd::prelude::*;

verus! {

/// Nanoseconds in one second.
pub const NSINSEC: i64 = 1_000_000_000;

/// A point in time (or a duration): whole seconds plus nanoseconds.
#[derive(Clone, Copy, Debug, PartialEq, Eq, Structural)]
pub struct Timespec {
    pub sec: i64,
    pub nsec: i32,
}

impl Timespec {
    /// The value as a single count of nanoseconds.
    pub open spec fn total_ns(self) -> int {
        self.sec * 1_000_000_000 + self.nsec
    }

    /// Nanoseconds lie in `[0, NSINSEC)`.
    pub open spec fn normed(self) -> bool {
        0 <= self.nsec < 1_000_000_000
    }

    /// Strictly later than `other`.
    pub fn after(&self, other: &Timespec) -> (r: bool)
        requires
            self.normed(),
            other.normed(),
        ensures
            r == (self.total_ns() > other.total_ns()),
    {
        if self.sec != other.sec {
            proof {
                if self.sec > other.sec {
                    assert(self.sec * 1_000_000_000 >= (other.sec + 1) * 1_000_000_000)
                        by (nonlinear_arith)
                        requires self.sec >= other.sec + 1;
                } else {
                    assert(other.sec * 1_000_000_000 >= (self.sec + 1) * 1_000_000_000)
                        by (nonlinear_arith)
                        requires other.sec >= self.sec + 1;
                }
            }
            self.sec > other.sec
        } else {
            self.nsec > other.nsec
        }
    }
}

/// Relies on `time::get_time`: the current wall-clock time. Its constructor
/// checks that the nanoseconds lie in `[0, NSINSEC)`; nothing further is
/// promised of a clock reading.
#[verifier::external_body]
pub fn get_time() -> (r: Timespec)
    ensures
        r.normed(),
{
    let t = time::get_time();
    Timespec { sec: t.sec, nsec: t.nsec }
}

/// The absolute deadline a duration from now: `now + duration`, stopped at
/// the largest representable time where it would overflow.
pub fn deadline_after(now: Timespec, duration: Timespec) -> (r: Timespec)
    requires
        now.normed(),
        duration.normed(),
    ensures
        r.normed(),
        r.total_ns() >= now.total_ns(),
        duration.sec >= 0 && now.sec + duration.sec + 1 <= i64::MAX ==>
            r.total_ns() == now.total_ns() + duration.total_ns(),
{
    if duration.sec >= 0 && now.sec <= i64::MAX - 1 - duration.sec {
        let r = crate::timespec::add(now, duration);
        proof {
            assert(duration.total_ns() >= 0);
        }
        r
    } else if duration.sec < 0 {
        now
    } else {
        Timespec { sec: i64::MAX, nsec: 999_999_999 }
    }
}

/// Add two time values; the right operand is typically a duration.
pub fn add(a: Timespec, b: Timespec) -> (r: Timespec)
    requires
        a.normed(),
        b.normed(),
        i64::MIN <= a.sec + b.sec,
        a.sec + b.sec + 1 <= i64::MAX,
    ensures
        r.normed(),
        r.total_ns() == a.total_ns() + b.total_ns(),
{
    let mut sec: i64 = a.sec + b.sec;
    let mut nsec: i32 = a.nsec + b.nsec;
    if nsec >= 1_000_000_000 {
        nsec = nsec - 1_000_000_000;
        sec = sec + 1;
        proof {
            assert((a.sec + b.sec + 1) * 1_000_000_000 ==
                a.sec * 1_000_000_000 + b.sec * 1_000_000_000 + 1_000_000_000)
                by (nonlinear_arith);
        }
    } else {
        proof {
            assert((a.sec + b.sec) * 1_000_000_000 ==
                a.sec * 1_000_000_000 + b.sec * 1_000_000_000) by (nonlinear_arith);
        }
    }
    Timespec { sec, nsec }
}

/// Subtract two time values: `sub(a, b)` is `a - b`.
pub fn sub(a: Timespec, b: Timespec) -> (r: Timespec)
    requires
        a.normed(),
        b.normed(),
        i64::MIN <= a.sec - b.sec - 1,
        a.sec - b.sec <= i64::MAX,
    ensures
        r.normed(),
        r.total_ns() == a.total_ns() - b.total_ns(),
{
    let mut sec: i64 = a.sec - b.sec;
    let mut nsec: i32 = a.nsec - b.nsec;
    if nsec < 0 {
        nsec = nsec + 1_000_000_000;
        sec = sec - 1;
        proof {
            assert((a.sec - b.sec - 1) * 1_000_000_000 ==
                a.sec * 1_000_000_000 - b.sec * 1_000_000_000 - 1_000_000_000)
                by (nonlinear_arith);
        }
    } else {
        proof {
            assert((a.sec - b.sec) * 1_000_000_000 ==
                a.sec * 1_000_000_000 - b.sec * 1_000_000_000) by (nonlinear_arith);
        }
    }
    Timespec { sec, nsec }
}

/// Normalize a time value so that its nanoseconds lie in `[0, NSINSEC)`,
/// carrying whole seconds in or out as needed.
pub fn unitize(a: &mut Timespec)
    requires
        i64::MIN + 3 <= old(a).sec,
        old(a).sec <= i64::MAX - 3,
    ensures
        final(a).normed(),
        final(a).total_ns() == old(a).total_ns(),
{
    let ghost t0 = a.total_ns();
    let ghost s0 = a.sec;
    while a.nsec >= 1_000_000_000
        invariant
            a.total_ns() == t0,
            s0 <= a.sec <= s0 + 2,
            s0 <= i64::MAX - 3,
            a.sec > s0 ==> a.nsec < 1_200_000_000,
            a.sec == s0 + 2 ==> a.nsec < 1_000_000_000,
        decreases a.nsec,
    {
        proof {
            assert((a.sec + 1) * 1_000_000_000 == a.sec * 1_000_000_000 + 1_000_000_000)
                by (nonlinear_arith);
        }
        a.nsec = a.nsec - 1_000_000_000;
        a.sec = a.sec + 1;
    }
    let ghost s1 = a.sec;
    let ghost n1 = a.nsec;
    while a.nsec < 0
        invariant
            a.total_ns() == t0,
            a.nsec < 1_000_000_000,
            n1 < 1_000_000_000,
            s1 - 3 <= a.sec <= s1,
            s0 <= s1 <= s0 + 2,
            i64::MIN + 3 <= s0 <= i64::MAX - 3,
            a.sec < s1 ==> a.nsec > -1_200_000_000,
            a.sec <= s1 - 2 ==> a.nsec > -200_000_000,
            a.sec == s1 - 3 ==> a.nsec >= 0,
        decreases a.sec - (s1 - 3),
    {
        proof {
            assert((a.sec - 1) * 1_000_000_000 == a.sec * 1_000_000_000 - 1_000_000_000)
                by (nonlinear_arith);
        }
        a.nsec = a.nsec + 1_000_000_000;
        a.sec = a.sec - 1;
    }
}

} // verus!
