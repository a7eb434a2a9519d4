//! Spans of time, and points on the host's boot clock.

use vstd::prelude::*;

verus! {

/// The longest span there is: `u64::MAX` seconds and a nanosecond short of one more.
pub open spec fn longest() -> nat {
    (0x1_0000_0000_0000_0000 * 1_000_000_000 - 1) as nat
}

/// A span of time in nanoseconds. Its view is that number.
#[derive(Debug, Clone, Copy, PartialEq, Eq, PartialOrd, Ord, Hash, Structural)]
pub struct Duration {
    nanos: u128,
}

impl View for Duration {
    type V = nat;

    closed spec fn view(&self) -> nat {
        self.nanos as nat
    }
}

impl Duration {
    #[verifier::type_invariant]
    spec fn fits(self) -> bool {
        self.nanos <= longest()
    }

    /// A span of whole seconds.
    pub fn from_secs(secs: u64) -> (d: Self)
        ensures
            d@ == secs * 1_000_000_000,
    {
        Self { nanos: secs as u128 * 1_000_000_000 }
    }

    /// A span of whole milliseconds.
    pub fn from_millis(millis: u64) -> (d: Self)
        ensures
            d@ == millis * 1_000_000,
    {
        Self { nanos: millis as u128 * 1_000_000 }
    }

    /// A span of whole nanoseconds.
    pub fn from_nanos(nanos: u64) -> (d: Self)
        ensures
            d@ == nanos,
    {
        Self { nanos: nanos as u128 }
    }

    /// The whole seconds in the span.
    pub fn as_secs(self) -> (secs: u64)
        ensures
            secs == self@ / 1_000_000_000,
    {
        proof {
            use_type_invariant(self);
        }
        (self.nanos / 1_000_000_000) as u64
    }

    /// The nanoseconds in the span.
    pub fn as_nanos(self) -> (nanos: u128)
        ensures
            nanos == self@,
            nanos <= longest(),
    {
        proof {
            use_type_invariant(self);
        }
        self.nanos
    }

    /// Twice the span, or the longest span there is.
    pub fn saturating_double(self) -> (d: Self)
        ensures
            d@ == if 2 * self@ <= longest() {
                2 * self@
            } else {
                longest()
            },
    {
        proof {
            use_type_invariant(self);
        }
        let limit: u128 = 0x1_0000_0000_0000_0000 * 1_000_000_000 - 1;
        let doubled: u128 = self.nanos * 2;
        if doubled <= limit {
            Self { nanos: doubled }
        } else {
            Self { nanos: limit }
        }
    }
}

/// A point on the host's boot clock (`CLOCK_BOOTTIME`), in nanoseconds since
/// boot. It keeps counting while the host is suspended, so a discharge rate or
/// a reading's age spanning a suspend is not shortened by it. Signed: a reading
/// replayed from the state store can predate this boot.
#[derive(Debug, Clone, Copy, PartialEq, Eq, PartialOrd, Ord, Hash, Structural)]
pub struct BootTime {
    nanos: i64,
}

impl View for BootTime {
    type V = int;

    closed spec fn view(&self) -> int {
        self.nanos as int
    }
}

/// A span's nanoseconds on the boot clock's scale, which ends at `i64::MAX`.
pub open spec fn clock_nanos(d: Duration) -> int {
    if d@ <= i64::MAX {
        d@ as int
    } else {
        i64::MAX as int
    }
}

/// The time from `earlier` to `now`: nothing when `earlier` is later, and at
/// most `i64::MAX` nanoseconds.
pub open spec fn elapsed(now: BootTime, earlier: BootTime) -> nat {
    if now@ <= earlier@ {
        0
    } else if now@ - earlier@ <= i64::MAX {
        (now@ - earlier@) as nat
    } else {
        i64::MAX as nat
    }
}

/// The point `d` earlier, unless the clock's scale does not reach back to it.
pub open spec fn earlier(t: BootTime, d: Duration) -> Option<BootTime> {
    if t@ - clock_nanos(d) >= i64::MIN {
        Some(point(t@ - clock_nanos(d)))
    } else {
        None
    }
}

/// The clock's nanoseconds for a span, at most `i64::MAX`.
fn nanos(d: Duration) -> (n: i64)
    ensures
        n == clock_nanos(d),
{
    let exact: u128 = d.as_nanos();
    if exact <= 0x7fff_ffff_ffff_ffff {
        exact as i64
    } else {
        i64::MAX
    }
}

impl BootTime {
    /// The point `since_boot` after boot.
    pub fn from_boot(since_boot: Duration) -> (t: Self)
        ensures
            t@ == clock_nanos(since_boot),
    {
        Self { nanos: nanos(since_boot) }
    }

    /// How long after `earlier` this point is; zero when it is not after it.
    pub fn saturating_duration_since(self, earlier: Self) -> (d: Duration)
        ensures
            d@ == elapsed(self, earlier),
    {
        if self.nanos <= earlier.nanos {
            return Duration::from_nanos(0);
        }
        let gap: i128 = self.nanos as i128 - earlier.nanos as i128;
        if gap <= 0x7fff_ffff_ffff_ffff {
            Duration::from_nanos(gap as u64)
        } else {
            Duration::from_nanos(0x7fff_ffff_ffff_ffff)
        }
    }

    /// The point `d` earlier, unless the clock's scale does not reach back to it.
    pub fn checked_sub(self, d: Duration) -> (t: Option<Self>)
        ensures
            t == earlier(self, d),
            t is Some <==> self@ - clock_nanos(d) >= i64::MIN,
            t matches Some(before) ==> before@ == self@ - clock_nanos(d),
    {
        match self.nanos.checked_sub(nanos(d)) {
            Some(n) => Some(Self { nanos: n }),
            None => None,
        }
    }

    /// The point `d` later, or the last one on the clock's scale.
    pub fn saturating_add(self, d: Duration) -> (t: Self)
        ensures
            t@ == if self@ + clock_nanos(d) <= i64::MAX {
                self@ + clock_nanos(d)
            } else {
                i64::MAX as int
            },
    {
        match self.nanos.checked_add(nanos(d)) {
            Some(n) => Self { nanos: n },
            None => Self { nanos: i64::MAX },
        }
    }
}

impl core::ops::Add<Duration> for BootTime {
    type Output = Self;

    fn add(self, d: Duration) -> (t: Self) {
        self.saturating_add(d)
    }
}

impl vstd::std_specs::ops::AddSpecImpl<Duration> for BootTime {
    open spec fn obeys_add_spec() -> bool {
        true
    }

    open spec fn add_req(self, d: Duration) -> bool {
        true
    }

    closed spec fn add_spec(self, d: Duration) -> BootTime {
        BootTime {
            nanos: if self.nanos + clock_nanos(d) <= i64::MAX {
                (self.nanos + clock_nanos(d)) as i64
            } else {
                i64::MAX
            },
        }
    }
}

/// The point at `nanos` on the clock.
pub closed spec fn point(nanos: int) -> BootTime {
    BootTime { nanos: nanos as i64 }
}

/// A point is the point at its own reading of the clock.
pub broadcast proof fn point_of_view(t: BootTime)
    ensures
        point(#[trigger] t@) == t,
{
}

/// The point at a reading of the clock has that reading.
pub proof fn point_reads(nanos: int)
    requires
        i64::MIN <= nanos <= i64::MAX,
    ensures
        point(nanos)@ == nanos,
{
}

/// The clock reads a whole number of nanoseconds between the ends of its scale.
pub proof fn in_range(t: BootTime)
    ensures
        i64::MIN <= t@ <= i64::MAX,
{
}

/// `+` on a point is `saturating_add`.
pub broadcast proof fn plus_is_later(t: BootTime, d: Duration)
    ensures
        (#[trigger] vstd::std_specs::ops::AddSpec::add_spec(t, d))@ == if t@ + clock_nanos(d)
            <= i64::MAX {
            t@ + clock_nanos(d)
        } else {
            i64::MAX as int
        },
{
}

/// Two points at the same reading of the clock are the same point.
pub broadcast proof fn same_point(a: BootTime, b: BootTime)
    ensures
        #[trigger] a@ == #[trigger] b@ ==> a == b,
{
}

/// Moving a point later by `d` and asking how long that was gives `d` back,
/// wherever the clock's scale reaches.
pub proof fn later_then_elapsed(t: BootTime, d: Duration, later: BootTime)
    requires
        later@ == t@ + d@,
        d@ <= i64::MAX,
    ensures
        elapsed(later, t) == d@,
        elapsed(t, later) == 0,
{
}

/// Moving a point earlier by `d` is undone by adding `d`, and `d` is then how
/// long it was. It fails only where the clock's scale ends, so a point before
/// boot is still reached.
pub proof fn earlier_then_later(t: BootTime, d: Duration)
    requires
        d@ <= i64::MAX,
    ensures
        earlier(t, d) is None <==> t@ - d@ < i64::MIN,
        t@ >= 0 ==> earlier(t, d) is Some,
        earlier(t, d) matches Some(u) ==> {
            &&& u@ == t@ - d@
            &&& vstd::std_specs::ops::AddSpec::add_spec(u, d) == t
            &&& elapsed(t, u) == d@
        },
{
}

/// Two spans of the same length are the same span.
pub broadcast proof fn same_span(a: Duration, b: Duration)
    ensures
        #[trigger] a@ == #[trigger] b@ ==> a == b,
{
}

} // verus!
