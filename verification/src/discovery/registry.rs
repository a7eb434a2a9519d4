//! The backends that discover devices.

use vstd::prelude::*;

verus! {

/// A way of discovering devices.
#[derive(Debug, Clone, Copy, PartialEq, Eq, Structural)]
pub enum Backend {
    Sysfs,
    Bluez,
    SteelSeries,
    EightBitDo,
}

impl Backend {
    /// The name a backend goes by.
    pub open spec fn spelling(self) -> Seq<char> {
        match self {
            Backend::Sysfs => "sysfs"@,
            Backend::Bluez => "bluez"@,
            Backend::SteelSeries => "steelseries"@,
            Backend::EightBitDo => "eightbitdo"@,
        }
    }

    pub fn name(self) -> (r: &'static str)
        ensures
            r@ == self.spelling(),
    {
        match self {
            Backend::Sysfs => "sysfs",
            Backend::Bluez => "bluez",
            Backend::SteelSeries => "steelseries",
            Backend::EightBitDo => "eightbitdo",
        }
    }

    /// The USB vendor of the devices a backend opens through `/dev/hidraw*`.
    pub open spec fn vendor(self) -> Option<u16> {
        match self {
            Backend::Sysfs | Backend::Bluez => None,
            Backend::SteelSeries => Some(0x1038),
            Backend::EightBitDo => Some(0x2DC8),
        }
    }

    /// The USB vendor of the devices a backend opens through `/dev/hidraw*`,
    /// for those that do.
    pub fn hidraw_vendor(self) -> (r: Option<u16>)
        ensures
            r == self.vendor(),
    {
        match self {
            Backend::Sysfs | Backend::Bluez => None,
            Backend::SteelSeries => Some(0x1038),
            Backend::EightBitDo => Some(0x2DC8),
        }
    }
}

/// The backends in priority order.
pub open spec fn all_backends() -> Seq<Backend> {
    seq![Backend::Sysfs, Backend::Bluez, Backend::SteelSeries, Backend::EightBitDo]
}

/// Returns all registered backends in priority order.
pub fn backends() -> (r: Vec<Backend>)
    ensures
        r@ == all_backends(),
{
    vec![Backend::Sysfs, Backend::Bluez, Backend::SteelSeries, Backend::EightBitDo]
}

/// The vendors of those backends that have one, in order.
pub open spec fn vendors_of(list: Seq<Backend>) -> Seq<u16>
    decreases list.len(),
{
    if list.len() == 0 {
        Seq::empty()
    } else {
        let before = vendors_of(list.drop_last());
        match list.last().vendor() {
            Some(v) => before.push(v),
            None => before,
        }
    }
}

/// The vendors of the backends that open `/dev/hidraw*` — the ones a missing
/// udev rule locks out. Derived from `backends`, so it cannot drift.
pub fn hidraw_families() -> (r: Vec<u16>)
    ensures
        r@ == vendors_of(all_backends()),
{
    let all = backends();
    let mut r: Vec<u16> = Vec::new();
    let mut i: usize = 0;
    while i < all.len()
        invariant
            i <= all@.len(),
            r@ == vendors_of(all@.take(i as int)),
        decreases all@.len() - i,
    {
        assert(all@.take(i + 1).drop_last() == all@.take(i as int));
        match all[i].hidraw_vendor() {
            Some(v) => r.push(v),
            None => {},
        }
        i += 1;
    }
    assert(all@.take(i as int) == all@);
    r
}

/// No two backends go by the same name, so a device's backend says who owns it.
pub proof fn backend_names_differ(a: Backend, b: Backend)
    requires
        a != b,
    ensures
        a.spelling() != b.spelling(),
{
    reveal_strlit("sysfs");
    reveal_strlit("bluez");
    reveal_strlit("steelseries");
    reveal_strlit("eightbitdo");
    assert("sysfs"@[0] != "bluez"@[0]);
    assert("steelseries"@.len() != "eightbitdo"@.len());
}

} // verus!
