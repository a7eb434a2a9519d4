//! Rendered icons, kept while they are in use.

use crate::domain::display::DisplayMode;
use crate::domain::primary::PrimaryStatus;
use crate::domain::types::DeviceKind;
use crate::icon::{Icon, Picture, Theme};
use vstd::prelude::*;

verus! {

/// Draws icons.
pub trait IconRenderer {
    fn render(
        &self,
        status: PrimaryStatus,
        kind: Option<DeviceKind>,
        theme: &Theme,
        mode: DisplayMode,
        stale: bool,
    ) -> (icons: Vec<Icon>);
}

/// Everything a rendered icon depends on: equal keys render equal pixmaps.
#[derive(Debug, Clone, Copy, PartialEq, Eq)]
pub struct IconKey {
    pub status: PrimaryStatus,
    pub kind: Option<DeviceKind>,
    pub theme: Theme,
    pub mode: DisplayMode,
    pub stale: bool,
}

/// What an `IconKey` says, with colours as their bytes.
pub struct Key {
    pub status: PrimaryStatus,
    pub kind: Option<DeviceKind>,
    pub normal: Seq<u8>,
    pub low: Seq<u8>,
    pub charging: Seq<u8>,
    pub offline: Seq<u8>,
    pub mode: DisplayMode,
    pub stale: bool,
}

impl View for IconKey {
    type V = Key;

    open spec fn view(&self) -> Key {
        Key {
            status: self.status,
            kind: self.kind,
            normal: self.theme.normal@,
            low: self.theme.low@,
            charging: self.theme.charging@,
            offline: self.theme.offline@,
            mode: self.mode,
            stale: self.stale,
        }
    }
}

fn same_color(a: &[u8; 4], b: &[u8; 4]) -> (r: bool)
    ensures
        r == (a@ == b@),
{
    let r = a[0] == b[0] && a[1] == b[1] && a[2] == b[2] && a[3] == b[3];
    assert(r ==> a@ =~= b@);
    r
}

impl IconKey {
    /// Whether both name the same icon.
    pub fn same(&self, other: &IconKey) -> (r: bool)
        ensures
            r == (self@ == other@),
    {
        let same_kind = match (self.kind, other.kind) {
            (Some(a), Some(b)) => a == b,
            (None, None) => true,
            _ => false,
        };
        self.status == other.status && same_kind && same_color(
            &self.theme.normal,
            &other.theme.normal,
        ) && same_color(&self.theme.low, &other.theme.low) && same_color(
            &self.theme.charging,
            &other.theme.charging,
        ) && same_color(&self.theme.offline, &other.theme.offline) && self.mode == other.mode
            && self.stale == other.stale
    }
}

/// What the icons of a list hold.
pub open spec fn pictures(icons: Seq<Icon>) -> Seq<Picture> {
    icons.map_values(|i: Icon| i@)
}

/// Whether a key is held.
pub open spec fn holds(held: Seq<(Key, Seq<Picture>)>, key: Key) -> bool {
    exists|i: int| 0 <= i < held.len() && (#[trigger] held[i]).0 == key
}

/// The icons of a key that is held.
pub open spec fn held_icons(held: Seq<(Key, Seq<Picture>)>, key: Key) -> Seq<Picture>
    decreases held.len(),
{
    if held.len() == 0 {
        Seq::empty()
    } else if held[0].0 == key {
        held[0].1
    } else {
        held_icons(held.drop_first(), key)
    }
}

/// The entries whose flag is set, in order.
pub open spec fn kept(held: Seq<(Key, Seq<Picture>)>, flags: Seq<bool>) -> Seq<(Key, Seq<Picture>)>
    decreases held.len(),
{
    if held.len() == 0 {
        Seq::empty()
    } else {
        let before = kept(held.drop_last(), flags);
        if flags[held.len() - 1] {
            before.push(held.last())
        } else {
            before
        }
    }
}

/// Whether `keep` can have answered `yes` for a key that says this.
pub open spec fn answers<F: Fn(&IconKey) -> bool>(keep: F, key: Key, yes: bool) -> bool {
    exists|k: &IconKey| k@ == key && #[trigger] keep.ensures((k,), yes)
}

/// Renders each distinct `IconKey` once and keeps the result while the key is
/// in use. Its view are the keys held, each with its icons.
pub struct IconCache<R: IconRenderer> {
    renderer: R,
    icons: Vec<(IconKey, Vec<Icon>)>,
}

spec fn entries(list: Seq<(IconKey, Vec<Icon>)>) -> Seq<(Key, Seq<Picture>)> {
    list.map_values(|e: (IconKey, Vec<Icon>)| (e.0@, pictures(e.1@)))
}

impl<R: IconRenderer> View for IconCache<R> {
    type V = Seq<(Key, Seq<Picture>)>;

    closed spec fn view(&self) -> Seq<(Key, Seq<Picture>)> {
        entries(self.icons@)
    }
}

fn copy_icons(icons: &Vec<Icon>) -> (r: Vec<Icon>)
    ensures
        pictures(r@) == pictures(icons@),
{
    let mut r: Vec<Icon> = Vec::new();
    let mut i: usize = 0;
    while i < icons.len()
        invariant
            i <= icons@.len(),
            r@.len() == i,
            forall|k: int| 0 <= k < i ==> (#[trigger] r@[k])@ == icons@[k]@,
        decreases icons@.len() - i,
    {
        r.push(icons[i].clone());
        i += 1;
    }
    assert(pictures(r@) =~= pictures(icons@));
    r
}

impl<R: IconRenderer> IconCache<R> {
    pub fn new(renderer: R) -> (r: Self)
        ensures
            r@ == Seq::<(Key, Seq<Picture>)>::empty(),
            r.renderer() == renderer,
    {
        let r = IconCache { renderer, icons: Vec::new() };
        assert(r@ =~= Seq::empty());
        r
    }

    /// What draws the icons.
    pub closed spec fn renderer(&self) -> R {
        self.renderer
    }

    /// The icons of a key: those held, or newly rendered ones, which are held
    /// from then on.
    pub fn icons(&mut self, key: &IconKey) -> (r: Vec<Icon>)
        ensures
            final(self).renderer() == old(self).renderer(),
            holds(old(self)@, key@) ==> final(self)@ == old(self)@ && pictures(r@) == held_icons(
                old(self)@,
                key@,
            ),
            !holds(old(self)@, key@) ==> final(self)@ == old(self)@.push((key@, pictures(r@)))
                && exists|drawn: Vec<Icon>|
                pictures(drawn@) == pictures(r@) && #[trigger] call_ensures(
                    R::render,
                    (&old(self).renderer(), key.status, key.kind, &key.theme, key.mode, key.stale),
                    drawn,
                ),
    {
        let ghost all = self@;
        let mut i: usize = 0;
        assert(all.skip(0) == all);
        while i < self.icons.len()
            invariant
                *self == *old(self),
                all == self@,
                i <= self.icons@.len(),
                held_icons(all, key@) == held_icons(all.skip(i as int), key@),
                forall|k: int| 0 <= k < i ==> (#[trigger] all[k]).0 != key@,
            decreases self.icons@.len() - i,
        {
            assert(all[i as int] == (self.icons@[i as int].0@, pictures(
                self.icons@[i as int].1@,
            )));
            assert(all.skip(i as int).drop_first() == all.skip(i + 1));
            if self.icons[i].0.same(key) {
                return copy_icons(&self.icons[i].1);
            }
            i += 1;
        }
        let icons = self.renderer.render(key.status, key.kind, &key.theme, key.mode, key.stale);
        let r = copy_icons(&icons);
        let ghost before = self.icons@;
        self.icons.push((*key, icons));
        assert(self@ =~= entries(before).push((key@, pictures(r@))));
        r
    }

    /// Forgets every key `keep` rejects, so the cache holds only what is shown.
    pub fn retain<F: Fn(&IconKey) -> bool>(&mut self, keep: F)
        requires
            forall|key: &IconKey| #[trigger] keep.requires((key,)),
        ensures
            final(self).renderer() == old(self).renderer(),
            exists|flags: Seq<bool>|
                {
                    &&& flags.len() == old(self)@.len()
                    &&& forall|i: int|
                        0 <= i < flags.len() ==> answers(keep, old(self)@[i].0, #[trigger] flags[i])
                    &&& final(self)@ == #[trigger] kept(old(self)@, flags)
                },
    {
        let ghost all = self@;
        let mut rest: Vec<(IconKey, Vec<Icon>)> = Vec::new();
        std::mem::swap(&mut rest, &mut self.icons);
        let ghost list = rest@;
        let mut left: Vec<(IconKey, Vec<Icon>)> = Vec::new();
        let ghost mut flags: Seq<bool> = Seq::empty();
        assert(list.skip(0) == list);
        assert(entries(left@) =~= kept(all.take(0), flags));
        while rest.len() > 0
            invariant
                forall|key: &IconKey| #[trigger] keep.requires((key,)),
                self.renderer == old(self).renderer,
                all == entries(list),
                flags.len() <= list.len(),
                rest@ == list.skip(flags.len() as int),
                forall|i: int|
                    0 <= i < flags.len() ==> answers(keep, all[i].0, #[trigger] flags[i]),
                entries(left@) == kept(all.take(flags.len() as int), flags),
            decreases rest@.len(),
        {
            let ghost n = flags.len() as int;
            let entry = rest.remove(0);
            let yes = keep(&entry.0);
            let ghost before = left@;
            let ghost had = flags;
            proof {
                assert(entry == list[n]);
                assert(answers(keep, all[n].0, yes));
                flags = flags.push(yes);
                assert(list.skip(n).remove(0) =~= list.skip(n + 1));
                assert(all.take(n + 1).drop_last() == all.take(n));
                assert(all.take(n + 1).last() == all[n]);
                flags_before_matter(all.take(n), had, flags);
            }
            if yes {
                left.push(entry);
                assert(entries(left@) =~= entries(before).push(all[n]));
            }
        }
        self.icons = left;
        assert(all.take(flags.len() as int) == all);
    }
}

proof fn flags_before_matter(held: Seq<(Key, Seq<Picture>)>, a: Seq<bool>, b: Seq<bool>)
    requires
        held.len() <= a.len() <= b.len(),
        forall|i: int| 0 <= i < a.len() ==> a[i] == b[i],
    ensures
        kept(held, a) == kept(held, b),
    decreases held.len(),
{
    if held.len() > 0 {
        flags_before_matter(held.drop_last(), a, b);
    }
}

/// Asking for a key twice renders it once: the second time it is held.
pub proof fn a_key_is_rendered_once(
    held: Seq<(Key, Seq<Picture>)>,
    key: Key,
    icons: Seq<Picture>,
)
    requires
        !holds(held, key),
    ensures
        holds(held.push((key, icons)), key),
        held_icons(held.push((key, icons)), key) == icons,
    decreases held.len(),
{
    let after = held.push((key, icons));
    assert(after[held.len() as int].0 == key);
    if held.len() > 0 {
        assert(held[0].0 != key);
        assert forall|i: int| 0 <= i < held.drop_first().len() implies (
        #[trigger] held.drop_first()[i]).0 != key by {
            assert(held[i + 1].0 != key);
        }
        assert(after.drop_first() =~= held.drop_first().push((key, icons)));
        a_key_is_rendered_once(held.drop_first(), key, icons);
    }
}

} // verus!
