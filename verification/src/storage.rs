//! Volumes that a new installation can go to.
use crate::text::Text;
use vstd::prelude::*;

verus! {

/// A mounted volume.
pub struct StorageCandidate {
    pub mount_point: String,
    pub available_bytes: u64,
    pub total_bytes: u64,
    pub file_system: String,
    pub removable: bool,
}

/// What a [`StorageCandidate`] holds.
pub struct StorageView {
    pub mount_point: Text,
    pub available_bytes: u64,
    pub total_bytes: u64,
    pub file_system: Text,
    pub removable: bool,
}

impl DeepView for StorageCandidate {
    type V = StorageView;

    open spec fn deep_view(&self) -> StorageView {
        StorageView {
            mount_point: self.mount_point@,
            available_bytes: self.available_bytes,
            total_bytes: self.total_bytes,
            file_system: self.file_system@,
            removable: self.removable,
        }
    }
}

/// `s` with `x` before the volumes with less space at its end.
pub open spec fn placed_by_space(s: Seq<StorageView>, x: StorageView) -> Seq<StorageView>
    decreases s.len(),
{
    if s.len() == 0 || s.last().available_bytes >= x.available_bytes {
        s.push(x)
    } else {
        placed_by_space(s.drop_last(), x).push(s.last())
    }
}

/// `s` with the most available space first; volumes with the same space keep their order.
pub open spec fn by_space(s: Seq<StorageView>) -> Seq<StorageView>
    decreases s.len(),
{
    if s.len() == 0 {
        Seq::empty()
    } else {
        placed_by_space(by_space(s.drop_last()), s.last())
    }
}

proof fn placed_is_insert(s: Seq<StorageView>, x: StorageView, at: int)
    requires
        0 <= at <= s.len(),
        at == 0 || s[at - 1].available_bytes >= x.available_bytes,
        forall|k: int| at <= k < s.len() ==> (#[trigger] s[k]).available_bytes < x.available_bytes,
    ensures
        placed_by_space(s, x) == s.insert(at, x),
    decreases s.len(),
{
    if s.len() == 0 || s.last().available_bytes >= x.available_bytes {
        if s.len() > 0 && at < s.len() {
            assert(s[s.len() - 1].available_bytes < x.available_bytes);
        }
        assert(s.insert(at, x) =~= s.push(x));
    } else {
        placed_is_insert(s.drop_last(), x, at);
        assert(s.insert(at, x) =~= s.drop_last().insert(at, x).push(s.last()));
    }
}

/// The mounted volumes, the one with the most available space first.
pub fn storage_candidates(found: Vec<StorageCandidate>) -> (r: Vec<StorageCandidate>)
    ensures
        r.deep_view() == by_space(found.deep_view()),
{
    let ghost all = found.deep_view();
    let mut out: Vec<StorageCandidate> = Vec::new();
    assert(all.take(0) =~= Seq::empty());
    assert(out.deep_view() =~= Seq::empty());
    for x in it: found.into_iter()
        invariant
            it.seq() == found@,
            all == found.deep_view(),
            out.deep_view() == by_space(all.take(it.index() as int)),
    {
        let ghost k = it.index() as int;
        let ghost before = out.deep_view();
        let ghost view = x.deep_view();
        let mut at: usize = out.len();
        while at > 0 && out[at - 1].available_bytes < x.available_bytes
            invariant
                at <= out@.len(),
                before == out.deep_view(),
                forall|k: int|
                    at <= k < before.len() ==> (#[trigger] before[k]).available_bytes
                        < x.available_bytes,
            decreases at,
        {
            assert(before[at - 1] == out@[at - 1].deep_view());
            at -= 1;
        }
        proof {
            if at > 0 {
                assert(before[at - 1] == out@[at - 1].deep_view());
            }
            placed_is_insert(before, view, at as int);
            assert(all.take(k + 1).drop_last() =~= all.take(k));
        }
        out.insert(at, x);
        assert(out.deep_view() =~= before.insert(at as int, view));
    }
    assert(all.take(all.len() as int) =~= all);
    out
}

/// The least space that a recommended volume has more of: 2 GiB.
pub const LEAST_SPACE: u64 = 2147483648;

/// A volume that stays where it is and has room.
pub open spec fn suitable(c: StorageView) -> bool {
    !c.removable && c.available_bytes > LEAST_SPACE
}

/// The first suitable volume of `s` from `at` on.
pub open spec fn first_suitable(s: Seq<StorageView>, at: int) -> Option<StorageView>
    decreases s.len() - at,
{
    if at < 0 || at >= s.len() {
        None
    } else if suitable(s[at]) {
        Some(s[at])
    } else {
        first_suitable(s, at + 1)
    }
}

/// The volume that a new installation is recommended to go to: of those that stay where they are
/// and have room, the one with the most available space.
pub fn recommend_storage(found: Vec<StorageCandidate>) -> (r: Option<StorageCandidate>)
    ensures
        r.deep_view() == first_suitable(by_space(found.deep_view()), 0),
{
    let sorted = storage_candidates(found);
    let ghost s = sorted.deep_view();
    for x in it: sorted.into_iter()
        invariant
            it.seq() == sorted@,
            s == sorted.deep_view(),
            s == by_space(found.deep_view()),
            first_suitable(s, 0) == first_suitable(s, it.index() as int),
    {
        assert(s[it.index() as int] == x.deep_view());
        if !x.removable && x.available_bytes > LEAST_SPACE {
            return Some(x);
        }
    }
    None
}

}
