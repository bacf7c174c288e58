//! Replacing the users, and reporting what they use.

use super::jobs::Jobs;
use crate::ipc::{self, message_of, point_into, PointMessage};
use crate::model::{user_views, PointView, UserView, VfsPoint, VfsUser};
use crate::quota::state::{Bucket, QuotaState};
use crate::quota::QuotaCounter;
use crate::status::{exhausted, Status, StatusView};
use crate::text::{decimal, same, to_decimal, views};
use crate::utils::{is_local, is_local_scheme, quota_id, quota_key};
use vstd::prelude::*;

verus! {

// ── Replacing the users ─────────────────────────────────────────────────────

/// The first user of that name.
pub open spec fn user_named(users: Seq<UserView>, name: Seq<char>) -> Option<UserView>
    decreases users.len(),
{
    if users.len() == 0 {
        None
    } else if users[0].username == name {
        Some(users[0])
    } else {
        user_named(users.skip(1), name)
    }
}

/// Whether some point has that name.
pub open spec fn has_point(points: Seq<PointView>, name: Seq<char>) -> bool {
    exists|i: int| 0 <= i < points.len() && #[trigger] points[i].name == name
}

/// Whether the user `old` is gone from `new`, or is no longer the same.
pub open spec fn is_changed(old_user: UserView, new: Seq<UserView>) -> bool {
    user_named(new, old_user.username) != Some(old_user)
}

/// Whether `point` of the user `old` is raw data that `new` no longer has.
pub open spec fn is_dropped(old_user: UserView, point: PointView, new: Seq<UserView>) -> bool {
    !point.is_repo && match user_named(new, old_user.username) {
        Some(u) => !has_point(u.points, point.name),
        None => true,
    }
}

/// The users that are gone or no longer the same, in order.
pub open spec fn changed_users(old_users: Seq<UserView>, new: Seq<UserView>) -> Seq<UserView>
    decreases old_users.len(),
{
    if old_users.len() == 0 {
        Seq::empty()
    } else {
        let front = changed_users(old_users.drop_last(), new);
        if is_changed(old_users.last(), new) {
            front.push(old_users.last())
        } else {
            front
        }
    }
}

/// The quota ids of those of `points` that the user `old` no longer has.
pub open spec fn dropped_ids(
    old_user: UserView,
    points: Seq<PointView>,
    new: Seq<UserView>,
) -> Seq<Seq<char>>
    decreases points.len(),
{
    if points.len() == 0 {
        Seq::empty()
    } else {
        let front = dropped_ids(old_user, points.drop_last(), new);
        if is_dropped(old_user, points.last(), new) {
            front.push(quota_key(old_user.username, points.last().name))
        } else {
            front
        }
    }
}

/// The quota ids of all points that are gone, in order.
pub open spec fn removed_quotas(old_users: Seq<UserView>, new: Seq<UserView>) -> Seq<Seq<char>>
    decreases old_users.len(),
{
    if old_users.len() == 0 {
        Seq::empty()
    } else {
        removed_quotas(old_users.drop_last(), new) + dropped_ids(
            old_users.last(),
            old_users.last().points,
            new,
        )
    }
}

/// What follows from replacing the users.
#[derive(Debug)]
pub struct UserChange {
    /// The users whose jobs are to be cancelled and whose trees are to be
    /// built anew.
    pub changed: Vec<VfsUser>,
    /// The quota ids that are to be cleared.
    pub removed_quotas: Vec<String>,
}

/// The first user of that name.
fn find_user<'a>(users: &'a Vec<VfsUser>, name: &str) -> (r: Option<&'a VfsUser>)
    ensures
        match r {
            Some(u) => user_named(user_views(users@), name@) == Some(u@),
            None => user_named(user_views(users@), name@) is None,
        },
{
    let ghost all = user_views(users@);
    let mut i: usize = 0;
    assert(all.skip(0) =~= all);
    while i < users.len()
        invariant
            all == user_views(users@),
            i <= users@.len(),
            user_named(all, name@) == user_named(all.skip(i as int), name@),
        decreases users@.len() - i,
    {
        assert(all.skip(i as int)[0] == users@[i as int]@);
        assert(all.skip(i as int).skip(1) =~= all.skip(i + 1));
        if same(users[i].username.as_str(), name) {
            return Some(&users[i]);
        }
        i += 1;
    }
    None
}

/// Whether some point has that name.
fn find_point_name(points: &Vec<VfsPoint>, name: &str) -> (r: bool)
    ensures
        r == has_point(crate::model::point_views(points@), name@),
{
    let ghost all = crate::model::point_views(points@);
    let mut i: usize = 0;
    while i < points.len()
        invariant
            all == crate::model::point_views(points@),
            i <= points@.len(),
            forall|j: int| 0 <= j < i ==> #[trigger] all[j].name != name@,
        decreases points@.len() - i,
    {
        assert(all[i as int] == points@[i as int]@);
        if same(points[i].name.as_str(), name) {
            assert(all[i as int].name == name@);
            return true;
        }
        i += 1;
    }
    false
}

/// The user after it was looked up is unchanged where it says the same.
proof fn lemma_unchanged_drops_nothing(
    old_user: UserView,
    points: Seq<PointView>,
    new: Seq<UserView>,
)
    requires
        user_named(new, old_user.username) == Some(old_user),
        forall|i: int|
            0 <= i < points.len() ==> has_point(old_user.points, (#[trigger] points[i]).name),
    ensures
        dropped_ids(old_user, points, new) == Seq::<Seq<char>>::empty(),
    decreases points.len(),
{
    if points.len() > 0 {
        let front = points.drop_last();
        assert forall|i: int| 0 <= i < front.len() implies has_point(
            old_user.points,
            (#[trigger] front[i]).name,
        ) by {
            assert(front[i] == points[i]);
        }
        lemma_unchanged_drops_nothing(old_user, front, new);
        assert(points.last() == points[points.len() - 1]);
    }
}

/// Works out what follows from replacing `old_users` by `users`.
pub fn set_vfs(old_users: &Vec<VfsUser>, users: &Vec<VfsUser>) -> (r: UserChange)
    ensures
        user_views(r.changed@) == changed_users(user_views(old_users@), user_views(users@)),
        views(r.removed_quotas@) == removed_quotas(user_views(old_users@), user_views(users@)),
{
    let ghost all = user_views(old_users@);
    let ghost new = user_views(users@);
    let mut changed: Vec<VfsUser> = Vec::new();
    let mut removed: Vec<String> = Vec::new();
    let mut i: usize = 0;
    assert(all.take(0) =~= Seq::empty());
    assert(user_views(changed@) =~= Seq::empty());
    assert(views(removed@) =~= Seq::empty());
    while i < old_users.len()
        invariant
            all == user_views(old_users@),
            new == user_views(users@),
            i <= old_users@.len(),
            user_views(changed@) == changed_users(all.take(i as int), new),
            views(removed@) == removed_quotas(all.take(i as int), new),
        decreases old_users@.len() - i,
    {
        let old_user = &old_users[i];
        let ghost one = old_user@;
        proof {
            assert(all.take(i + 1).drop_last() =~= all.take(i as int));
            assert(all.take(i + 1).last() == one);
        }
        let found = find_user(users, old_user.username.as_str());
        let same_user = match found {
            Some(u) => *u == *old_user,
            None => false,
        };
        if same_user {
            proof {
                assert forall|k: int| 0 <= k < one.points.len() implies has_point(
                    one.points,
                    (#[trigger] one.points[k]).name,
                ) by {
                    assert(one.points[k].name == one.points[k].name);
                }
                lemma_unchanged_drops_nothing(one, one.points, new);
                assert(removed_quotas(all.take(i + 1), new) =~= removed_quotas(
                    all.take(i as int),
                    new,
                ));
            }
        } else {
            let ghost before = changed@;
            changed.push(old_user.clone());
            assert(user_views(changed@) =~= user_views(before).push(one));
            let ghost base = views(removed@);
            let mut k: usize = 0;
            assert(one.points.take(0) =~= Seq::empty());
            assert(base + dropped_ids(one, one.points.take(0), new) =~= base);
            while k < old_user.points.len()
                invariant
                    one == old_user@,
                    new == user_views(users@),
                    k <= old_user.points@.len(),
                    match found {
                        Some(u) => user_named(new, one.username) == Some(u@),
                        None => user_named(new, one.username) is None,
                    },
                    views(removed@) == base + dropped_ids(one, one.points.take(k as int), new),
                decreases old_user.points@.len() - k,
            {
                let point = &old_user.points[k];
                proof {
                    assert(one.points.take(k + 1).drop_last() =~= one.points.take(k as int));
                    assert(one.points.take(k + 1).last() == point@);
                }
                let gone = match found {
                    Some(u) => !find_point_name(&u.points, point.name.as_str()),
                    None => true,
                };
                if gone && !point.is_repo {
                    let ghost r0 = removed@;
                    let id = quota_id(old_user.username.as_str(), point.name.as_str());
                    removed.push(id);
                    assert(views(removed@) =~= views(r0).push(id@));
                    assert(views(removed@) =~= base + dropped_ids(
                        one,
                        one.points.take(k + 1),
                        new,
                    ));
                }
                k += 1;
            }
            assert(one.points.take(old_user.points@.len() as int) =~= one.points);
        }
        i += 1;
    }
    assert(all.take(old_users@.len() as int) =~= all);
    UserChange { changed, removed_quotas: removed }
}

/// The totals once those of `ids` were set to zero.
pub open spec fn cleared(
    buckets: Map<Seq<char>, Bucket>,
    ids: Seq<Seq<char>>,
) -> Map<Seq<char>, Bucket>
    decreases ids.len(),
{
    if ids.len() == 0 {
        buckets
    } else {
        cleared(buckets, ids.drop_last()).insert(
            ids.last(),
            Bucket::Ready(QuotaCounter { bytes: 0, dirty: true }),
        )
    }
}

/// The new users were stored: gives the jobs that are to be cancelled, before
/// anything that they work on is closed or cleared.
pub fn jobs_to_cancel(change: &UserChange, jobs: &Jobs) -> (r: Vec<u128>)
    ensures
        forall|id: u128| #[trigger]
            r@.contains(id) <==> jobs.running().contains_key(id) && exists|i: int|
                0 <= i < change.changed@.len() && (#[trigger] change.changed@[i]).username@
                    == jobs.running()[id],
{
    let mut names: Vec<String> = Vec::new();
    let mut i: usize = 0;
    while i < change.changed.len()
        invariant
            i <= change.changed@.len(),
            names@.len() == i,
            forall|j: int|
                0 <= j < i ==> #[trigger] names@[j]@ == change.changed@[j].username@,
        decreases change.changed@.len() - i,
    {
        names.push(change.changed[i].username.clone());
        i += 1;
    }
    let ids = jobs.jobs_of(&names);
    proof {
        assert forall|name: Seq<char>| #[trigger]
            views(names@).contains(name) <==> exists|i: int|
                0 <= i < change.changed@.len() && (#[trigger] change.changed@[i]).username@
                    == name by {
            if views(names@).contains(name) {
                let k = choose|k: int| 0 <= k < names@.len() && views(names@)[k] == name;
                assert(names@[k]@ == change.changed@[k].username@);
            }
            if exists|i: int|
                0 <= i < change.changed@.len() && (#[trigger] change.changed@[i]).username@
                    == name {
                let k = choose|i: int|
                    0 <= i < change.changed@.len() && (#[trigger] change.changed@[i]).username@
                        == name;
                assert(names@[k]@ == name);
                assert(views(names@)[k] == name);
            }
        }
    }
    ids
}

/// The jobs of changed users were cancelled: clears the quotas of the points
/// that are gone.
pub fn clear_removed(change: &UserChange, quota: &mut QuotaState)
    ensures
        final(quota)@ == cleared(old(quota)@, views(change.removed_quotas@)),
{
    let ghost all = views(change.removed_quotas@);
    let ghost before = quota@;
    let mut k: usize = 0;
    assert(all.take(0) =~= Seq::empty());
    while k < change.removed_quotas.len()
        invariant
            all == views(change.removed_quotas@),
            k <= change.removed_quotas@.len(),
            quota@ == cleared(before, all.take(k as int)),
        decreases change.removed_quotas@.len() - k,
    {
        assert(all.take(k + 1).drop_last() =~= all.take(k as int));
        quota.clear(change.removed_quotas[k].as_str());
        k += 1;
    }
    assert(all.take(all.len() as int) =~= all);
}

// ── Reporting usage ─────────────────────────────────────────────────────────

/// Where the bytes that a point uses are counted.
#[derive(Debug)]
pub enum Usage {
    /// On its disk: raw data on local disk is measured.
    Disk,
    /// Under a quota id.
    Counter { id: String },
}

/// Where the bytes of `point` are counted.
pub fn usage_of(user: &VfsUser, point: &VfsPoint) -> (r: Usage)
    ensures
        if !point@.is_repo && is_local(point@.scheme) {
            r is Disk
        } else {
            r matches Usage::Counter { id } && id@ == quota_key(user@.username, point@.name)
        },
{
    if !point.is_repo && is_local_scheme(point.scheme.as_str()) {
        Usage::Disk
    } else {
        Usage::Counter { id: quota_id(user.username.as_str(), point.name.as_str()) }
    }
}

/// What is reported for a disk that was measured, or could not be. A point
/// that cannot be measured does not keep the others from being reported.
pub fn disk_usage(measured: Option<u64>) -> (r: u64)
    ensures
        r == match measured {
            Some(bytes) => bytes,
            None => 0,
        },
{
    match measured {
        Some(bytes) => bytes,
        None => 0,
    }
}

/// What a [`VfsInfo`] says.
#[verifier::ext_equal]
pub struct InfoView {
    pub user: Seq<char>,
    pub point: PointMessage,
    pub used_bytes: u64,
}

/// A point and what it uses.
#[derive(Debug)]
pub struct VfsInfo {
    pub user: String,
    pub point: ipc::VfsPoint,
    pub used_bytes: u64,
}

impl View for VfsInfo {
    type V = InfoView;

    open spec fn view(&self) -> InfoView {
        InfoView { user: self.user@, point: self.point@, used_bytes: self.used_bytes }
    }
}

/// Every point of every user, in order, as the places of the user and of the
/// point.
pub open spec fn places(users: Seq<UserView>) -> Seq<(int, int)>
    decreases users.len(),
{
    if users.len() == 0 {
        Seq::empty()
    } else {
        places(users.drop_last()) + Seq::new(
            users.last().points.len(),
            |k: int| (users.len() - 1, k),
        )
    }
}

/// The pairs as mathematical integers.
pub open spec fn as_ints(v: Seq<(usize, usize)>) -> Seq<(int, int)> {
    v.map_values(|p: (usize, usize)| (p.0 as int, p.1 as int))
}

/// Every place is that of a point.
pub proof fn lemma_places(users: Seq<UserView>, k: int)
    requires
        0 <= k < places(users).len(),
    ensures
        0 <= places(users)[k].0 < users.len(),
        0 <= places(users)[k].1 < users[places(users)[k].0].points.len(),
    decreases users.len(),
{
    let front = users.drop_last();
    if k < places(front).len() {
        lemma_places(front, k);
        assert(places(users)[k] == places(front)[k]);
        assert(front[places(front)[k].0] == users[places(front)[k].0]);
    } else {
        assert(places(users)[k] == (users.len() - 1, k - places(front).len()));
    }
}

/// Every point of every user, in the order in which they are reported.
pub fn point_places(users: &Vec<VfsUser>) -> (r: Vec<(usize, usize)>)
    ensures
        as_ints(r@) == places(user_views(users@)),
{
    let ghost all = user_views(users@);
    let mut out: Vec<(usize, usize)> = Vec::new();
    let mut i: usize = 0;
    assert(all.take(0) =~= Seq::empty());
    assert(as_ints(out@) =~= Seq::empty());
    while i < users.len()
        invariant
            all == user_views(users@),
            i <= users@.len(),
            as_ints(out@) == places(all.take(i as int)),
        decreases users@.len() - i,
    {
        let ghost before = as_ints(out@);
        let ghost count = users@[i as int].points@.len();
        proof {
            assert(all.take(i + 1).drop_last() =~= all.take(i as int));
            assert(all.take(i + 1).last() == users@[i as int]@);
            assert(as_ints(out@) =~= before + Seq::new(0, |m: int| (i as int, m)));
        }
        let mut k: usize = 0;
        while k < users[i].points.len()
            invariant
                i < users@.len(),
                k <= users@[i as int].points@.len(),
                as_ints(out@) == before + Seq::new(k as nat, |m: int| (i as int, m)),
            decreases users@[i as int].points@.len() - k,
        {
            let ghost o = out@;
            out.push((i, k));
            assert(as_ints(out@) =~= as_ints(o).push((i as int, k as int)));
            assert(as_ints(out@) =~= before + Seq::new((k + 1) as nat, |m: int| (i as int, m)));
            k += 1;
        }
        assert(as_ints(out@) =~= places(all.take(i + 1)));
        i += 1;
    }
    assert(all.take(users@.len() as int) =~= all);
    out
}

/// What is reported for a point.
pub open spec fn info_of(user: UserView, point: PointView, used: u64) -> InfoView {
    InfoView { user: user.username, point: message_of(point), used_bytes: used }
}

/// Reports every point of every user, where `used` holds what each uses in the
/// order of [`point_places`].
pub fn get_vfs(users: &Vec<VfsUser>, used: &Vec<u64>) -> (r: Vec<VfsInfo>)
    requires
        used@.len() == places(user_views(users@)).len(),
    ensures
        r@.len() == used@.len(),
        forall|k: int|
            0 <= k < used@.len() ==> (#[trigger] r@[k])@ == {
                let p = places(user_views(users@))[k];
                let user = user_views(users@)[p.0];
                info_of(user, user.points[p.1], used@[k])
            },
{
    let ghost all = user_views(users@);
    let at = point_places(users);
    assert(at@.len() == as_ints(at@).len());
    let mut out: Vec<VfsInfo> = Vec::new();
    let mut k: usize = 0;
    while k < used.len()
        invariant
            all == user_views(users@),
            as_ints(at@) == places(all),
            at@.len() == used@.len(),
            k <= used@.len(),
            out@.len() == k,
            forall|j: int|
                0 <= j < k ==> (#[trigger] out@[j])@ == {
                    let p = places(user_views(users@))[j];
                    let user = user_views(users@)[p.0];
                    info_of(user, user.points[p.1], used@[j])
                },
        decreases used@.len() - k,
    {
        let (i, j) = at[k];
        proof {
            lemma_places(all, k as int);
            assert(as_ints(at@)[k as int] == (i as int, j as int));
            assert(all[i as int] == users@[i as int]@);
        }
        let info = VfsInfo {
            user: users[i].username.clone(),
            point: point_into(&users[i].points[j]),
            used_bytes: used[k],
        };
        assert(all[i as int].points[j as int] == users@[i as int].points@[j as int]@);
        out.push(info);
        k += 1;
    }
    out
}

// ── Limits on local disk ────────────────────────────────────────────────────

/// Whether a point on local disk must be measured before it grows.
pub fn must_measure(max_bytes: Option<u64>, growth: u64) -> (r: bool)
    ensures
        r == (max_bytes is Some && growth != 0),
{
    match max_bytes {
        Some(_) => growth != 0,
        None => false,
    }
}

/// By how much a file of `existing` bytes grows when it becomes `len` bytes
/// long.
pub fn growth_of(len: u64, existing: u64) -> (r: u64)
    ensures
        r == if len > existing {
            len - existing
        } else {
            0
        },
{
    if len > existing {
        len - existing
    } else {
        0
    }
}

/// Whether a point on local disk that holds `used` bytes may grow.
pub open spec fn may_grow(used: u64, max_bytes: Option<u64>, growth: u64) -> Result<(), StatusView> {
    match max_bytes {
        Some(max) if growth != 0 && used + growth > max => Err(
            exhausted(
                "write would exceed point quota ("@ + decimal(used as nat) + " + "@ + decimal(
                    growth as nat,
                ) + " > "@ + decimal(max as nat) + " bytes)"@,
            ),
        ),
        _ => Ok(()),
    }
}

/// Checks that a point on local disk that holds `used` bytes may grow by
/// `growth` bytes. Where [`must_measure`] says no, `used` does not matter.
pub fn check_local_quota(used: u64, max_bytes: Option<u64>, growth: u64) -> (r: Result<(), Status>)
    ensures
        match r {
            Ok(_) => may_grow(used, max_bytes, growth) is Ok,
            Err(e) => may_grow(used, max_bytes, growth) == Err::<(), StatusView>(e@),
        },
{
    if !must_measure(max_bytes, growth) {
        return Ok(());
    }
    match max_bytes {
        Some(max) => {
            if used > u64::MAX - growth || used + growth > max {
                return Err(
                    Status::resource_exhausted(
                        "write would exceed point quota (".to_owned().concat(
                            to_decimal(used as u128).as_str(),
                        ).concat(" + ").concat(to_decimal(growth as u128).as_str()).concat(
                            " > ",
                        ).concat(to_decimal(max as u128).as_str()).concat(" bytes)"),
                    ),
                );
            }
            Ok(())
        },
        None => Ok(()),
    }
}

// ── Laws ────────────────────────────────────────────────────────────────────

/// Storing the users that are there already changes nothing, as long as no two
/// of them share a name.
pub proof fn law_same_users_change_nothing(users: Seq<UserView>)
    requires
        forall|i: int, j: int|
            0 <= i < j < users.len() ==> (#[trigger] users[i]).username != (
            #[trigger] users[j]).username,
    ensures
        changed_users(users, users) == Seq::<UserView>::empty(),
        removed_quotas(users, users) == Seq::<Seq<char>>::empty(),
{
    lemma_kept(users, users.len() as int, users);
    assert(users.take(users.len() as int) =~= users);
}

/// The first `n` of users that all are kept change nothing.
proof fn lemma_kept(old_users: Seq<UserView>, n: int, new: Seq<UserView>)
    requires
        0 <= n <= old_users.len(),
        old_users == new,
        forall|i: int, j: int|
            0 <= i < j < new.len() ==> (#[trigger] new[i]).username != (#[trigger] new[j]).username,
    ensures
        changed_users(old_users.take(n), new) == Seq::<UserView>::empty(),
        removed_quotas(old_users.take(n), new) == Seq::<Seq<char>>::empty(),
    decreases n,
{
    if n > 0 {
        lemma_kept(old_users, n - 1, new);
        let t = old_users.take(n);
        let u = t.last();
        assert(t.drop_last() =~= old_users.take(n - 1));
        assert(u == new[n - 1]);
        lemma_user_named(new, n - 1);
        assert forall|k: int| 0 <= k < u.points.len() implies has_point(
            u.points,
            (#[trigger] u.points[k]).name,
        ) by {
            assert(u.points[k].name == u.points[k].name);
        }
        lemma_unchanged_drops_nothing(u, u.points, new);
        assert(removed_quotas(t, new) =~= Seq::<Seq<char>>::empty());
    } else {
        assert(old_users.take(0) =~= Seq::empty());
    }
}

/// Where no two users share a name, each is found under its own.
pub proof fn lemma_user_named(users: Seq<UserView>, k: int)
    requires
        0 <= k < users.len(),
        forall|i: int, j: int|
            0 <= i < j < users.len() ==> (#[trigger] users[i]).username != (
            #[trigger] users[j]).username,
    ensures
        user_named(users, users[k].username) == Some(users[k]),
    decreases k,
{
    if k > 0 {
        let rest = users.skip(1);
        assert(users[0].username != users[k].username);
        assert forall|i: int, j: int| 0 <= i < j < rest.len() implies (
        #[trigger] rest[i]).username != (#[trigger] rest[j]).username by {
            assert(rest[i] == users[i + 1]);
            assert(rest[j] == users[j + 1]);
        }
        lemma_user_named(rest, k - 1);
        assert(rest[k - 1] == users[k]);
    }
}

/// Whether `id` counts the bytes of a point that is gone.
pub open spec fn is_removed_id(
    old_users: Seq<UserView>,
    new: Seq<UserView>,
    id: Seq<char>,
) -> bool {
    exists|i: int, k: int|
        {
            &&& 0 <= i < old_users.len()
            &&& 0 <= k < old_users[i].points.len()
            &&& is_dropped(old_users[i], #[trigger] old_users[i].points[k], new)
            &&& id == quota_key(old_users[i].username, old_users[i].points[k].name)
        }
}

/// The ids of one user's points that are gone are exactly those.
proof fn lemma_dropped_ids(
    old_user: UserView,
    points: Seq<PointView>,
    new: Seq<UserView>,
    id: Seq<char>,
)
    ensures
        dropped_ids(old_user, points, new).contains(id) <==> exists|k: int|
            0 <= k < points.len() && is_dropped(old_user, #[trigger] points[k], new) && id
                == quota_key(old_user.username, points[k].name),
    decreases points.len(),
{
    if points.len() > 0 {
        let rest = points.drop_last();
        let front = dropped_ids(old_user, rest, new);
        let all = dropped_ids(old_user, points, new);
        lemma_dropped_ids(old_user, rest, new, id);
        if all.contains(id) {
            let m = choose|m: int| 0 <= m < all.len() && all[m] == id;
            if m < front.len() {
                assert(front[m] == id);
                let k = choose|k: int|
                    0 <= k < rest.len() && is_dropped(old_user, #[trigger] rest[k], new) && id
                        == quota_key(old_user.username, rest[k].name);
                assert(rest[k] == points[k]);
            } else {
                assert(points[points.len() - 1] == points.last());
            }
        }
        if exists|k: int|
            0 <= k < points.len() && is_dropped(old_user, #[trigger] points[k], new) && id
                == quota_key(old_user.username, points[k].name) {
            let k = choose|k: int|
                0 <= k < points.len() && is_dropped(old_user, #[trigger] points[k], new) && id
                    == quota_key(old_user.username, points[k].name);
            if k == points.len() - 1 {
                assert(all[all.len() - 1] == id);
            } else {
                assert(rest[k] == points[k]);
                let m = choose|m: int| 0 <= m < front.len() && front[m] == id;
                assert(all[m] == id);
            }
        }
    }
}

/// The quotas that are cleared are exactly those of raw data that is gone,
/// whatever else was changed.
pub proof fn law_quotas_go_with_their_points(
    old_users: Seq<UserView>,
    new: Seq<UserView>,
    id: Seq<char>,
)
    ensures
        removed_quotas(old_users, new).contains(id) <==> is_removed_id(old_users, new, id),
    decreases old_users.len(),
{
    if old_users.len() > 0 {
        let rest = old_users.drop_last();
        let n = old_users.len() - 1;
        let front = removed_quotas(rest, new);
        let back = dropped_ids(old_users[n], old_users[n].points, new);
        let all = removed_quotas(old_users, new);
        assert(all == front + back);
        law_quotas_go_with_their_points(rest, new, id);
        lemma_dropped_ids(old_users[n], old_users[n].points, new, id);
        if all.contains(id) {
            let m = choose|m: int| 0 <= m < all.len() && all[m] == id;
            if m < front.len() {
                assert(front[m] == id);
                let (i, k) = choose|i: int, k: int|
                    {
                        &&& 0 <= i < rest.len()
                        &&& 0 <= k < rest[i].points.len()
                        &&& is_dropped(rest[i], #[trigger] rest[i].points[k], new)
                        &&& id == quota_key(rest[i].username, rest[i].points[k].name)
                    };
                assert(rest[i] == old_users[i]);
                assert(is_dropped(old_users[i], old_users[i].points[k], new));
            } else {
                assert(back[m - front.len()] == id);
                let k = choose|k: int|
                    0 <= k < old_users[n].points.len() && is_dropped(
                        old_users[n],
                        #[trigger] old_users[n].points[k],
                        new,
                    ) && id == quota_key(old_users[n].username, old_users[n].points[k].name);
                assert(is_dropped(old_users[n], old_users[n].points[k], new));
            }
        }
        if is_removed_id(old_users, new, id) {
            let (i, k) = choose|i: int, k: int|
                {
                    &&& 0 <= i < old_users.len()
                    &&& 0 <= k < old_users[i].points.len()
                    &&& is_dropped(old_users[i], #[trigger] old_users[i].points[k], new)
                    &&& id == quota_key(old_users[i].username, old_users[i].points[k].name)
                };
            if i == n {
                let m = choose|m: int| 0 <= m < back.len() && back[m] == id;
                assert(all[front.len() + m] == id);
            } else {
                assert(rest[i] == old_users[i]);
                assert(is_dropped(rest[i], rest[i].points[k], new));
                let m = choose|m: int| 0 <= m < front.len() && front[m] == id;
                assert(all[m] == id);
            }
        }
    }
}

/// The users that are gone or no longer the same are exactly those whose jobs
/// are cancelled.
pub proof fn law_changed_users_are_found(old_users: Seq<UserView>, new: Seq<UserView>, u: UserView)
    ensures
        changed_users(old_users, new).contains(u) <==> old_users.contains(u) && is_changed(u, new),
    decreases old_users.len(),
{
    if old_users.len() > 0 {
        let rest = old_users.drop_last();
        let front = changed_users(rest, new);
        let all = changed_users(old_users, new);
        law_changed_users_are_found(rest, new, u);
        if all.contains(u) {
            let m = choose|m: int| 0 <= m < all.len() && all[m] == u;
            if m < front.len() {
                assert(front[m] == u);
                let i = choose|i: int| 0 <= i < rest.len() && rest[i] == u;
                assert(old_users[i] == u);
            } else {
                assert(old_users[old_users.len() - 1] == u);
            }
        }
        if old_users.contains(u) && is_changed(u, new) {
            let i = choose|i: int| 0 <= i < old_users.len() && old_users[i] == u;
            if i == old_users.len() - 1 {
                assert(all[all.len() - 1] == u);
            } else {
                assert(rest[i] == u);
                let m = choose|m: int| 0 <= m < front.len() && front[m] == u;
                assert(all[m] == u);
            }
        }
    }
}

/// A user that is removed is changed, and every quota of its raw data goes.
pub proof fn law_removed_user_loses_quotas(
    old_users: Seq<UserView>,
    new: Seq<UserView>,
    i: int,
    k: int,
)
    requires
        0 <= i < old_users.len(),
        user_named(new, old_users[i].username) is None,
        0 <= k < old_users[i].points.len(),
        !old_users[i].points[k].is_repo,
    ensures
        changed_users(old_users, new).contains(old_users[i]),
        removed_quotas(old_users, new).contains(
            quota_key(old_users[i].username, old_users[i].points[k].name),
        ),
{
    let id = quota_key(old_users[i].username, old_users[i].points[k].name);
    law_changed_users_are_found(old_users, new, old_users[i]);
    law_quotas_go_with_their_points(old_users, new, id);
    assert(is_dropped(old_users[i], old_users[i].points[k], new));
    assert(is_removed_id(old_users, new, id));
}

/// A quota that is not cleared keeps its total, and one that is starts anew.
pub proof fn law_clearing_is_exact(
    buckets: Map<Seq<char>, Bucket>,
    ids: Seq<Seq<char>>,
    id: Seq<char>,
)
    ensures
        if ids.contains(id) {
            &&& cleared(buckets, ids).contains_key(id)
            &&& cleared(buckets, ids)[id] == Bucket::Ready(QuotaCounter { bytes: 0, dirty: true })
        } else {
            &&& cleared(buckets, ids).contains_key(id) == buckets.contains_key(id)
            &&& cleared(buckets, ids)[id] == buckets[id]
        },
    decreases ids.len(),
{
    if ids.len() > 0 {
        let front = ids.drop_last();
        law_clearing_is_exact(buckets, front, id);
        if ids.contains(id) && id != ids.last() {
            let k = choose|k: int| 0 <= k < ids.len() && ids[k] == id;
            assert(front[k] == id);
        }
        if front.contains(id) {
            let k = choose|k: int| 0 <= k < front.len() && front[k] == id;
            assert(ids[k] == id);
        }
        if id == ids.last() {
            assert(ids[ids.len() - 1] == id);
        }
    }
}

/// A point that its user still has keeps its total, whatever becomes of the
/// points of others.
pub proof fn law_kept_point_keeps_its_total(
    old_users: Seq<UserView>,
    new: Seq<UserView>,
    buckets: Map<Seq<char>, Bucket>,
    username: Seq<char>,
    name: Seq<char>,
)
    requires
        user_named(new, username) matches Some(u) && has_point(u.points, name),
    ensures
        ({
            let id = quota_key(username, name);
            let after = cleared(buckets, removed_quotas(old_users, new));
            &&& !removed_quotas(old_users, new).contains(id)
            &&& after.contains_key(id) == buckets.contains_key(id)
            &&& after[id] == buckets[id]
        }),
{
    let id = quota_key(username, name);
    law_quotas_go_with_their_points(old_users, new, id);
    if is_removed_id(old_users, new, id) {
        let (i, k) = choose|i: int, k: int|
            {
                &&& 0 <= i < old_users.len()
                &&& 0 <= k < old_users[i].points.len()
                &&& is_dropped(old_users[i], #[trigger] old_users[i].points[k], new)
                &&& id == quota_key(old_users[i].username, old_users[i].points[k].name)
            };
        let other = old_users[i];
        if other.username != username || other.points[k].name != name {
            crate::utils::law_quota_ids_isolate_users(
                other.username,
                other.points[k].name,
                username,
                name,
            );
        }
    }
    law_clearing_is_exact(buckets, removed_quotas(old_users, new), id);
}

/// What is allowed to grow stays within its limit, and nothing that does is
/// refused: under a limit, growth is allowed exactly where what is used and
/// what is added fit into it together. Without a limit, and without growth,
/// nothing is refused.
pub proof fn law_allowed_growth_stays_within_the_limit(
    used: u64,
    max_bytes: Option<u64>,
    growth: u64,
    r: Result<(), Status>,
)
    requires
        call_ensures(check_local_quota, (used, max_bytes, growth), r),
    ensures
        max_bytes matches Some(max) ==> growth > 0 ==> (r is Ok <==> used as int + growth as int
            <= max as int),
        max_bytes is None ==> r is Ok,
        growth == 0 ==> r is Ok,
        r matches Err(e) ==> {
            &&& e.code == crate::status::Code::ResourceExhausted
            &&& max_bytes matches Some(max) && e.message@ == "write would exceed point quota ("@
                + decimal(used as nat) + " + "@ + decimal(growth as nat) + " > "@ + decimal(
                max as nat,
            ) + " bytes)"@
        },
{
}

/// Growing in steps is never allowed where growing at once is not: whatever is
/// written in which order, the limit holds.
pub proof fn law_growth_in_steps_keeps_the_limit(
    used: u64,
    max: u64,
    first: u64,
    second: u64,
    a: Result<(), Status>,
    b: Result<(), Status>,
    whole: Result<(), Status>,
)
    requires
        first > 0,
        second > 0,
        used + first + second <= u64::MAX,
        call_ensures(check_local_quota, (used, Some(max), first), a),
        call_ensures(check_local_quota, ((used + first) as u64, Some(max), second), b),
        call_ensures(check_local_quota, (used, Some(max), (first + second) as u64), whole),
    ensures
        a is Ok && b is Ok <==> whole is Ok,
        whole is Ok ==> used + first + second <= max,
{
}

/// A point is measured only where the measure matters: where it need not be
/// measured, the outcome is the same whatever is used, and where it must be,
/// some use is refused or allowed by it.
pub proof fn law_measured_only_where_it_matters(
    max_bytes: Option<u64>,
    growth: u64,
    must: bool,
    used: u64,
    r: Result<(), Status>,
)
    requires
        call_ensures(must_measure, (max_bytes, growth), must),
        call_ensures(check_local_quota, (used, max_bytes, growth), r),
    ensures
        !must ==> r is Ok,
        must ==> max_bytes is Some && growth > 0,
        must && used == u64::MAX ==> r is Err,
{
}

/// A file that becomes `len` bytes long grows by what it is short of, and never
/// shrinks.
pub proof fn law_growth_is_what_is_missing(len: u64, existing: u64, r: u64)
    requires
        call_ensures(growth_of, (len, existing), r),
    ensures
        existing + r >= len,
        r > 0 ==> existing + r == len,
{
}

/// Where the first user of a name stands.
proof fn lemma_user_at(users: Seq<UserView>, name: Seq<char>) -> (i: int)
    ensures
        match user_named(users, name) {
            Some(u) => {
                &&& 0 <= i < users.len()
                &&& u == users[i]
                &&& users[i].username == name
                &&& forall|j: int| 0 <= j < i ==> #[trigger] users[j].username != name
            },
            None => forall|j: int| 0 <= j < users.len() ==> #[trigger] users[j].username != name,
        },
    decreases users.len(),
{
    if users.len() == 0 || users[0].username == name {
        0
    } else {
        let rest = users.skip(1);
        let i = lemma_user_at(rest, name);
        assert forall|j: int|
            0 <= j < users.len() && j <= i || (user_named(rest, name) is None && 0 <= j
                < users.len()) implies #[trigger] users[j].username != name by {
            if j > 0 {
                assert(rest[j - 1] == users[j]);
            }
        }
        i + 1
    }
}

/// A user is found to have changed exactly where the first new user of its name
/// is not there or says anything else: a password, a number or order of points,
/// or any field of any point. What is found are users that were there before.
pub proof fn law_every_change_of_a_user_is_found(
    old_users: &Vec<VfsUser>,
    users: &Vec<VfsUser>,
    r: UserChange,
    i: int,
    j: int,
)
    requires
        call_ensures(set_vfs, (old_users, users), r),
        0 <= i < old_users@.len(),
    ensures
        (forall|m: int|
            0 <= m < users@.len() ==> (#[trigger] users@[m]).username@ != old_users@[i].username@)
            ==> exists|k: int|
            0 <= k < r.changed@.len() && (#[trigger] r.changed@[k])@ == old_users@[i]@,
        0 <= j < users@.len() && users@[j].username@ == old_users@[i].username@ && (forall|m: int|
            0 <= m < j ==> (#[trigger] users@[m]).username@ != old_users@[i].username@) ==> {
            (exists|k: int|
                0 <= k < r.changed@.len() && (#[trigger] r.changed@[k])@ == old_users@[i]@) <==> {
                ||| users@[j].password@ != old_users@[i].password@
                ||| users@[j].points@.len() != old_users@[i].points@.len()
                ||| exists|p: int|
                    0 <= p < users@[j].points@.len() && (#[trigger] users@[j].points@[p])@
                        != old_users@[i].points@[p]@
            }
        },
        forall|k: int|
            0 <= k < r.changed@.len() ==> exists|m: int|
                0 <= m < old_users@.len() && (#[trigger] old_users@[m])@ == (
                #[trigger] r.changed@[k])@,
{
    let old_views = user_views(old_users@);
    let new = user_views(users@);
    let u = old_views[i];
    assert forall|m: int| 0 <= m < users@.len() implies (#[trigger] users@[m]).username@
        == new[m].username by {}
    lemma_changed_is(old_users, users, r, u);
    assert(old_views.contains(u));
    let at = lemma_user_at(new, u.username);
    if 0 <= j < users@.len() && users@[j].username@ == old_users@[i].username@ && (forall|m: int|
        0 <= m < j ==> (#[trigger] users@[m]).username@ != old_users@[i].username@) {
        assert(new[j].username == u.username);
        assert(at == j) by {
            if at < j {
                assert(users@[at].username@ != old_users@[i].username@);
            }
        }
        let v = new[j];
        assert(v.points.len() == users@[j].points@.len());
        assert forall|p: int| 0 <= p < users@[j].points@.len() implies (
        #[trigger] users@[j].points@[p])@ == v.points[p] by {}
        if users@[j].password@ == old_users@[i].password@ && users@[j].points@.len()
            == old_users@[i].points@.len() && (forall|p: int|
            0 <= p < users@[j].points@.len() ==> (#[trigger] users@[j].points@[p])@
                == old_users@[i].points@[p]@) {
            assert(v.points =~= u.points);
            assert(v =~= u);
        }
        if v == u {
            assert forall|p: int| 0 <= p < users@[j].points@.len() implies (
            #[trigger] users@[j].points@[p])@ == old_users@[i].points@[p]@ by {
                assert(v.points[p] == u.points[p]);
            }
        }
    }
    assert forall|k: int| 0 <= k < r.changed@.len() implies exists|m: int|
        0 <= m < old_users@.len() && (#[trigger] old_users@[m])@ == (
        #[trigger] r.changed@[k])@ by {
        let c = r.changed@[k]@;
        lemma_changed_is(old_users, users, r, c);
        assert(old_views.contains(c));
        let m = choose|m: int| 0 <= m < old_views.len() && old_views[m] == c;
        assert(old_users@[m]@ == c);
    }
}

/// The users that are found to have changed.
proof fn lemma_changed_is(
    old_users: &Vec<VfsUser>,
    users: &Vec<VfsUser>,
    r: UserChange,
    u: UserView,
)
    requires
        call_ensures(set_vfs, (old_users, users), r),
    ensures
        (exists|k: int| 0 <= k < r.changed@.len() && (#[trigger] r.changed@[k])@ == u) <==> {
            &&& user_views(old_users@).contains(u)
            &&& user_named(user_views(users@), u.username) != Some(u)
        },
{
    let all = user_views(r.changed@);
    law_changed_users_are_found(user_views(old_users@), user_views(users@), u);
    if all.contains(u) {
        let k = choose|k: int| 0 <= k < all.len() && all[k] == u;
        assert(r.changed@[k]@ == u);
    }
    if exists|k: int| 0 <= k < r.changed@.len() && (#[trigger] r.changed@[k])@ == u {
        let k = choose|k: int| 0 <= k < r.changed@.len() && (#[trigger] r.changed@[k])@ == u;
        assert(all[k] == u);
    }
}

/// Every running job of a user that has changed is cancelled, and no job of a
/// user that has not: a user that is gone has changed, and so has one whose
/// first new namesake says anything else.
pub proof fn law_jobs_of_changed_users_are_cancelled(
    old_users: &Vec<VfsUser>,
    users: &Vec<VfsUser>,
    change: UserChange,
    jobs: &Jobs,
    r: Vec<u128>,
    id: u128,
)
    requires
        call_ensures(set_vfs, (old_users, users), change),
        call_ensures(jobs_to_cancel, (&change, jobs), r),
    ensures
        r@.contains(id) <==> {
            &&& jobs.running().contains_key(id)
            &&& exists|i: int|
                {
                    &&& 0 <= i < old_users@.len()
                    &&& (#[trigger] old_users@[i]).username@ == jobs.running()[id]
                    &&& !(exists|j: int|
                        {
                            &&& 0 <= j < users@.len()
                            &&& (#[trigger] users@[j])@ == old_users@[i]@
                            &&& forall|m: int|
                                0 <= m < j ==> (#[trigger] users@[m]).username@
                                    != old_users@[i].username@
                        })
                }
        },
{
    let old_views = user_views(old_users@);
    let new = user_views(users@);
    if r@.contains(id) {
        let k = choose|k: int|
            0 <= k < change.changed@.len() && (#[trigger] change.changed@[k]).username@
                == jobs.running()[id];
        let u = change.changed@[k]@;
        lemma_changed_is(old_users, users, change, u);
        let i = choose|i: int| 0 <= i < old_views.len() && old_views[i] == u;
        assert(old_users@[i]@ == u);
        lemma_kept_is(old_users, users, i);
        assert(old_users@[i].username@ == jobs.running()[id]);
    }
    if jobs.running().contains_key(id) && exists|i: int|
        {
            &&& 0 <= i < old_users@.len()
            &&& (#[trigger] old_users@[i]).username@ == jobs.running()[id]
            &&& !(exists|j: int|
                {
                    &&& 0 <= j < users@.len()
                    &&& (#[trigger] users@[j])@ == old_users@[i]@
                    &&& forall|m: int|
                        0 <= m < j ==> (#[trigger] users@[m]).username@ != old_users@[i].username@
                })
        } {
        let i = choose|i: int|
            {
                &&& 0 <= i < old_users@.len()
                &&& (#[trigger] old_users@[i]).username@ == jobs.running()[id]
                &&& !(exists|j: int|
                    {
                        &&& 0 <= j < users@.len()
                        &&& (#[trigger] users@[j])@ == old_users@[i]@
                        &&& forall|m: int|
                            0 <= m < j ==> (#[trigger] users@[m]).username@
                                != old_users@[i].username@
                    })
            };
        lemma_kept_is(old_users, users, i);
        assert(old_views[i] == old_users@[i]@);
        lemma_changed_is(old_users, users, change, old_views[i]);
        assert(old_views.contains(old_views[i]));
        let k = choose|k: int|
            0 <= k < change.changed@.len() && (#[trigger] change.changed@[k])@ == old_views[i];
        assert(change.changed@[k]@ == old_views[i]);
        let args = (&change, jobs);
        assert(args.0.changed@[k].username@ == args.1.running()[id]);
    }
}

/// When a user is kept as it was.
proof fn lemma_kept_is(old_users: &Vec<VfsUser>, users: &Vec<VfsUser>, i: int)
    requires
        0 <= i < old_users@.len(),
    ensures
        user_named(user_views(users@), old_users@[i]@.username) == Some(old_users@[i]@) <==> (
        exists|j: int|
            {
                &&& 0 <= j < users@.len()
                &&& (#[trigger] users@[j])@ == old_users@[i]@
                &&& forall|m: int|
                    0 <= m < j ==> (#[trigger] users@[m]).username@ != old_users@[i].username@
            }),
{
    let new = user_views(users@);
    let u = old_users@[i]@;
    assert forall|m: int| 0 <= m < users@.len() implies (#[trigger] users@[m]).username@
        == new[m].username by {}
    let at = lemma_user_at(new, u.username);
    if user_named(new, u.username) == Some(u) {
        assert(users@[at]@ == u);
    }
    if exists|j: int|
        {
            &&& 0 <= j < users@.len()
            &&& (#[trigger] users@[j])@ == u
            &&& forall|m: int| 0 <= m < j ==> (#[trigger] users@[m]).username@ != u.username
        } {
        let j = choose|j: int|
            {
                &&& 0 <= j < users@.len()
                &&& (#[trigger] users@[j])@ == u
                &&& forall|m: int| 0 <= m < j ==> (#[trigger] users@[m]).username@ != u.username
            };
        assert(new[j] == u);
        if at < j {
            assert(users@[at].username@ != u.username);
        }
    }
}

/// A quota is cleared exactly where it counts raw data that its user no longer
/// has: the user is gone, or its first new namesake has no point of that name.
pub proof fn law_quotas_of_dropped_data_are_cleared(
    old_users: &Vec<VfsUser>,
    users: &Vec<VfsUser>,
    r: UserChange,
    id: Seq<char>,
)
    requires
        call_ensures(set_vfs, (old_users, users), r),
    ensures
        views(r.removed_quotas@).contains(id) <==> exists|i: int, k: int|
            {
                &&& 0 <= i < old_users@.len()
                &&& 0 <= k < old_users@[i].points@.len()
                &&& !(#[trigger] old_users@[i].points@[k]).is_repo
                &&& id == quota_key(old_users@[i].username@, old_users@[i].points@[k].name@)
                &&& !(exists|j: int, q: int|
                    {
                        &&& 0 <= j < users@.len()
                        &&& 0 <= q < users@[j].points@.len()
                        &&& users@[j].username@ == old_users@[i].username@
                        &&& (#[trigger] users@[j].points@[q]).name@
                            == old_users@[i].points@[k].name@
                        &&& forall|m: int|
                            0 <= m < j ==> (#[trigger] users@[m]).username@
                                != old_users@[i].username@
                    })
            },
{
    let old_views = user_views(old_users@);
    let new = user_views(users@);
    law_quotas_go_with_their_points(old_views, new, id);
    if is_removed_id(old_views, new, id) {
        let (i, k) = choose|i: int, k: int|
            {
                &&& 0 <= i < old_views.len()
                &&& 0 <= k < old_views[i].points.len()
                &&& is_dropped(old_views[i], #[trigger] old_views[i].points[k], new)
                &&& id == quota_key(old_views[i].username, old_views[i].points[k].name)
            };
        lemma_dropped_is(old_users, users, i, k);
        assert(!old_users@[i].points@[k].is_repo);
    }
    if exists|i: int, k: int|
        {
            &&& 0 <= i < old_users@.len()
            &&& 0 <= k < old_users@[i].points@.len()
            &&& !(#[trigger] old_users@[i].points@[k]).is_repo
            &&& id == quota_key(old_users@[i].username@, old_users@[i].points@[k].name@)
            &&& !(exists|j: int, q: int|
                {
                    &&& 0 <= j < users@.len()
                    &&& 0 <= q < users@[j].points@.len()
                    &&& users@[j].username@ == old_users@[i].username@
                    &&& (#[trigger] users@[j].points@[q]).name@ == old_users@[i].points@[k].name@
                    &&& forall|m: int|
                        0 <= m < j ==> (#[trigger] users@[m]).username@ != old_users@[i].username@
                })
        } {
        let (i, k) = choose|i: int, k: int|
            {
                &&& 0 <= i < old_users@.len()
                &&& 0 <= k < old_users@[i].points@.len()
                &&& !(#[trigger] old_users@[i].points@[k]).is_repo
                &&& id == quota_key(old_users@[i].username@, old_users@[i].points@[k].name@)
                &&& !(exists|j: int, q: int|
                    {
                        &&& 0 <= j < users@.len()
                        &&& 0 <= q < users@[j].points@.len()
                        &&& users@[j].username@ == old_users@[i].username@
                        &&& (#[trigger] users@[j].points@[q]).name@
                            == old_users@[i].points@[k].name@
                        &&& forall|m: int|
                            0 <= m < j ==> (#[trigger] users@[m]).username@
                                != old_users@[i].username@
                    })
            };
        lemma_dropped_is(old_users, users, i, k);
        assert(is_dropped(old_views[i], old_views[i].points[k], new));
        assert(is_removed_id(old_views, new, id));
    }
}

/// When a point of a user is dropped.
proof fn lemma_dropped_is(old_users: &Vec<VfsUser>, users: &Vec<VfsUser>, i: int, k: int)
    requires
        0 <= i < old_users@.len(),
        0 <= k < old_users@[i].points@.len(),
    ensures
        is_dropped(
            user_views(old_users@)[i],
            user_views(old_users@)[i].points[k],
            user_views(users@),
        ) <==> !old_users@[i].points@[k].is_repo && !(exists|j: int, q: int|
            {
                &&& 0 <= j < users@.len()
                &&& 0 <= q < users@[j].points@.len()
                &&& users@[j].username@ == old_users@[i].username@
                &&& (#[trigger] users@[j].points@[q]).name@ == old_users@[i].points@[k].name@
                &&& forall|m: int|
                    0 <= m < j ==> (#[trigger] users@[m]).username@ != old_users@[i].username@
            }),
{
    let new = user_views(users@);
    let u = user_views(old_users@)[i];
    let p = u.points[k];
    assert(p == old_users@[i].points@[k]@);
    assert forall|m: int| 0 <= m < users@.len() implies (#[trigger] users@[m]).username@
        == new[m].username by {}
    let at = lemma_user_at(new, u.username);
    if user_named(new, u.username) is Some {
        let v = new[at];
        if has_point(v.points, p.name) {
            let q = choose|q: int| 0 <= q < v.points.len() && #[trigger] v.points[q].name == p.name;
            assert(users@[at].points@[q]@ == v.points[q]);
            assert(users@[at].points@[q].name@ == old_users@[i].points@[k].name@);
        }
    }
    if exists|j: int, q: int|
        {
            &&& 0 <= j < users@.len()
            &&& 0 <= q < users@[j].points@.len()
            &&& users@[j].username@ == old_users@[i].username@
            &&& (#[trigger] users@[j].points@[q]).name@ == old_users@[i].points@[k].name@
            &&& forall|m: int|
                0 <= m < j ==> (#[trigger] users@[m]).username@ != old_users@[i].username@
        } {
        let (j, q) = choose|j: int, q: int|
            {
                &&& 0 <= j < users@.len()
                &&& 0 <= q < users@[j].points@.len()
                &&& users@[j].username@ == old_users@[i].username@
                &&& (#[trigger] users@[j].points@[q]).name@ == old_users@[i].points@[k].name@
                &&& forall|m: int|
                    0 <= m < j ==> (#[trigger] users@[m]).username@ != old_users@[i].username@
            };
        assert(new[j].username == u.username);
        if at < j {
            assert(users@[at].username@ != u.username);
        }
        assert(new[j].points[q].name == p.name);
        assert(has_point(new[j].points, p.name));
    }
}

/// Clearing sets the totals of the quotas that go to zero, to be written back,
/// and leaves every other total as it is.
pub proof fn law_cleared_quotas_start_anew(
    change: &UserChange,
    quota: &mut QuotaState,
    id: Seq<char>,
)
    requires
        call_ensures(clear_removed, (change, quota), ()),
    ensures
        if exists|i: int|
            0 <= i < change.removed_quotas@.len() && (#[trigger] change.removed_quotas@[i])@
                == id {
            final(quota)@.contains_key(id) && (final(quota)@[id] matches Bucket::Ready(c)
                && c.bytes == 0 && c.dirty)
        } else {
            &&& final(quota)@.contains_key(id) == old(quota)@.contains_key(id)
            &&& old(quota)@.contains_key(id) ==> final(quota)@[id] == old(quota)@[id]
        },
{
    let ids = views(change.removed_quotas@);
    law_clearing_is_exact(quota@, ids, id);
    if ids.contains(id) {
        let i = choose|i: int| 0 <= i < ids.len() && ids[i] == id;
        assert(change.removed_quotas@[i]@ == id);
    }
    if exists|i: int|
        0 <= i < change.removed_quotas@.len() && (#[trigger] change.removed_quotas@[i])@ == id {
        let i = choose|i: int|
            0 <= i < change.removed_quotas@.len() && (#[trigger] change.removed_quotas@[i])@ == id;
        assert(ids[i] == id);
    }
}

/// Raw data on local disk is measured there; everything else is counted under
/// the quota id of the point. A disk that cannot be measured reports nothing.
pub proof fn law_usage_is_counted_where_it_is_kept(
    user: &VfsUser,
    point: &VfsPoint,
    r: Usage,
    measured: Option<u64>,
    bytes: u64,
)
    requires
        call_ensures(usage_of, (user, point), r),
        call_ensures(disk_usage, (measured,), bytes),
    ensures
        r is Disk <==> !point.is_repo && point.scheme@ == seq!['f', 's'],
        r matches Usage::Counter { id } ==> id@ == quota_key(user.username@, point.name@),
        measured matches Some(n) ==> bytes == n,
        measured is None ==> bytes == 0,
{
    reveal_strlit("fs");
    assert("fs"@ =~= seq!['f', 's']);
}

/// Every point of every user is reported once, users in order and the points of
/// each in order.
pub proof fn law_every_point_is_reported_once(
    users: &Vec<VfsUser>,
    r: Vec<(usize, usize)>,
    i: int,
    p: int,
) -> (at: int)
    requires
        call_ensures(point_places, (users,), r),
    ensures
        forall|k: int|
            0 <= k < r@.len() ==> (#[trigger] r@[k]).0 < users@.len() && r@[k].1
                < users@[r@[k].0 as int].points@.len(),
        0 <= i < users@.len() && 0 <= p < users@[i].points@.len() ==> 0 <= at < r@.len() && r@[at].0
            == i && r@[at].1 == p,
        forall|k: int, l: int|
            0 <= k < l < r@.len() ==> (#[trigger] r@[k]).0 < (#[trigger] r@[l]).0 || (r@[k].0
                == r@[l].0 && r@[k].1 < r@[l].1),
{
    let all = user_views(users@);
    let where_all = places(all);
    assert(as_ints(r@) == where_all);
    assert(as_ints(r@).len() == r@.len());
    assert forall|k: int| 0 <= k < r@.len() implies (#[trigger] r@[k]).0 < users@.len() && r@[k].1
        < users@[r@[k].0 as int].points@.len() by {
        lemma_places(all, k);
        assert(as_ints(r@)[k] == where_all[k]);
        assert(all[where_all[k].0].points.len() == users@[where_all[k].0].points@.len());
    }
    assert forall|k: int, l: int| 0 <= k < l < r@.len() implies (#[trigger] r@[k]).0 < (
    #[trigger] r@[l]).0 || (r@[k].0 == r@[l].0 && r@[k].1 < r@[l].1) by {
        lemma_places_ascend(all, k, l);
        assert(as_ints(r@)[k] == where_all[k]);
        assert(as_ints(r@)[l] == where_all[l]);
    }
    if 0 <= i < users@.len() && 0 <= p < users@[i].points@.len() {
        assert(all[i].points.len() == users@[i].points@.len());
        let k = lemma_place_of(all, i, p);
        assert(as_ints(r@)[k] == where_all[k]);
        k
    } else {
        0
    }
}

/// Where a point is reported.
proof fn lemma_place_of(users: Seq<UserView>, i: int, p: int) -> (k: int)
    requires
        0 <= i < users.len(),
        0 <= p < users[i].points.len(),
    ensures
        0 <= k < places(users).len(),
        places(users)[k] == (i, p),
    decreases users.len(),
{
    let front = users.drop_last();
    if i < front.len() {
        assert(front[i] == users[i]);
        let k = lemma_place_of(front, i, p);
        assert(places(users)[k] == places(front)[k]);
        k
    } else {
        let k = places(front).len() + p;
        assert(places(users)[k] == (users.len() - 1, p));
        k
    }
}

/// Points are reported in order.
proof fn lemma_places_ascend(users: Seq<UserView>, k: int, l: int)
    requires
        0 <= k < l < places(users).len(),
    ensures
        places(users)[k].0 < places(users)[l].0 || (places(users)[k].0 == places(users)[l].0
            && places(users)[k].1 < places(users)[l].1),
    decreases users.len(),
{
    let front = users.drop_last();
    let n = places(front).len();
    if l < n {
        lemma_places_ascend(front, k, l);
    } else {
        assert(places(users)[l] == (users.len() - 1, l - n));
        if k < n {
            lemma_places(front, k);
            assert(places(users)[k] == places(front)[k]);
        } else {
            assert(places(users)[k] == (users.len() - 1, k - n));
        }
    }
}

/// What is reported for a point bears the name of its user, the point as it is,
/// and what it uses.
pub proof fn law_reports_are_of_their_point(
    users: &Vec<VfsUser>,
    used: &Vec<u64>,
    at: Vec<(usize, usize)>,
    r: Vec<VfsInfo>,
    k: int,
)
    requires
        call_ensures(point_places, (users,), at),
        call_ensures(get_vfs, (users, used), r),
        used@.len() == at@.len(),
        0 <= k < used@.len(),
    ensures
        r@.len() == used@.len(),
        r@[k].used_bytes == used@[k],
        r@[k].user@ == users@[at@[k].0 as int].username@,
        r@[k].point@.name == users@[at@[k].0 as int].points@[at@[k].1 as int].name@,
        r@[k].point@.can_write == !users@[at@[k].0 as int].points@[at@[k].1 as int].read_only,
        r@[k].point@ == message_of(users@[at@[k].0 as int].points@[at@[k].1 as int]@),
{
    let all = user_views(users@);
    lemma_places(all, k);
    assert(as_ints(at@)[k] == places(all)[k]);
    assert(as_ints(at@).len() == at@.len());
    let p = places(all)[k];
    assert(all[p.0] == users@[p.0]@);
    assert(all[p.0].points[p.1] == users@[p.0].points@[p.1]@);
    assert(r@[k]@ == info_of(all[p.0], all[p.0].points[p.1], used@[k]));
}

/// Users are judged one by one and named in their order, and so are the points
/// of each: judging a list in two parts gives what judging it at once gives.
pub proof fn law_changes_are_named_in_order(
    a: Seq<UserView>,
    b: Seq<UserView>,
    new: Seq<UserView>,
    u: UserView,
    p: Seq<PointView>,
    q: Seq<PointView>,
    k: PointView,
)
    ensures
        changed_users(a + b, new) == changed_users(a, new) + changed_users(b, new),
        removed_quotas(a + b, new) == removed_quotas(a, new) + removed_quotas(b, new),
        changed_users(seq![u], new).len() <= 1,
        removed_quotas(seq![u], new) == dropped_ids(u, u.points, new),
        dropped_ids(u, p + q, new) == dropped_ids(u, p, new) + dropped_ids(u, q, new),
        dropped_ids(u, seq![k], new).len() <= 1,
    decreases b.len(), q.len(),
{
    assert(seq![u].drop_last() =~= Seq::empty());
    assert(changed_users(Seq::empty(), new) =~= Seq::empty());
    assert(removed_quotas(Seq::empty(), new) =~= Seq::empty());
    assert(removed_quotas(seq![u], new) =~= dropped_ids(u, u.points, new));
    assert(seq![k].drop_last() =~= Seq::empty());
    assert(dropped_ids(u, Seq::empty(), new) =~= Seq::empty());
    if b.len() == 0 {
        assert(a + b =~= a);
        assert(changed_users(a + b, new) =~= changed_users(a, new) + changed_users(b, new));
        assert(removed_quotas(a + b, new) =~= removed_quotas(a, new) + removed_quotas(b, new));
    } else {
        law_changes_are_named_in_order(a, b.drop_last(), new, u, p, q, k);
        assert((a + b).drop_last() =~= a + b.drop_last());
        assert(changed_users(a + b, new) =~= changed_users(a, new) + changed_users(b, new));
        assert(removed_quotas(a + b, new) =~= removed_quotas(a, new) + removed_quotas(b, new));
    }
    if q.len() == 0 {
        assert(p + q =~= p);
        assert(dropped_ids(u, p + q, new) =~= dropped_ids(u, p, new) + dropped_ids(u, q, new));
    } else {
        law_changes_are_named_in_order(a, b, new, u, p, q.drop_last(), k);
        assert((p + q).drop_last() =~= p + q.drop_last());
        assert(dropped_ids(u, p + q, new) =~= dropped_ids(u, p, new) + dropped_ids(u, q, new));
    }
}

} // verus!
