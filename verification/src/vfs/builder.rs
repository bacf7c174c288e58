//! Collecting mounts and checking them.

use super::access::MountAccess;
use super::util::{normal, normalize, root};
use crate::error::{Error, ErrorKind, ErrorView};
use crate::list::turned;
use crate::strmap::StrMap;
use crate::text::same;
use vstd::prelude::*;

verus! {

/// How many bytes a mount may hold.
#[derive(Debug, PartialEq, Eq)]
pub enum VfsQuota {
    /// Without a limit.
    Disabled,
    /// At most `bytes`, counted under `id`.
    Enabled { id: String, bytes: u64 },
}

impl Clone for VfsQuota {
    fn clone(&self) -> (r: Self)
        ensures
            r == *self,
    {
        match self {
            VfsQuota::Disabled => VfsQuota::Disabled,
            VfsQuota::Enabled { id, bytes } => VfsQuota::Enabled { id: id.clone(), bytes: *bytes },
        }
    }
}

impl Default for VfsQuota {
    fn default() -> (r: Self)
        ensures
            r == VfsQuota::Disabled,
    {
        VfsQuota::Disabled
    }
}

/// A guard that a mount's store is wrapped in.
#[derive(Debug, PartialEq, Eq)]
pub enum MountLayer {
    /// Counts bytes under `id` and refuses to exceed `limit`.
    Quota { id: String, limit: u64 },
    /// Refuses every change.
    ReadOnly,
}

/// A store mounted at some path.
#[derive(Debug)]
pub struct Mount<O> {
    /// The store, without its guards.
    pub operator: O,
    /// Whether changes are refused.
    pub read_only: bool,
    /// The limit on its size.
    pub quota: VfsQuota,
}

impl<O> Mount<O> {
    /// Whether `layers` are the guards of this mount, innermost first.
    pub open spec fn guarded_by(&self, layers: Seq<MountLayer>) -> bool {
        match self.quota {
            VfsQuota::Disabled => layers =~= if self.read_only {
                seq![MountLayer::ReadOnly]
            } else {
                seq![]
            },
            VfsQuota::Enabled { id, bytes } => {
                &&& layers.len() == if self.read_only { 2int } else { 1 }
                &&& layers[0] matches MountLayer::Quota { id: i, limit } && i@ == id@ && limit
                    == bytes
                &&& self.read_only ==> layers[1] == MountLayer::ReadOnly
            },
        }
    }

    /// The guards of this mount, innermost first.
    pub fn layers(&self) -> (r: Vec<MountLayer>)
        ensures
            self.guarded_by(r@),
    {
        let mut layers: Vec<MountLayer> = Vec::new();
        match &self.quota {
            VfsQuota::Disabled => {},
            VfsQuota::Enabled { id, bytes } => {
                layers.push(MountLayer::Quota { id: id.clone(), limit: *bytes });
            },
        }
        if self.read_only {
            layers.push(MountLayer::ReadOnly);
        }
        layers
    }
}

/// A mount that has not been checked yet.
#[derive(Debug)]
pub struct PendingMount<O> {
    /// The virtual path, in normal form.
    pub path: String,
    pub mount: Mount<O>,
}

/// Collects mounts in the order in which they are added.
#[derive(Debug)]
pub struct VfsBuilder<O> {
    pub pending: Vec<PendingMount<O>>,
}

/// What is answered to a mount at the root.
pub open spec fn root_mount_view() -> ErrorView {
    ErrorView::plain(ErrorKind::ConfigInvalid, "cannot mount at the virtual root '/'"@)
}

/// What is answered to a second mount at the same path.
pub open spec fn duplicate_view(path: Seq<char>) -> ErrorView {
    ErrorView::plain(ErrorKind::ConfigInvalid, "duplicate mount path"@).with("path"@, path)
}

/// Whether the `i`-th mount can stand behind the ones before it.
pub open spec fn mountable<O>(pending: Seq<PendingMount<O>>, i: int) -> bool {
    &&& pending[i].path@ != root()
    &&& forall|j: int| 0 <= j < i ==> #[trigger] pending[j].path@ != pending[i].path@
}

/// Whether every path is in normal form.
pub open spec fn all_normal<O>(pending: Seq<PendingMount<O>>) -> bool {
    forall|i: int|
        0 <= i < pending.len() ==> normal(#[trigger] pending[i].path@) == pending[i].path@
}

/// Whether `mounts` holds exactly the first `n` mounts.
pub open spec fn holds_first<O>(
    mounts: Map<Seq<char>, Mount<O>>,
    pending: Seq<PendingMount<O>>,
    n: int,
) -> bool {
    &&& forall|i: int|
        0 <= i < n ==> mounts.contains_key(#[trigger] pending[i].path@)
            && mounts[pending[i].path@] == pending[i].mount
    &&& forall|k: Seq<char>| #[trigger]
        mounts.contains_key(k) ==> exists|i: int| 0 <= i < n && #[trigger] pending[i].path@ == k
}

impl<O> Default for VfsBuilder<O> {
    fn default() -> (r: Self)
        ensures
            r.pending@.len() == 0,
    {
        VfsBuilder { pending: Vec::new() }
    }
}

impl<O> VfsBuilder<O> {
    /// Whether every path is in normal form.
    pub open spec fn wf(&self) -> bool {
        all_normal(self.pending@)
    }

    /// Starts an empty builder.
    pub fn new() -> (r: Self)
        ensures
            r.wf(),
            r.pending@.len() == 0,
    {
        VfsBuilder { pending: Vec::new() }
    }

    /// Mounts a store at `path`, writable and without a limit.
    ///
    /// Chain `read_only()` / `quota(id, bytes)` immediately after to configure
    /// the mount just added.
    pub fn mount(self, path: &str, operator: O) -> (r: Self)
        requires
            self.wf(),
        ensures
            r.wf(),
            r.pending@.len() == self.pending@.len() + 1,
            r.pending@.drop_last() == self.pending@,
            r.pending@.last().path@ == normal(path@),
            r.pending@.last().mount == (Mount {
                operator,
                read_only: false,
                quota: VfsQuota::Disabled,
            }),
    {
        let mut pending = self.pending;
        let path_normal = normalize(path);
        proof {
            super::util::law_normal_form(path@);
        }
        pending.push(
            PendingMount {
                path: path_normal,
                mount: Mount { operator, read_only: false, quota: VfsQuota::Disabled },
            },
        );
        assert(pending@.drop_last() =~= self.pending@);
        VfsBuilder { pending }
    }

    /// Marks the most recently added mount as read-only.
    pub fn read_only(self) -> (r: Self)
        requires
            self.wf(),
        ensures
            r.wf(),
            r.pending@.len() == self.pending@.len(),
            self.pending@.len() > 0 ==> {
                &&& r.pending@.drop_last() == self.pending@.drop_last()
                &&& r.pending@.last().path@ == self.pending@.last().path@
                &&& r.pending@.last().mount == (Mount {
                    read_only: true,
                    ..self.pending@.last().mount
                })
            },
    {
        let mut pending = self.pending;
        match pending.pop() {
            Some(last) => {
                let mount = Mount {
                    operator: last.mount.operator,
                    read_only: true,
                    quota: last.mount.quota,
                };
                pending.push(PendingMount { path: last.path, mount });
                assert(pending@.drop_last() =~= self.pending@.drop_last());
            },
            None => {},
        }
        VfsBuilder { pending }
    }

    /// Caps the most recently added mount at `bytes`, counted under `id`.
    pub fn quota(self, id: &str, bytes: u64) -> (r: Self)
        requires
            self.wf(),
        ensures
            r.wf(),
            r.pending@.len() == self.pending@.len(),
            self.pending@.len() > 0 ==> {
                let before = self.pending@.last();
                let after = r.pending@.last();
                &&& r.pending@.drop_last() == self.pending@.drop_last()
                &&& after.path@ == before.path@
                &&& after.mount.operator == before.mount.operator
                &&& after.mount.read_only == before.mount.read_only
                &&& after.mount.quota matches VfsQuota::Enabled { id: i, bytes: b } && i@ == id@
                    && b == bytes
            },
    {
        let mut pending = self.pending;
        match pending.pop() {
            Some(last) => {
                let mount = Mount {
                    operator: last.mount.operator,
                    read_only: last.mount.read_only,
                    quota: VfsQuota::Enabled { id: id.to_owned(), bytes },
                };
                pending.push(PendingMount { path: last.path, mount });
                assert(pending@.drop_last() =~= self.pending@.drop_last());
            },
            None => {},
        }
        VfsBuilder { pending }
    }

    /// Checks the mounts in the order in which they were added. Refuses a mount
    /// at the root, and one at the path of an earlier mount.
    pub fn build(self) -> (r: Result<MountAccess<O>, Error>)
        requires
            self.wf(),
        ensures
            match r {
                Ok(access) => {
                    &&& forall|i: int|
                        0 <= i < self.pending@.len() ==> #[trigger] mountable(self.pending@, i)
                    &&& holds_first(access@, self.pending@, self.pending@.len() as int)
                },
                Err(e) => exists|i: int|
                    {
                        &&& 0 <= i < self.pending@.len()
                        &&& !#[trigger] mountable(self.pending@, i)
                        &&& forall|j: int| 0 <= j < i ==> #[trigger] mountable(self.pending@, j)
                        &&& e@ == if self.pending@[i].path@ == root() {
                            root_mount_view()
                        } else {
                            duplicate_view(self.pending@[i].path@)
                        }
                    },
            },
    {
        let ghost all = self.pending@;
        let count = self.pending.len();
        let mut mounts: StrMap<Mount<O>> = StrMap::new();
        let mut pending = turned(self.pending);
        let mut i: usize = 0;
        while i < count
            invariant
                i <= count,
                count == all.len(),
                all == self.pending@,
                all_normal(all),
                pending@.len() == count - i,
                forall|j: int|
                    0 <= j < count - i ==> #[trigger] pending@[j] == all[count - 1 - j],
                forall|j: int| 0 <= j < i ==> #[trigger] mountable(all, j),
                holds_first(mounts@, all, i as int),
                forall|m: Seq<char>| #[trigger]
                    mounts@.contains_key(m) ==> normal(m) == m && m != root(),
            decreases count - i,
        {
            let ghost before = mounts@;
            match pending.pop() {
                Some(p) => {
                    assert(p == all[i as int]);
                    proof {
                        reveal_strlit("/");
                        assert("/"@ =~= root());
                    }
                    if same(p.path.as_str(), "/") {
                        assert(!mountable(all, i as int));
                        return Err(
                            Error::new(
                                ErrorKind::ConfigInvalid,
                                "cannot mount at the virtual root '/'".to_owned(),
                            ),
                        );
                    }
                    let path = p.path.clone();
                    match mounts.insert(p.path, p.mount) {
                        Some(_) => {
                            proof {
                                let j = choose|j: int|
                                    0 <= j < i && #[trigger] all[j].path@ == all[i as int].path@;
                                assert(all[j].path@ == all[i as int].path@);
                                assert(!mountable(all, i as int));
                            }
                            return Err(
                                Error::new(
                                    ErrorKind::ConfigInvalid,
                                    "duplicate mount path".to_owned(),
                                ).with_context("path", path),
                            );
                        },
                        None => {},
                    }
                    proof {
                        assert(mountable(all, i as int));
                        assert forall|m: Seq<char>| #[trigger]
                            mounts@.contains_key(m) implies exists|j: int|
                            0 <= j < i + 1 && #[trigger] all[j].path@ == m by {
                            if m == all[i as int].path@ {
                                assert(all[i as int].path@ == m);
                            } else {
                                assert(before.contains_key(m));
                                let j = choose|j: int| 0 <= j < i && #[trigger] all[j].path@ == m;
                                assert(0 <= j < i + 1 && all[j].path@ == m);
                            }
                        }
                    }
                },
                None => {},
            }
            i += 1;
        }
        Ok(MountAccess::new(mounts))
    }
}

// ── Laws ────────────────────────────────────────────────────────────────────

/// Mounts can be built exactly where none is at the root and no two are at the
/// same path. What is built holds each of them under its path, with its store
/// and its guards, and nothing else.
pub proof fn law_mounts_are_built_as_they_were_added<O>(
    b: VfsBuilder<O>,
    r: Result<MountAccess<O>, Error>,
    path: Seq<char>,
)
    requires
        call_ensures(VfsBuilder::<O>::build, (b,), r),
    ensures
        r is Ok <==> {
            &&& forall|i: int| 0 <= i < b.pending@.len() ==> (#[trigger] b.pending@[i]).path@ != seq![
                '/',
            ]
            &&& forall|i: int, j: int|
                0 <= i < j < b.pending@.len() ==> (#[trigger] b.pending@[i]).path@ != (
                #[trigger] b.pending@[j]).path@
        },
        r matches Ok(a) ==> {
            &&& a@.contains_key(path) <==> exists|i: int|
                0 <= i < b.pending@.len() && (#[trigger] b.pending@[i]).path@ == path
            &&& forall|i: int|
                0 <= i < b.pending@.len() ==> a@[(#[trigger] b.pending@[i]).path@]
                    == b.pending@[i].mount
        },
        r matches Err(e) ==> e.kind == ErrorKind::ConfigInvalid,
{
    let all = b.pending@;
    match r {
        Ok(a) => {
            assert forall|i: int| 0 <= i < all.len() implies (#[trigger] all[i]).path@ != seq![
                '/',
            ] by {
                assert(mountable(all, i));
            }
            assert forall|i: int, j: int| 0 <= i < j < all.len() implies (#[trigger] all[i]).path@
                != (#[trigger] all[j]).path@ by {
                assert(mountable(all, j));
            }
            assert(holds_first(a@, all, all.len() as int));
        },
        Err(_) => {
            let i = choose|i: int|
                {
                    &&& 0 <= i < all.len()
                    &&& !#[trigger] mountable(all, i)
                    &&& forall|j: int| 0 <= j < i ==> #[trigger] mountable(all, j)
                };
            assert(!mountable(all, i));
            if all[i].path@ != root() {
                let j = choose|j: int| 0 <= j < i && #[trigger] all[j].path@ == all[i].path@;
                assert(all[j].path@ == all[i].path@);
            }
        },
    }
}

/// A store is mounted at its path, writable and without a limit; marking it
/// read-only and limiting it change that mount alone, and each only what it is
/// for. A builder starts empty.
pub proof fn law_guards_are_put_on_the_last_mount<O>(
    none: VfsBuilder<O>,
    b: VfsBuilder<O>,
    path: &str,
    operator: O,
    m: VfsBuilder<O>,
    ro: VfsBuilder<O>,
    id: &str,
    bytes: u64,
    q: VfsBuilder<O>,
    before: nat,
    core: Seq<char>,
    after: nat,
    k: int,
)
    requires
        call_ensures(VfsBuilder::<O>::new, (), none),
        call_ensures(VfsBuilder::<O>::mount, (b, path, operator), m),
        call_ensures(VfsBuilder::<O>::read_only, (m,), ro),
        call_ensures(VfsBuilder::<O>::quota, (ro, id, bytes), q),
        core.len() > 0 ==> core[0] != '/' && core[core.len() - 1] != '/',
        path@ == Seq::new(before, |i: int| '/') + core + Seq::new(after, |i: int| '/'),
    ensures
        none.pending@.len() == 0,
        m.pending@.len() == b.pending@.len() + 1,
        ro.pending@.len() == m.pending@.len(),
        q.pending@.len() == m.pending@.len(),
        0 <= k < b.pending@.len() ==> m.pending@[k] == b.pending@[k] && ro.pending@[k]
            == b.pending@[k] && q.pending@[k] == b.pending@[k],
        ({
            let last = b.pending@.len() as int;
            &&& m.pending@[last].path@ == seq!['/'] + core
            &&& ro.pending@[last].path@ == seq!['/'] + core
            &&& q.pending@[last].path@ == seq!['/'] + core
            &&& m.pending@[last].mount.operator == operator
            &&& ro.pending@[last].mount.operator == operator
            &&& q.pending@[last].mount.operator == operator
            &&& !m.pending@[last].mount.read_only
            &&& ro.pending@[last].mount.read_only
            &&& q.pending@[last].mount.read_only
            &&& m.pending@[last].mount.quota is Disabled
            &&& ro.pending@[last].mount.quota is Disabled
            &&& q.pending@[last].mount.quota matches VfsQuota::Enabled { id: i, bytes: n } && i@
                == id@ && n == bytes
        }),
{
    crate::text::law_trimming_takes_off_what_was_put_on(before, core, after, '/');
    let last = b.pending@.len() as int;
    if 0 <= k < b.pending@.len() {
        assert(m.pending@.drop_last()[k] == b.pending@[k]);
        assert(ro.pending@.drop_last()[k] == b.pending@[k]);
        assert(q.pending@.drop_last()[k] == b.pending@[k]);
    }
    assert(m.pending@.last() == m.pending@[last]);
    assert(ro.pending@.last() == ro.pending@[last]);
    assert(q.pending@.last() == q.pending@[last]);
}

/// Limiting a mount and marking it read-only come to the same in either order.
pub proof fn law_guards_can_be_put_on_in_any_order<O>(
    m: VfsBuilder<O>,
    ro: VfsBuilder<O>,
    ro_first: VfsBuilder<O>,
    q: VfsBuilder<O>,
    q_first: VfsBuilder<O>,
    id: &str,
    bytes: u64,
)
    requires
        m.pending@.len() > 0,
        call_ensures(VfsBuilder::<O>::read_only, (m,), ro),
        call_ensures(VfsBuilder::<O>::quota, (ro, id, bytes), ro_first),
        call_ensures(VfsBuilder::<O>::quota, (m, id, bytes), q),
        call_ensures(VfsBuilder::<O>::read_only, (q,), q_first),
    ensures
        ({
            let a = ro_first.pending@[m.pending@.len() - 1].mount;
            let b = q_first.pending@[m.pending@.len() - 1].mount;
            &&& a.read_only && b.read_only
            &&& a.operator == b.operator
            &&& a.quota matches VfsQuota::Enabled { id: i, bytes: n } && i@ == id@ && n == bytes
            &&& b.quota matches VfsQuota::Enabled { id: i, bytes: n } && i@ == id@ && n == bytes
        }),
{
    assert(ro_first.pending@.last() == ro_first.pending@[m.pending@.len() - 1]);
    assert(q_first.pending@.last() == q_first.pending@[m.pending@.len() - 1]);
}

/// A mount that is read-only is guarded against every change, outermost; one
/// with a limit is counted under its id up to that limit; and a mount has no
/// other guards.
pub proof fn law_mounts_are_guarded_as_marked<O>(m: &Mount<O>, r: Vec<MountLayer>, k: int)
    requires
        call_ensures(Mount::<O>::layers, (m,), r),
    ensures
        m.read_only ==> r@.len() > 0 && r@[r@.len() - 1] is ReadOnly,
        0 <= k < r@.len() && r@[k] is ReadOnly ==> m.read_only && k == r@.len() - 1,
        m.quota matches VfsQuota::Enabled { id, bytes } ==> r@.len() > 0 && (
        r@[0] matches MountLayer::Quota { id: i, limit } && i@ == id@ && limit == bytes),
        0 <= k < r@.len() && r@[k] is Quota ==> m.quota is Enabled && k == 0,
{
}

/// Where mounts cannot be built, the first that cannot stand behind the ones
/// before it decides what is answered: that it is at the root, or that its path
/// is taken, with that path.
pub proof fn law_first_bad_mount_decides<O>(b: VfsBuilder<O>, e: Error) -> (i: int)
    requires
        call_ensures(VfsBuilder::<O>::build, (b,), Err(e)),
    ensures
        0 <= i < b.pending@.len(),
        forall|j: int| 0 <= j < i ==> (#[trigger] b.pending@[j]).path@ != seq!['/'],
        forall|j: int, k: int|
            0 <= j < k < i ==> (#[trigger] b.pending@[j]).path@ != (#[trigger] b.pending@[k]).path@,
        b.pending@[i].path@ == seq!['/'] ==> e.message@ == "cannot mount at the virtual root '/'"@,
        b.pending@[i].path@ != seq!['/'] ==> {
            &&& exists|j: int| 0 <= j < i && (#[trigger] b.pending@[j]).path@ == b.pending@[i].path@
            &&& e.message@ == "duplicate mount path"@
            &&& e.context@.len() == 1 && e.context@[0].0@ == "path"@ && e.context@[0].1@
                == b.pending@[i].path@
        },
{
    let all = b.pending@;
    let i = choose|i: int|
        {
            &&& 0 <= i < all.len()
            &&& !#[trigger] mountable(all, i)
            &&& forall|j: int| 0 <= j < i ==> #[trigger] mountable(all, j)
            &&& e@ == if all[i].path@ == root() {
                root_mount_view()
            } else {
                duplicate_view(all[i].path@)
            }
        };
    assert(!mountable(all, i));
    assert forall|j: int| 0 <= j < i implies (#[trigger] all[j]).path@ != seq!['/'] by {
        assert(mountable(all, j));
    }
    assert forall|j: int, k: int| 0 <= j < k < i implies (#[trigger] all[j]).path@ != (
    #[trigger] all[k]).path@ by {
        assert(mountable(all, k));
    }
    if all[i].path@ != root() {
        assert(e@.context.len() == e.context@.len());
        assert(e@.context[0] == ("path"@, all[i].path@));
    }
    i
}

} // verus!
