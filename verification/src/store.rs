//! How a user's tree is put together.

use crate::model::{PointView, RepoSource, RepoView, UserView, VfsError, VfsPoint, VfsUser};
use crate::utils::{data_mount, data_mount_path, quota_id, quota_key, repo_mount, repo_mount_path};
use crate::vfs::util::normal;
use crate::vfs::{Mount, MountLayer, VfsBuilder, VfsQuota};
use vstd::prelude::*;

verus! {

/// Whether `layers` are the guards of the raw storage of a point: it is
/// read-only, or else limited, or else open.
pub open spec fn guards(user: UserView, point: PointView, layers: Seq<MountLayer>) -> bool {
    if point.read_only {
        layers =~= seq![MountLayer::ReadOnly]
    } else {
        match point.max_bytes {
            Some(max) => {
                &&& layers.len() == 1
                &&& layers[0] matches MountLayer::Quota { id, limit } && id@ == quota_key(
                    user.username,
                    point.name,
                ) && limit == max
            },
            None => layers =~= seq![],
        }
    }
}

/// The guards of the raw storage of `point`.
///
/// They are the same in the user's tree and for a job that works on a single
/// point, so that no job gets around them.
pub fn point_layers(user: &VfsUser, point: &VfsPoint) -> (r: Vec<MountLayer>)
    ensures
        guards(user@, point@, r@),
{
    let mut layers: Vec<MountLayer> = Vec::new();
    if point.read_only {
        layers.push(MountLayer::ReadOnly);
    } else {
        match point.max_bytes {
            Some(max) => {
                let id = quota_id(user.username.as_str(), point.name.as_str());
                layers.push(MountLayer::Quota { id, limit: max });
            },
            None => {},
        }
    }
    layers
}

/// What is opened for a point of the tree.
#[derive(Debug)]
pub enum PointStore {
    /// The contents of a repository.
    Repo(RepoSource),
    /// The raw storage of the point, wrapped in its guards, innermost first.
    Data { layers: Vec<MountLayer> },
}

/// Works out what is opened for `point`. A repository without a password
/// cannot be opened.
pub fn point_store(user: &VfsUser, point: &VfsPoint) -> (r: Result<PointStore, VfsError>)
    ensures
        match r {
            Ok(PointStore::Repo(src)) => {
                &&& point@.is_repo
                &&& point@.repo_password matches Some(password) && src@ == (RepoView {
                    scheme: point@.scheme,
                    config: point@.config,
                    password,
                })
            },
            Ok(PointStore::Data { layers }) => !point@.is_repo && guards(user@, point@, layers@),
            Err(e) => {
                &&& point@.is_repo
                &&& point@.repo_password is None
                &&& e is RepoPasswordMissing
            },
        },
{
    if point.is_repo {
        match &point.repo_password {
            Some(password) => Ok(
                PointStore::Repo(
                    RepoSource {
                        scheme: point.scheme.clone(),
                        config: point.config.clone(),
                        password: password.clone(),
                    },
                ),
            ),
            None => Err(VfsError::RepoPasswordMissing),
        }
    } else {
        Ok(PointStore::Data { layers: point_layers(user, point) })
    }
}

/// Where a point is mounted.
pub open spec fn mount_of(point: PointView) -> Seq<char> {
    normal(
        if point.is_repo {
            repo_mount(point.name)
        } else {
            data_mount(point.name)
        },
    )
}

/// Adds the store that was opened for `point` to the tree. A repository is
/// always read-only there, whatever the point says: that says whether jobs may
/// write to it.
pub fn mount_point<O>(tree: VfsBuilder<O>, point: &VfsPoint, store: O) -> (r: VfsBuilder<O>)
    requires
        tree.wf(),
    ensures
        r.wf(),
        r.pending@.len() == tree.pending@.len() + 1,
        r.pending@.drop_last() == tree.pending@,
        r.pending@.last().path@ == mount_of(point@),
        r.pending@.last().mount == (Mount {
            operator: store,
            read_only: point@.is_repo,
            quota: VfsQuota::Disabled,
        }),
{
    if point.is_repo {
        let path = repo_mount_path(point.name.as_str());
        let mounted = tree.mount(path.as_str(), store);
        mounted.read_only()
    } else {
        let path = data_mount_path(point.name.as_str());
        tree.mount(path.as_str(), store)
    }
}

// ── Laws ────────────────────────────────────────────────────────────────────

/// Data points and repositories never get in each other's way: whatever their
/// names, they are mounted in different directories.
pub proof fn law_namespaces_are_disjoint(data: PointView, repo: PointView)
    requires
        !data.is_repo,
        repo.is_repo,
    ensures
        mount_of(data) != mount_of(repo),
        !crate::vfs::util::owns(mount_of(data), mount_of(repo)),
        !crate::vfs::util::owns(mount_of(repo), mount_of(data)),
{
    lemma_mount_begins(data);
    lemma_mount_begins(repo);
    let a = mount_of(data);
    let b = mount_of(repo);
    assert(a[1] == 'p');
    assert(b[1] == 'r');
    if crate::vfs::util::owns(a, b) && a != b {
        assert(a.push('/')[1] == b[1]);
    }
    if crate::vfs::util::owns(b, a) && a != b {
        assert(b.push('/')[1] == a[1]);
    }
}

/// How a mount path begins.
proof fn lemma_mount_begins(point: PointView)
    ensures
        mount_of(point).len() > 1,
        mount_of(point)[1] == if point.is_repo {
            'r'
        } else {
            'p'
        },
{
    let path = if point.is_repo {
        repo_mount(point.name)
    } else {
        data_mount(point.name)
    };
    reveal_strlit("/points/");
    reveal_strlit("/repos/");
    assert(path[0] == '/');
    assert(path[1] != '/');
    crate::text::lemma_lead(path, '/', 1);
    let t = crate::text::trim_start(path, '/');
    assert(t =~= path.skip(1));
    assert(t[0] == path[1]);
    crate::text::lemma_trail_is(t, '/');
    assert(crate::text::trail(t, '/') < t.len()) by {
        if crate::text::trail(t, '/') == t.len() {
            assert(t[0] == '/');
        }
    }
    let inner = crate::text::trim(path, '/');
    assert(inner[0] == t[0]);
}

/// A point that is read-only has no guard that counts, and one that is not has
/// no guard that refuses every change.
pub proof fn law_guards_exclude_each_other(
    user: UserView,
    point: PointView,
    layers: Seq<MountLayer>,
)
    requires
        guards(user, point, layers),
    ensures
        layers.len() <= 1,
        layers.contains(MountLayer::ReadOnly) == point.read_only,
{
    if point.read_only {
        assert(layers[0] == MountLayer::ReadOnly);
    }
}

/// A point that is read-only refuses every change; one that is not, and has a
/// limit, is counted under its own quota id up to that limit; any other point
/// has no guard.
pub proof fn law_points_are_guarded_as_marked(
    user: &VfsUser,
    point: &VfsPoint,
    r: Vec<MountLayer>,
)
    requires
        call_ensures(point_layers, (user, point), r),
    ensures
        point.read_only ==> r@.len() == 1 && r@[0] is ReadOnly,
        !point.read_only ==> match point.max_bytes {
            Some(max) => r@.len() == 1 && (r@[0] matches MountLayer::Quota { id, limit } && limit
                == max && id@ == quota_key(user.username@, point.name@)),
            None => r@.len() == 0,
        },
{
}

/// A repository is opened as its point is configured, whole, and needs a
/// password; raw data is opened with the guards of its point, and never as a
/// repository.
pub proof fn law_points_are_opened_as_what_they_are(
    user: &VfsUser,
    point: &VfsPoint,
    layers: Vec<MountLayer>,
    r: Result<PointStore, VfsError>,
)
    requires
        call_ensures(point_layers, (user, point), layers),
        call_ensures(point_store, (user, point), r),
    ensures
        r is Err <==> point.is_repo && point.repo_password is None,
        r matches Ok(PointStore::Repo(_)) <==> point.is_repo && point.repo_password is Some,
        r matches Ok(PointStore::Repo(s)) ==> {
            &&& s.scheme@ == point.scheme@
            &&& crate::strmap::texts(s.config@) == crate::strmap::texts(point.config@)
            &&& point.repo_password matches Some(w) && s.password@ == w@
        },
        r matches Ok(PointStore::Data { layers: l }) ==> l@.len() == layers@.len() && (forall|
            i: int,
        |
            0 <= i < l@.len() ==> {
                &&& #[trigger] l@[i] is ReadOnly <==> layers@[i] is ReadOnly
                &&& l@[i] matches MountLayer::Quota { id, limit } ==> (
                layers@[i] matches MountLayer::Quota { id: i2, limit: l2 } && id@ == i2@ && limit
                    == l2)
            }),
        r matches Err(e) ==> e is RepoPasswordMissing,
{
}

/// A point is mounted under its name in the directory of its kind, with the
/// store that was opened for it. A repository can only be read there, and raw
/// data can be changed as far as its own guards let it.
pub proof fn law_points_are_mounted_under_their_name<O>(
    tree: VfsBuilder<O>,
    point: &VfsPoint,
    store: O,
    r: VfsBuilder<O>,
)
    requires
        call_ensures(mount_point::<O>, (tree, point, store), r),
    ensures
        r.pending@.len() == tree.pending@.len() + 1,
        forall|i: int| 0 <= i < tree.pending@.len() ==> #[trigger] r.pending@[i] == tree.pending@[i],
        ({
            let last = r.pending@[tree.pending@.len() as int];
            let path = if point.is_repo {
                "/repos/"@ + point.name@
            } else {
                "/points/"@ + point.name@
            };
            &&& last.path@ == normal(path)
            &&& point.name@.len() > 0 && point.name@[point.name@.len() - 1] != '/' ==> last.path@
                == path
            &&& last.mount.operator == store
            &&& last.mount.read_only == point.is_repo
            &&& last.mount.quota is Disabled
        }),
{
    assert forall|i: int| 0 <= i < tree.pending@.len() implies #[trigger] r.pending@[i]
        == tree.pending@[i] by {
        assert(r.pending@.drop_last()[i] == tree.pending@[i]);
    }
    assert(r.pending@.last() == r.pending@[tree.pending@.len() as int]);
    reveal_strlit("/points/");
    reveal_strlit("/repos/");
    let path = if point.is_repo {
        "/repos/"@ + point.name@
    } else {
        "/points/"@ + point.name@
    };
    let core = path.skip(1);
    let one = Seq::new(1, |i: int| '/');
    let none = Seq::new(0, |i: int| '/');
    assert(path =~= one + core + none);
    if point.name@.len() > 0 && point.name@[point.name@.len() - 1] != '/' {
        assert(core.last() == point.name@.last());
        crate::text::law_trimming_takes_off_what_was_put_on(1, core, 0, '/');
        assert(normal(path) =~= path);
    }
}

} // verus!
