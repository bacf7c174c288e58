//! Jobs on repositories: what must hold before one is started.
//!
//! A job that would fail because a point may not be changed is refused before
//! it is started.

use super::jobs::Timestamp;
use crate::model::{opt_text, PointView, RepoSource, RepoView, VfsPoint, VfsUser};
use crate::status::{Status, StatusView};
use crate::text::{join, joined, views};
use crate::utils::{data_point, local_root, local_root_of, repo_named, repo_point, repo_source,
    require_data_point, require_repo_point, require_writable, resolve_repo_point, source_of, writable};
use crate::vfs::util::sorted;
use vstd::prelude::*;

verus! {

// ── Backup ──────────────────────────────────────────────────────────────────

/// Whether the text from `i` to `j` of `s` stands between two commas, or
/// between one and an end, with none inside.
pub open spec fn is_between(s: Seq<char>, i: int, j: int) -> bool {
    &&& 0 <= i <= j <= s.len()
    &&& i == 0 || s[i - 1] == ','
    &&& j == s.len() || s[j] == ','
    &&& forall|k: int| i <= k < j ==> #[trigger] s[k] != ','
}

/// Whether `p` is one of the pieces of `s` between commas.
pub open spec fn is_piece(s: Seq<char>, p: Seq<char>) -> bool {
    exists|i: int, j: int| #[trigger] is_between(s, i, j) && p == s.subrange(i, j)
}

/// Whether `tags` are the pieces of `s` between commas, each once and in
/// dictionary order.
pub open spec fn are_pieces(tags: Seq<Seq<char>>, s: Seq<char>) -> bool {
    &&& sorted(tags)
    &&& forall|p: Seq<char>| #[trigger] tags.contains(p) <==> is_piece(s, p)
}

/// Calls the `FromStr` of `rustic_core::StringList`, which never fails. Claimed
/// of it: the list holds the pieces of the text between commas, each once and in
/// dictionary order.
#[verifier::external_body]
fn read_tags(s: &str) -> (r: Vec<String>)
    ensures
        are_pieces(views(r@), s@),
{
    s.parse::<rustic_core::StringList>().unwrap().iter().cloned().collect()
}

/// The tags that a snapshot carries where it is to be tagged with `tags`: they
/// are joined by commas and read back, so that a tag with a comma is several,
/// one that is repeated is one, and no tags are one empty tag.
pub fn backup_tags(tags: &Vec<String>) -> (r: Vec<String>)
    ensures
        are_pieces(views(r@), joined(views(tags@), ","@)),
{
    read_tags(join(tags, ",").as_str())
}

/// Calls `rustic_core::PathList::from_string`, which never fails. Claimed of it:
/// the list holds the text as its only path, whatever characters it holds.
#[verifier::external_body]
fn read_paths(s: &str) -> (r: Vec<String>)
    ensures
        views(r@) == seq![s@],
{
    let paths = rustic_core::PathList::from_string(s).unwrap().paths();
    paths.iter().map(|p| p.to_string_lossy().into_owned()).collect()
}

/// What a backup needs: the repository, which must be writable, the data, and
/// the directory of the data where that is on local disk.
pub open spec fn backup_of(points: Seq<PointView>, repo: Seq<char>, data: Seq<char>) -> Result<
    (PointView, RepoView, PointView, Option<Seq<char>>),
    StatusView,
> {
    match repo_point(points, repo) {
        Err(e) => Err(e),
        Ok(rp) => match writable(rp) {
            Err(e) => Err(e),
            Ok(_) => match source_of(rp) {
                Err(e) => Err(e),
                Ok(src) => match data_point(points, data) {
                    Err(e) => Err(e),
                    Ok(dp) => match local_root(dp) {
                        Err(e) => Err(e),
                        Ok(root) => Ok((rp, src, dp, root)),
                    },
                },
            },
        },
    }
}

/// A backup that may be started.
#[derive(Debug)]
pub struct BackupPlan<'a> {
    pub repo_point: &'a VfsPoint,
    pub repo: RepoSource,
    pub data_point: &'a VfsPoint,
    /// The directory that is read, where the data is on local disk; else its
    /// store is read.
    pub local_root: Option<String>,
    /// The paths in the data that are saved.
    pub paths: Vec<String>,
    /// The tags that the snapshot carries.
    pub tags: Vec<String>,
}

/// Checks a backup of `source_path` in the data point `data_name` into the
/// repository `repo_name`.
pub fn backup<'a>(
    user: &'a VfsUser,
    repo_name: &str,
    data_name: &str,
    source_path: &str,
    tags: &Vec<String>,
) -> (r: Result<BackupPlan<'a>, Status>)
    ensures
        match r {
            Ok(plan) => {
                &&& backup_of(user@.points, repo_name@, data_name@) == Ok::<
                    (PointView, RepoView, PointView, Option<Seq<char>>),
                    StatusView,
                >((plan.repo_point@, plan.repo@, plan.data_point@, opt_text(plan.local_root)))
                &&& views(plan.paths@) == seq![source_path@]
                &&& are_pieces(views(plan.tags@), joined(views(tags@), ","@))
            },
            Err(e) => backup_of(user@.points, repo_name@, data_name@) == Err::<
                (PointView, RepoView, PointView, Option<Seq<char>>),
                StatusView,
            >(e@),
        },
{
    let rp = match require_repo_point(user, repo_name) {
        Ok(p) => p,
        Err(e) => {
            return Err(e);
        },
    };
    match require_writable(rp) {
        Ok(_) => {},
        Err(e) => {
            return Err(e);
        },
    }
    let repo = match repo_source(rp) {
        Ok(s) => s,
        Err(e) => {
            return Err(e);
        },
    };
    let dp = match require_data_point(user, data_name) {
        Ok(p) => p,
        Err(e) => {
            return Err(e);
        },
    };
    match local_root_of(dp) {
        Ok(local_root) => Ok(
            BackupPlan {
                repo_point: rp,
                repo,
                data_point: dp,
                local_root,
                paths: read_paths(source_path),
                tags: backup_tags(tags),
            },
        ),
        Err(e) => Err(e),
    }
}

// ── Restore ─────────────────────────────────────────────────────────────────

/// What a restore needs: the repository, and the data, which must be writable.
pub open spec fn restore_of(points: Seq<PointView>, repo: Seq<char>, data: Seq<char>) -> Result<
    (PointView, RepoView, PointView),
    StatusView,
> {
    match repo_point(points, repo) {
        Err(e) => Err(e),
        Ok(rp) => match source_of(rp) {
            Err(e) => Err(e),
            Ok(src) => match data_point(points, data) {
                Err(e) => Err(e),
                Ok(dp) => match writable(dp) {
                    Err(e) => Err(e),
                    Ok(_) => Ok((rp, src, dp)),
                },
            },
        },
    }
}

/// A restore that may be started.
#[derive(Debug)]
pub struct RestorePlan<'a> {
    pub repo_point: &'a VfsPoint,
    pub repo: RepoSource,
    pub dest_point: &'a VfsPoint,
    /// The snapshot and the path in it.
    pub snapshot: String,
    /// Whether anything is written after the restore was prepared.
    pub writes: bool,
}

/// Checks a restore of `snapshot_path` in the snapshot `snapshot_id` of the
/// repository `repo_name` into the data point `data_name`.
pub fn restore<'a>(
    user: &'a VfsUser,
    repo_name: &str,
    data_name: &str,
    snapshot_id: &str,
    snapshot_path: &str,
    dry_run: bool,
) -> (r: Result<RestorePlan<'a>, Status>)
    ensures
        match r {
            Ok(plan) => {
                &&& restore_of(user@.points, repo_name@, data_name@) == Ok::<
                    (PointView, RepoView, PointView),
                    StatusView,
                >((plan.repo_point@, plan.repo@, plan.dest_point@))
                &&& plan.snapshot@ == snapshot_id@ + ":"@ + snapshot_path@
                &&& plan.writes == !dry_run
            },
            Err(e) => restore_of(user@.points, repo_name@, data_name@) == Err::<
                (PointView, RepoView, PointView),
                StatusView,
            >(e@),
        },
{
    let rp = match require_repo_point(user, repo_name) {
        Ok(p) => p,
        Err(e) => {
            return Err(e);
        },
    };
    let repo = match repo_source(rp) {
        Ok(s) => s,
        Err(e) => {
            return Err(e);
        },
    };
    let dp = match require_data_point(user, data_name) {
        Ok(p) => p,
        Err(e) => {
            return Err(e);
        },
    };
    match require_writable(dp) {
        Ok(_) => Ok(
            RestorePlan {
                repo_point: rp,
                repo,
                dest_point: dp,
                snapshot: snapshot_id.to_owned().concat(":").concat(snapshot_path),
                writes: !dry_run,
            },
        ),
        Err(e) => Err(e),
    }
}

// ── Check, forget, list ─────────────────────────────────────────────────────

/// What a job on a repository needs. One that changes it needs it writable.
pub open spec fn repo_job_of(points: Seq<PointView>, repo: Seq<char>, changes: bool) -> Result<
    (PointView, RepoView),
    StatusView,
> {
    match repo_point(points, repo) {
        Err(e) => Err(e),
        Ok(rp) => match if changes {
            writable(rp)
        } else {
            Ok(())
        } {
            Err(e) => Err(e),
            Ok(_) => match source_of(rp) {
                Err(e) => Err(e),
                Ok(src) => Ok((rp, src)),
            },
        },
    }
}

/// A job on a repository that may be started.
#[derive(Debug)]
pub struct RepoPlan<'a> {
    pub repo_point: &'a VfsPoint,
    pub repo: RepoSource,
}

/// Whether a check gave what it should.
pub open spec fn gives_plan(
    r: Result<RepoPlan, Status>,
    s: Result<(PointView, RepoView), StatusView>,
) -> bool {
    match r {
        Ok(plan) => s == Ok::<(PointView, RepoView), StatusView>((plan.repo_point@, plan.repo@)),
        Err(e) => s == Err::<(PointView, RepoView), StatusView>(e@),
    }
}

/// Checks a job on the repository `repo_name`.
fn repo_job<'a>(user: &'a VfsUser, repo_name: &str, changes: bool) -> (r: Result<
    RepoPlan<'a>,
    Status,
>)
    ensures
        gives_plan(r, repo_job_of(user@.points, repo_name@, changes)),
{
    let rp = match require_repo_point(user, repo_name) {
        Ok(p) => p,
        Err(e) => {
            return Err(e);
        },
    };
    if changes {
        match require_writable(rp) {
            Ok(_) => {},
            Err(e) => {
                return Err(e);
            },
        }
    }
    match repo_source(rp) {
        Ok(repo) => Ok(RepoPlan { repo_point: rp, repo }),
        Err(e) => Err(e),
    }
}

/// Checks that the repository `repo_name` may be checked for damage.
pub fn check<'a>(user: &'a VfsUser, repo_name: &str) -> (r: Result<RepoPlan<'a>, Status>)
    ensures
        gives_plan(r, repo_job_of(user@.points, repo_name@, false)),
{
    repo_job(user, repo_name, false)
}

/// Checks that snapshots may be deleted from the repository `repo_name`. Which
/// ones, [`snapshot_ids`](super::ids::snapshot_ids) reads.
pub fn forget<'a>(user: &'a VfsUser, repo_name: &str) -> (r: Result<RepoPlan<'a>, Status>)
    ensures
        gives_plan(r, repo_job_of(user@.points, repo_name@, true)),
{
    repo_job(user, repo_name, true)
}

/// What opens the repository `repo_name`, whose snapshots are to be listed.
pub fn get_snapshots(user: &VfsUser, repo_name: &str) -> (r: Result<RepoSource, Status>)
    ensures
        crate::utils::gives_source(r, repo_named(user@.points, repo_name@)),
{
    resolve_repo_point(user, repo_name)
}

/// What a snapshot counts.
#[derive(Clone, Copy, Debug, PartialEq, Eq, Structural)]
pub struct Summary {
    pub files_new: u64,
    pub files_changed: u64,
    pub files_unmodified: u64,
    pub total_files_processed: u64,
    pub total_bytes_processed: u64,
    pub dirs_new: u64,
    pub dirs_changed: u64,
    pub dirs_unmodified: u64,
    pub total_dirs_processed: u64,
    pub total_dirsize_processed: u64,
    pub data_blobs: u64,
    pub tree_blobs: u64,
    pub data_added: u64,
    pub data_added_packed: u64,
    pub data_added_files: u64,
    pub data_added_files_packed: u64,
    pub data_added_trees: u64,
    pub data_added_trees_packed: u64,
    pub backup_start: Timestamp,
    pub backup_end: Timestamp,
}

/// What is reported of a snapshot: as packed data, what its files added.
pub fn reported_summary(s: Summary) -> (r: Summary)
    ensures
        r == (Summary { data_added_packed: s.data_added_files_packed, ..s }),
{
    let mut r = s;
    r.data_added_packed = s.data_added_files_packed;
    r
}

// ── Laws ────────────────────────────────────────────────────────────────────

/// Nothing is ever backed up into, or deleted from, a repository that is
/// read-only; such a job is refused before it is started.
pub proof fn law_read_only_repo_is_never_written(
    points: Seq<PointView>,
    repo: Seq<char>,
    data: Seq<char>,
)
    requires
        repo_point(points, repo) matches Ok(p) && p.read_only,
    ensures
        backup_of(points, repo, data) matches Err(e) && e.code
            == crate::status::Code::PermissionDenied,
        repo_job_of(points, repo, true) matches Err(e) && e.code
            == crate::status::Code::PermissionDenied,
{
}

/// Nothing is ever restored into data that is read-only.
pub proof fn law_read_only_data_is_never_restored_into(
    points: Seq<PointView>,
    repo: Seq<char>,
    data: Seq<char>,
)
    requires
        data_point(points, data) matches Ok(p) && p.read_only,
    ensures
        restore_of(points, repo, data) is Err,
        repo_named(points, repo) is Ok ==> (restore_of(points, repo, data) matches Err(e) && e.code
            == crate::status::Code::PermissionDenied),
{
}

/// A job that only reads a repository does not need it writable: what may be
/// changed may be read, and the same repository is opened.
pub proof fn law_changing_needs_more_than_reading(points: Seq<PointView>, repo: Seq<char>)
    requires
        repo_job_of(points, repo, true) is Ok,
    ensures
        repo_job_of(points, repo, false) == repo_job_of(points, repo, true),
{
}

/// The pieces of a text that ends with a comma and more: those before the
/// comma, and what follows it.
proof fn lemma_last_piece(a: Seq<char>, b: Seq<char>, p: Seq<char>)
    requires
        !b.contains(','),
    ensures
        is_piece(a + ","@ + b, p) <==> is_piece(a, p) || p == b,
{
    reveal_strlit(",");
    let s = a + ","@ + b;
    let n = a.len() as int;
    assert(s[n] == ',');
    assert forall|k: int| n < k < s.len() implies s[k] != ',' by {
        assert(s[k] == b[k - n - 1]);
        assert(b.contains(b[k - n - 1]));
    }
    if is_piece(s, p) {
        let (i, j) = choose|i: int, j: int| #[trigger] is_between(s, i, j) && p == s.subrange(i, j);
        if j <= n {
            assert forall|k: int| i <= k < j implies #[trigger] a[k] != ',' by {
                assert(s[k] == a[k]);
            }
            assert(is_between(a, i, j));
            assert(p =~= a.subrange(i, j));
        } else {
            assert(i > n);
            assert(i == n + 1);
            assert(j == s.len());
            assert(p =~= b);
        }
    }
    if is_piece(a, p) {
        let (i, j) = choose|i: int, j: int| #[trigger] is_between(a, i, j) && p == a.subrange(i, j);
        assert forall|k: int| i <= k < j implies #[trigger] s[k] != ',' by {
            assert(s[k] == a[k]);
        }
        assert(is_between(s, i, j));
        assert(p =~= s.subrange(i, j));
    }
    if p == b {
        assert(is_between(s, n + 1, s.len() as int));
        assert(p =~= s.subrange(n + 1, s.len() as int));
    }
}

/// The only piece of a text without commas is the text.
proof fn lemma_whole_piece(s: Seq<char>, p: Seq<char>)
    requires
        !s.contains(','),
    ensures
        is_piece(s, p) <==> p == s,
{
    assert forall|k: int| 0 <= k < s.len() implies s[k] != ',' by {
        assert(s.contains(s[k]));
    }
    assert(is_between(s, 0, s.len() as int));
    assert(s.subrange(0, s.len() as int) =~= s);
    if is_piece(s, p) {
        let (i, j) = choose|i: int, j: int| #[trigger] is_between(s, i, j) && p == s.subrange(i, j);
        assert(i == 0 && j == s.len());
    }
}

/// A snapshot carries exactly the tags that it is given, where there are some
/// and none holds a comma.
pub proof fn law_tags_are_kept(tags: Seq<Seq<char>>, p: Seq<char>)
    requires
        tags.len() > 0,
        forall|i: int| 0 <= i < tags.len() ==> !(#[trigger] tags[i]).contains(','),
    ensures
        is_piece(joined(tags, ","@), p) <==> tags.contains(p),
    decreases tags.len(),
{
    let last = tags.last();
    assert(tags[tags.len() - 1] == last);
    if tags.len() == 1 {
        lemma_whole_piece(last, p);
        if tags.contains(p) {
            assert(tags[0] == p);
        }
    } else {
        let front = tags.drop_last();
        assert forall|i: int| 0 <= i < front.len() implies !(#[trigger] front[i]).contains(
            ',',
        ) by {
            assert(front[i] == tags[i]);
        }
        law_tags_are_kept(front, p);
        lemma_last_piece(joined(front, ","@), last, p);
        if tags.contains(p) {
            let i = choose|i: int| 0 <= i < tags.len() && tags[i] == p;
            if i < front.len() {
                assert(front[i] == p);
            }
        }
        if front.contains(p) {
            let i = choose|i: int| 0 <= i < front.len() && front[i] == p;
            assert(tags[i] == p);
        }
    }
}

/// A snapshot that is given no tags carries the empty one.
pub proof fn law_no_tags_are_one_empty_tag(p: Seq<char>)
    ensures
        is_piece(joined(Seq::empty(), ","@), p) <==> p == Seq::<char>::empty(),
{
    lemma_whole_piece(Seq::empty(), p);
}

/// A backup is started exactly where the repository is there, can be written
/// and has a password, and the data is there and, on local disk, names its
/// directory. It goes from the data that was named into the repository that was
/// named, opened as its point is configured, whole. The repository is judged
/// before the data.
pub proof fn law_backups_go_from_the_data_to_the_repository<'a>(
    user: &'a VfsUser,
    repo_name: &str,
    data_name: &str,
    source_path: &str,
    tags: &Vec<String>,
    rp: Result<&'a VfsPoint, Status>,
    dp: Result<&'a VfsPoint, Status>,
    r: Result<BackupPlan<'a>, Status>,
)
    requires
        call_ensures(require_repo_point, (user, repo_name), rp),
        call_ensures(require_data_point, (user, data_name), dp),
        call_ensures(backup, (user, repo_name, data_name, source_path, tags), r),
    ensures
        r is Ok <==> {
            &&& rp matches Ok(p) && !p.read_only && p.repo_password is Some
            &&& dp matches Ok(d) && (d.scheme@ == seq!['f', 's'] ==> d@.config.contains_key(
                "root"@,
            ))
        },
        r matches Ok(plan) ==> {
            &&& rp matches Ok(p) && plan.repo_point@ == p@ && plan.repo.scheme@ == p.scheme@
                && crate::strmap::texts(plan.repo.config@) == crate::strmap::texts(p.config@) && (
            p.repo_password matches Some(w) && plan.repo.password@ == w@)
            &&& dp matches Ok(d) && plan.data_point@ == d@ && (plan.local_root is Some <==> d.scheme@
                == seq!['f', 's']) && (plan.local_root matches Some(root) ==> root@
                == d@.config["root"@])
            &&& plan.paths@.len() == 1 && plan.paths@[0]@ == source_path@
            &&& forall|p: Seq<char>| #[trigger]
                views(plan.tags@).contains(p) <==> is_piece(joined(views(tags@), ","@), p)
            &&& forall|i: int, j: int|
                0 <= i < j < plan.tags@.len() ==> crate::text::precedes(
                    (#[trigger] plan.tags@[i])@,
                    (#[trigger] plan.tags@[j])@,
                )
        },
        rp matches Err(e) ==> (r matches Err(f) && f@ == e@),
        rp matches Ok(p) ==> p.read_only ==> (r matches Err(e) && e.code
            == crate::status::Code::PermissionDenied),
        rp matches Ok(p) ==> !p.read_only && p.repo_password is None ==> (r matches Err(e) && e.code
            == crate::status::Code::InvalidArgument),
        rp matches Ok(p) ==> !p.read_only && p.repo_password is Some ==> (dp matches Err(e) ==> (
        r matches Err(f) && f@ == e@)),
{
    reveal_strlit("fs");
    assert("fs"@ =~= seq!['f', 's']);
    if r is Ok {
        let plan = r->Ok_0;
        assert(views(plan.paths@).len() == plan.paths@.len());
        assert(views(plan.paths@)[0] == plan.paths@[0]@);
        let carried = views(plan.tags@);
        assert forall|i: int, j: int| 0 <= i < j < plan.tags@.len() implies crate::text::precedes(
            (#[trigger] plan.tags@[i])@,
            (#[trigger] plan.tags@[j])@,
        ) by {
            assert(crate::text::precedes(carried[i], carried[j]));
        }
    }
}

/// A restore is started exactly where the repository is there and has a
/// password, and the data is there and can be written. It goes from the
/// snapshot that was named, out of the repository that was named, into the data
/// that was named; only a dry run writes nothing.
pub proof fn law_restores_go_from_the_repository_to_the_data<'a>(
    user: &'a VfsUser,
    repo_name: &str,
    data_name: &str,
    snapshot_id: &str,
    snapshot_path: &str,
    dry_run: bool,
    rp: Result<&'a VfsPoint, Status>,
    dp: Result<&'a VfsPoint, Status>,
    r: Result<RestorePlan<'a>, Status>,
)
    requires
        call_ensures(require_repo_point, (user, repo_name), rp),
        call_ensures(require_data_point, (user, data_name), dp),
        call_ensures(
            restore,
            (user, repo_name, data_name, snapshot_id, snapshot_path, dry_run),
            r,
        ),
    ensures
        r is Ok <==> {
            &&& rp matches Ok(p) && p.repo_password is Some
            &&& dp matches Ok(d) && !d.read_only
        },
        r matches Ok(plan) ==> {
            &&& rp matches Ok(p) && plan.repo_point@ == p@ && plan.repo.scheme@ == p.scheme@
                && crate::strmap::texts(plan.repo.config@) == crate::strmap::texts(p.config@) && (
            p.repo_password matches Some(w) && plan.repo.password@ == w@)
            &&& dp matches Ok(d) && plan.dest_point@ == d@
            &&& plan.snapshot@ == snapshot_id@ + ":"@ + snapshot_path@
            &&& plan.writes <==> !dry_run
        },
        rp matches Err(e) ==> (r matches Err(f) && f@ == e@),
        rp matches Ok(p) ==> p.repo_password is Some ==> (dp matches Err(e) ==> (r matches Err(f)
            && f@ == e@)),
        rp matches Ok(p) ==> p.repo_password is Some ==> (dp matches Ok(d) ==> d.read_only ==> (
        r matches Err(e) && e.code == crate::status::Code::PermissionDenied)),
{
}

/// A repository is checked, and its snapshots are listed, wherever it is there
/// and has a password; deleting snapshots needs it writable as well. It is
/// always the repository that was named, opened as its point is configured,
/// whole.
pub proof fn law_repositories_are_worked_on_as_named<'a>(
    user: &'a VfsUser,
    repo_name: &str,
    rp: Result<&'a VfsPoint, Status>,
    checked: Result<RepoPlan<'a>, Status>,
    forgotten: Result<RepoPlan<'a>, Status>,
    listed: Result<RepoSource, Status>,
)
    requires
        call_ensures(require_repo_point, (user, repo_name), rp),
        call_ensures(check, (user, repo_name), checked),
        call_ensures(forget, (user, repo_name), forgotten),
        call_ensures(get_snapshots, (user, repo_name), listed),
    ensures
        checked is Ok <==> (rp matches Ok(p) && p.repo_password is Some),
        listed is Ok <==> (rp matches Ok(p) && p.repo_password is Some),
        forgotten is Ok <==> (rp matches Ok(p) && p.repo_password is Some && !p.read_only),
        checked matches Ok(plan) ==> (rp matches Ok(p) && plan.repo_point@ == p@
            && plan.repo.scheme@ == p.scheme@ && crate::strmap::texts(plan.repo.config@)
            == crate::strmap::texts(p.config@) && (p.repo_password matches Some(w)
            && plan.repo.password@ == w@)),
        forgotten matches Ok(plan) ==> (rp matches Ok(p) && plan.repo_point@ == p@
            && plan.repo.scheme@ == p.scheme@ && crate::strmap::texts(plan.repo.config@)
            == crate::strmap::texts(p.config@) && (p.repo_password matches Some(w)
            && plan.repo.password@ == w@)),
        listed matches Ok(s) ==> (rp matches Ok(p) && s.scheme@ == p.scheme@
            && crate::strmap::texts(s.config@) == crate::strmap::texts(p.config@) && (
        p.repo_password matches Some(w) && s.password@ == w@)),
        rp matches Ok(p) ==> p.read_only ==> (forgotten matches Err(e) && e.code
            == crate::status::Code::PermissionDenied),
        rp matches Err(e) ==> (checked matches Err(f) && f@ == e@) && (forgotten matches Err(f)
            && f@ == e@) && (listed matches Err(f) && f@ == e@),
{
}

/// The tags of a text are those on both sides of each comma, and of no other
/// character.
pub proof fn law_tags_are_split_at_commas(a: Seq<char>, b: Seq<char>, p: Seq<char>)
    ensures
        is_piece(a + seq![','] + b, p) <==> is_piece(a, p) || is_piece(b, p),
        is_piece(a, p) ==> !p.contains(','),
        !a.contains(',') ==> (is_piece(a, p) <==> p == a),
{
    let s = a + seq![','] + b;
    let n = a.len() as int;
    assert(s[n] == ',');
    if is_piece(s, p) {
        let (i, j) = choose|i: int, j: int| #[trigger] is_between(s, i, j) && p == s.subrange(i, j);
        if j <= n {
            assert forall|k: int| i <= k < j implies #[trigger] a[k] != ',' by {
                assert(s[k] == a[k]);
            }
            assert(is_between(a, i, j));
            assert(p =~= a.subrange(i, j));
        } else {
            assert(i > n) by {
                if i <= n {
                    assert(s[n] != ',');
                }
            }
            assert forall|k: int| i - n - 1 <= k < j - n - 1 implies #[trigger] b[k] != ',' by {
                assert(s[k + n + 1] == b[k]);
            }
            if i > n + 1 {
                assert(s[i - 1] == b[i - n - 2]);
            }
            if j < s.len() {
                assert(s[j] == b[j - n - 1]);
            }
            assert(is_between(b, i - n - 1, j - n - 1));
            assert(p =~= b.subrange(i - n - 1, j - n - 1));
        }
    }
    if is_piece(a, p) {
        let (i, j) = choose|i: int, j: int| #[trigger] is_between(a, i, j) && p == a.subrange(i, j);
        assert forall|k: int| i <= k < j implies #[trigger] s[k] != ',' by {
            assert(s[k] == a[k]);
        }
        if i > 0 {
            assert(s[i - 1] == a[i - 1]);
        }
        if j < n {
            assert(s[j] == a[j]);
        }
        assert(is_between(s, i, j));
        assert(p =~= s.subrange(i, j));
        assert forall|k: int| 0 <= k < p.len() implies p[k] != ',' by {
            assert(a[i + k] != ',');
        }
    }
    if is_piece(b, p) {
        let (i, j) = choose|i: int, j: int| #[trigger] is_between(b, i, j) && p == b.subrange(i, j);
        assert forall|k: int| i + n + 1 <= k < j + n + 1 implies #[trigger] s[k] != ',' by {
            assert(s[k] == b[k - n - 1]);
        }
        if i > 0 {
            assert(s[i + n] == b[i - 1]);
        }
        if j < b.len() {
            assert(s[j + n + 1] == b[j]);
        }
        assert(is_between(s, i + n + 1, j + n + 1));
        assert(p =~= s.subrange(i + n + 1, j + n + 1));
    }
    if !a.contains(',') {
        lemma_whole_piece(a, p);
    }
}

/// A snapshot carries the tags that it is given, each once and in order, where
/// there are some and none holds a comma; one that is given none carries the
/// empty one.
pub proof fn law_snapshots_carry_their_tags(tags: &Vec<String>, r: Vec<String>, p: Seq<char>)
    requires
        call_ensures(backup_tags, (tags,), r),
    ensures
        forall|i: int, j: int|
            0 <= i < j < r@.len() ==> crate::text::precedes(
                (#[trigger] r@[i])@,
                (#[trigger] r@[j])@,
            ),
        tags@.len() > 0 && (forall|i: int|
            0 <= i < tags@.len() ==> !(#[trigger] tags@[i])@.contains(',')) ==> (views(r@).contains(
            p,
        ) <==> views(tags@).contains(p)),
        tags@.len() == 0 ==> (views(r@).contains(p) <==> p.len() == 0),
{
    let all = views(r@);
    assert forall|i: int, j: int| 0 <= i < j < r@.len() implies crate::text::precedes(
        (#[trigger] r@[i])@,
        (#[trigger] r@[j])@,
    ) by {
        assert(crate::text::precedes(all[i], all[j]));
    }
    if tags@.len() == 0 {
        assert(views(tags@) =~= Seq::empty());
        law_no_tags_are_one_empty_tag(p);
        if p.len() == 0 {
            assert(p =~= Seq::empty());
        }
    }
    if tags@.len() > 0 && (forall|i: int|
        0 <= i < tags@.len() ==> !(#[trigger] tags@[i])@.contains(',')) {
        assert forall|i: int| 0 <= i < views(tags@).len() implies !(
        #[trigger] views(tags@)[i]).contains(',') by {
            assert(views(tags@)[i] == tags@[i]@);
        }
        law_tags_are_kept(views(tags@), p);
    }
}

/// Of a summary only what was packed is reported otherwise, as what its files
/// added.
pub proof fn law_summaries_are_reported_as_counted(s: Summary, r: Summary)
    requires
        call_ensures(reported_summary, (s,), r),
    ensures
        r.data_added_packed == s.data_added_files_packed,
        r.data_added_files_packed == s.data_added_files_packed,
        r.files_new == s.files_new,
        r.files_changed == s.files_changed,
        r.files_unmodified == s.files_unmodified,
        r.total_files_processed == s.total_files_processed,
        r.total_bytes_processed == s.total_bytes_processed,
        r.dirs_new == s.dirs_new,
        r.dirs_changed == s.dirs_changed,
        r.dirs_unmodified == s.dirs_unmodified,
        r.total_dirs_processed == s.total_dirs_processed,
        r.total_dirsize_processed == s.total_dirsize_processed,
        r.data_blobs == s.data_blobs,
        r.tree_blobs == s.tree_blobs,
        r.data_added == s.data_added,
        r.data_added_files == s.data_added_files,
        r.data_added_trees == s.data_added_trees,
        r.data_added_trees_packed == s.data_added_trees_packed,
        r.backup_start == s.backup_start,
        r.backup_end == s.backup_end,
{
}

} // verus!
