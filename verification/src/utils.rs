//! Paths, names and lookups that the service shares.

use crate::error::{Error, ErrorKind, ErrorView};
use crate::ipc::{self, RepoSourceView};
use crate::model::{opt_text, vfs_error_text, DataSource, PointView, RepoSource, RepoView, VfsError, VfsPoint,
    VfsUser};
use crate::server::jobs::Timestamp;
use crate::status::{denied, failed, invalid, missing, Status, StatusView};
use crate::strmap::texts;
use crate::text::{begins, begins_with, cut, ends, ends_with, head, replace_all, replaced, same,
    tail, trim_start, without_lead};
use vstd::prelude::*;

verus! {

// ── Failures ────────────────────────────────────────────────────────────────

/// How a failure of the user store is reported.
pub open spec fn vfs_status(e: VfsError) -> StatusView {
    match e {
        VfsError::UserNotFound => missing("vfs user not found"@),
        _ => failed(vfs_error_text(e)),
    }
}

/// Reports a failure of the user store.
pub fn map_vfs(e: VfsError) -> (r: Status)
    ensures
        r@ == vfs_status(e),
{
    match e {
        VfsError::UserNotFound => Status::not_found("vfs user not found".to_owned()),
        _ => Status::internal(e.text()),
    }
}

/// How a failure of a store is reported.
pub open spec fn dal_status(kind: ErrorKind, text: Seq<char>) -> StatusView {
    match kind {
        ErrorKind::NotFound => missing(text),
        ErrorKind::PermissionDenied => denied(text),
        _ => failed(text),
    }
}

/// Reports a failure of a store, given by its category and its text.
pub fn map_dal(kind: ErrorKind, text: String) -> (r: Status)
    ensures
        r@ == dal_status(kind, text@),
{
    match kind {
        ErrorKind::NotFound => Status::not_found(text),
        ErrorKind::PermissionDenied => Status::permission_denied(text),
        _ => Status::internal(text),
    }
}

/// A change under a read-only mount.
pub fn vfs_permission_denied(path: &str) -> (r: Error)
    ensures
        r@ == ErrorView::plain(ErrorKind::PermissionDenied, "mount is read-only"@).with(
            "path"@,
            path@,
        ),
{
    crate::vfs::util::permission_denied(path)
}

/// An operation that the file system does not have.
pub fn vfs_unsupported(op: &'static str) -> (r: Error)
    ensures
        r@ == ErrorView::plain(
            ErrorKind::Unsupported,
            "MountFs does not support `"@ + op@ + "`."@,
        ),
{
    crate::vfs::util::unsupported(op)
}

// ── Times ───────────────────────────────────────────────────────────────────

/// The time that is `seconds` and `nanos` after the epoch.
pub fn to_ts(seconds: i64, nanos: i32) -> (r: Timestamp)
    ensures
        r == (Timestamp { seconds, nanos }),
{
    Timestamp { seconds, nanos }
}

/// The time that is given, if one is.
pub fn opt_ts(time: Option<(i64, i32)>) -> (r: Option<Timestamp>)
    ensures
        match time {
            Some((seconds, nanos)) => r == Some(Timestamp { seconds, nanos }),
            None => r is None,
        },
{
    match time {
        Some((seconds, nanos)) => Some(to_ts(seconds, nanos)),
        None => None,
    }
}

// ── Paths ───────────────────────────────────────────────────────────────────

/// `p` with a slash before it, and after it exactly where it is to name a
/// directory. Only one slash after a file is taken away.
pub open spec fn fixed(p: Seq<char>, is_dir: bool) -> Seq<char> {
    let a = if begins(p, '/') {
        p
    } else {
        seq!['/'] + p
    };
    let b = if is_dir && !ends(a, '/') {
        a.push('/')
    } else if !is_dir && ends(a, '/') {
        a.drop_last()
    } else {
        a
    };
    replaced(b, '\\', '/')
}

/// Brings a path into the form that stores take: slashes for backslashes, a
/// slash first, and a slash last for directories only.
pub fn fix_path(p: &str, is_dir: bool) -> (r: String)
    ensures
        r@ == fixed(p@, is_dir),
{
    let mut out = String::new();
    if !begins_with(p, '/') {
        out.push('/');
    }
    out.append(p);
    proof {
        assert(out@ =~= if begins(p@, '/') {
            p@
        } else {
            seq!['/'] + p@
        });
    }
    if is_dir && !ends_with(out.as_str(), '/') {
        out.push('/');
    } else if !is_dir && ends_with(out.as_str(), '/') {
        let all = crate::text::chars_of(out.as_str());
        let ghost before = out@;
        out = crate::text::text_of(&all, 0, all.len() - 1);
        assert(out@ =~= before.drop_last());
    }
    replace_all(out.as_str(), '\\', '/')
}

/// The directory that holds raw data points.
pub const POINTS_ROOT: &'static str = "points";

/// The directory that holds repositories.
pub const REPOS_ROOT: &'static str = "repos";

/// Where a data point is mounted.
pub open spec fn data_mount(name: Seq<char>) -> Seq<char> {
    "/points/"@ + name
}

/// Where a repository is mounted.
pub open spec fn repo_mount(name: Seq<char>) -> Seq<char> {
    "/repos/"@ + name
}

/// Where the data point `point_name` is mounted, such as `/points/local`.
pub fn data_mount_path(point_name: &str) -> (r: String)
    ensures
        r@ == data_mount(point_name@),
{
    "/points/".to_owned().concat(point_name)
}

/// Where the repository `point_name` is mounted, such as `/repos/backup`.
pub fn repo_mount_path(point_name: &str) -> (r: String)
    ensures
        r@ == repo_mount(point_name@),
{
    "/repos/".to_owned().concat(point_name)
}

/// How a character of a username stands in a quota id: as itself, but for the
/// dash, which ends the username, and for the sign that stands for the two.
pub open spec fn escape_of(c: char) -> Seq<char> {
    if c == '%' {
        seq!['%', '2', '5']
    } else if c == '-' {
        seq!['%', '2', 'D']
    } else {
        seq![c]
    }
}

/// A username as it stands in a quota id, without any dash.
pub open spec fn escaped(name: Seq<char>) -> Seq<char>
    decreases name.len(),
{
    if name.len() == 0 {
        Seq::empty()
    } else {
        escape_of(name[0]) + escaped(name.skip(1))
    }
}

/// Writes a username as it stands in a quota id.
fn escape(name: &str) -> (r: String)
    ensures
        r@ == escaped(name@),
{
    let all = crate::text::chars_of(name);
    let ghost whole = escaped(name@);
    let mut out = String::new();
    let mut i: usize = 0;
    assert(name@.skip(0) =~= name@);
    assert(out@ + escaped(name@.skip(0)) =~= whole);
    while i < all.len()
        invariant
            all@ == name@,
            whole == escaped(name@),
            i <= all@.len(),
            out@ + escaped(name@.skip(i as int)) == whole,
        decreases all@.len() - i,
    {
        let ghost before = out@;
        let c = all[i];
        assert(name@.skip(i as int)[0] == c);
        assert(name@.skip(i as int).skip(1) =~= name@.skip(i + 1));
        if c == '%' {
            out.push('%');
            out.push('2');
            out.push('5');
        } else if c == '-' {
            out.push('%');
            out.push('2');
            out.push('D');
        } else {
            out.push(c);
        }
        assert(out@ =~= before + escape_of(c));
        assert(out@ + escaped(name@.skip(i + 1)) =~= before + escaped(name@.skip(i as int)));
        i += 1;
    }
    assert(out@ =~= whole);
    out
}

/// The id under which the bytes of a user's point are counted: the username
/// and the name of the point, with a dash between them. A dash in the username
/// is escaped, so that the first dash ends it.
pub open spec fn quota_key(username: Seq<char>, point: Seq<char>) -> Seq<char> {
    escaped(username) + "-"@ + point
}

/// The id under which the bytes of a user's point are counted, such as
/// `alice-local`. No other point of any user has it.
pub fn quota_id(username: &str, point_name: &str) -> (r: String)
    ensures
        r@ == quota_key(username@, point_name@),
{
    escape(username).concat("-").concat(point_name)
}

// ── Points ──────────────────────────────────────────────────────────────────

/// The first point of that name.
pub open spec fn found(points: Seq<PointView>, name: Seq<char>) -> Result<PointView, StatusView>
    decreases points.len(),
{
    if points.len() == 0 {
        Err(invalid("point '"@ + name + "' not found"@))
    } else if points[0].name == name {
        Ok(points[0])
    } else {
        found(points.skip(1), name)
    }
}

/// The point of that name, which must be a repository.
pub open spec fn repo_point(points: Seq<PointView>, name: Seq<char>) -> Result<
    PointView,
    StatusView,
> {
    match found(points, name) {
        Err(e) => Err(e),
        Ok(p) => if p.is_repo {
            Ok(p)
        } else {
            Err(invalid("point '"@ + name + "' is a data point, not a repo"@))
        },
    }
}

/// The point of that name, which must be raw data.
pub open spec fn data_point(points: Seq<PointView>, name: Seq<char>) -> Result<
    PointView,
    StatusView,
> {
    match found(points, name) {
        Err(e) => Err(e),
        Ok(p) => if p.is_repo {
            Err(invalid("point '"@ + name + "' is a repo, not a data point"@))
        } else {
            Ok(p)
        },
    }
}

/// Whether `p` may be changed.
pub open spec fn writable(p: PointView) -> Result<(), StatusView> {
    if p.read_only {
        Err(denied("point '"@ + p.name + "' is read-only"@))
    } else {
        Ok(())
    }
}

/// What opens the repository `p`.
pub open spec fn source_of(p: PointView) -> Result<RepoView, StatusView> {
    match p.repo_password {
        None => Err(invalid("repo point '"@ + p.name + "' is missing a password"@)),
        Some(password) => Ok(RepoView { scheme: p.scheme, config: p.config, password }),
    }
}

/// What opens the repository of that name.
pub open spec fn repo_named(points: Seq<PointView>, name: Seq<char>) -> Result<
    RepoView,
    StatusView,
> {
    match repo_point(points, name) {
        Err(e) => Err(e),
        Ok(p) => source_of(p),
    }
}

/// Whether a lookup gave what it should.
pub open spec fn gives(r: Result<&VfsPoint, Status>, s: Result<PointView, StatusView>) -> bool {
    match r {
        Ok(p) => s == Ok::<PointView, StatusView>(p@),
        Err(e) => s == Err::<PointView, StatusView>(e@),
    }
}

/// Whether a lookup gave what it should.
pub open spec fn gives_source(
    r: Result<RepoSource, Status>,
    s: Result<RepoView, StatusView>,
) -> bool {
    match r {
        Ok(p) => s == Ok::<RepoView, StatusView>(p@),
        Err(e) => s == Err::<RepoView, StatusView>(e@),
    }
}

/// The first point of `user` with that name.
pub(crate) fn find_point<'a>(user: &'a VfsUser, name: &str) -> (r: Result<&'a VfsPoint, Status>)
    ensures
        gives(r, found(user@.points, name@)),
{
    let ghost points = user@.points;
    let mut i: usize = 0;
    assert(points.skip(0) =~= points);
    while i < user.points.len()
        invariant
            points == user@.points,
            i <= user.points@.len(),
            found(points, name@) == found(points.skip(i as int), name@),
        decreases user.points@.len() - i,
    {
        assert(points.skip(i as int)[0] == user.points@[i as int]@);
        assert(points.skip(i as int).skip(1) =~= points.skip(i + 1));
        if same(user.points[i].name.as_str(), name) {
            return Ok(&user.points[i]);
        }
        i += 1;
    }
    Err(Status::invalid_argument("point '".to_owned().concat(name).concat("' not found")))
}

/// Locates `repo_name` among the points of `user` and confirms that it is a
/// repository.
pub fn require_repo_point<'a>(user: &'a VfsUser, repo_name: &str) -> (r: Result<
    &'a VfsPoint,
    Status,
>)
    ensures
        gives(r, repo_point(user@.points, repo_name@)),
{
    match find_point(user, repo_name) {
        Ok(point) => {
            if !point.is_repo {
                return Err(
                    Status::invalid_argument(
                        "point '".to_owned().concat(repo_name).concat(
                            "' is a data point, not a repo",
                        ),
                    ),
                );
            }
            Ok(point)
        },
        Err(e) => Err(e),
    }
}

/// Locates `point_name` among the points of `user` and confirms that it is raw
/// data.
pub fn require_data_point<'a>(user: &'a VfsUser, point_name: &str) -> (r: Result<
    &'a VfsPoint,
    Status,
>)
    ensures
        gives(r, data_point(user@.points, point_name@)),
{
    match find_point(user, point_name) {
        Ok(point) => {
            if point.is_repo {
                return Err(
                    Status::invalid_argument(
                        "point '".to_owned().concat(point_name).concat(
                            "' is a repo, not a data point",
                        ),
                    ),
                );
            }
            Ok(point)
        },
        Err(e) => Err(e),
    }
}

/// Rejects `point` if it is marked read-only.
///
/// Used to reject jobs that would write up front, so that the caller gets an
/// immediate answer instead of a job that is accepted and then fails.
pub fn require_writable(point: &VfsPoint) -> (r: Result<(), Status>)
    ensures
        match r {
            Ok(_) => writable(point@) is Ok,
            Err(e) => writable(point@) == Err::<(), StatusView>(e@),
        },
{
    if point.read_only {
        Err(
            Status::permission_denied(
                "point '".to_owned().concat(point.name.as_str()).concat("' is read-only"),
            ),
        )
    } else {
        Ok(())
    }
}

/// What opens the repository `point`.
pub fn repo_source(point: &VfsPoint) -> (r: Result<RepoSource, Status>)
    ensures
        gives_source(r, source_of(point@)),
{
    match &point.repo_password {
        None => Err(
            Status::invalid_argument(
                "repo point '".to_owned().concat(point.name.as_str()).concat(
                    "' is missing a password",
                ),
            ),
        ),
        Some(password) => Ok(
            RepoSource {
                scheme: point.scheme.clone(),
                config: point.config.clone(),
                password: password.clone(),
            },
        ),
    }
}

// ── Local disk ──────────────────────────────────────────────────────────────

/// Whether a scheme is local disk.
pub open spec fn is_local(scheme: Seq<char>) -> bool {
    scheme == "fs"@
}

/// Whether a scheme is local disk.
pub fn is_local_scheme(scheme: &str) -> (r: bool)
    ensures
        r == is_local(scheme@),
{
    same(scheme, "fs")
}

/// The directory that a point on local disk stands for.
pub open spec fn local_source(p: PointView) -> Result<Seq<char>, StatusView> {
    if p.config.contains_key("root"@) {
        Ok(p.config["root"@])
    } else {
        Err(invalid("point '"@ + p.name + "' has no root"@))
    }
}

/// The directory that a point on local disk stands for.
pub fn local_source_path(point: &VfsPoint) -> (r: Result<String, Status>)
    ensures
        match r {
            Ok(root) => local_source(point@) == Ok::<Seq<char>, StatusView>(root@),
            Err(e) => local_source(point@) == Err::<Seq<char>, StatusView>(e@),
        },
{
    match point.config.get("root") {
        Some(root) => Ok(root.clone()),
        None => Err(
            Status::invalid_argument(
                "point '".to_owned().concat(point.name.as_str()).concat("' has no root"),
            ),
        ),
    }
}

/// The directory that a point stands for, where it is on local disk.
pub open spec fn local_root(p: PointView) -> Result<Option<Seq<char>>, StatusView> {
    if is_local(p.scheme) {
        match local_source(p) {
            Ok(root) => Ok(Some(root)),
            Err(e) => Err(e),
        }
    } else {
        Ok(None)
    }
}

/// The directory that a point stands for, where it is on local disk: there it
/// is worked on directly, and not by way of its store.
pub fn local_root_of(point: &VfsPoint) -> (r: Result<Option<String>, Status>)
    ensures
        match r {
            Ok(root) => local_root(point@) == Ok::<Option<Seq<char>>, StatusView>(opt_text(root)),
            Err(e) => local_root(point@) == Err::<Option<Seq<char>>, StatusView>(e@),
        },
{
    if !is_local_scheme(point.scheme.as_str()) {
        return Ok(None);
    }
    match local_source_path(point) {
        Ok(root) => Ok(Some(root)),
        Err(e) => Err(e),
    }
}

// ── Storage of points ───────────────────────────────────────────────────────

/// What locates the raw storage of `point`.
pub(crate) fn point_config(point: &VfsPoint) -> (r: DataSource)
    ensures
        r.scheme@ == point@.scheme,
        texts(r.config@) == point@.config,
{
    DataSource { scheme: point.scheme.clone(), config: point.config.clone() }
}

/// What opens the repository `repo_name` of `user`.
pub fn resolve_repo_point(user: &VfsUser, repo_name: &str) -> (r: Result<RepoSource, Status>)
    ensures
        gives_source(r, repo_named(user@.points, repo_name@)),
{
    match require_repo_point(user, repo_name) {
        Ok(point) => repo_source(point),
        Err(e) => Err(e),
    }
}

/// What locates the raw storage of the data point `point_name` of `user`. The
/// path inside the point does not matter.
pub fn resolve_data_point(user: &VfsUser, point_name: &str, _point_path: &str) -> (r: Result<
    DataSource,
    Status,
>)
    ensures
        match r {
            Ok(d) => match data_point(user@.points, point_name@) {
                Ok(p) => d.scheme@ == p.scheme && texts(d.config@) == p.config,
                Err(_) => false,
            },
            Err(e) => data_point(user@.points, point_name@) == Err::<PointView, StatusView>(e@),
        },
{
    match require_data_point(user, point_name) {
        Ok(point) => Ok(point_config(point)),
        Err(e) => Err(e),
    }
}

/// The point that a path in the user's tree leads to, and what follows its
/// name.
pub open spec fn data_path(points: Seq<PointView>, path: Seq<char>) -> Result<
    (PointView, Seq<char>),
    StatusView,
> {
    let inner = trim_start(path, '/');
    if head(inner, '/') != POINTS_ROOT@ {
        Err(
            invalid(
                "path '"@ + path
                    + "' must be under /points/<name>/... (repo-mounted paths aren't supported for backup/restore)"@,
            ),
        )
    } else {
        let named = match tail(inner, '/') {
            Some(t) => t,
            None => Seq::empty(),
        };
        let name = head(named, '/');
        if name.len() == 0 {
            Err(invalid("path '"@ + path + "' is missing a point name"@))
        } else {
            match data_point(points, name) {
                Err(e) => Err(e),
                Ok(p) => Ok(
                    (
                        p,
                        match tail(named, '/') {
                            Some(rest) => rest,
                            None => Seq::empty(),
                        },
                    ),
                ),
            }
        }
    }
}

/// Resolves a path in the user's tree, such as `/points/<name>/sub/dir`.
///
/// Returns the data point and the rest of the path. Paths in repositories are
/// rejected.
pub fn resolve_data_path<'a>(user: &'a VfsUser, vfs_path: &str) -> (r: Result<
    (&'a VfsPoint, String),
    Status,
>)
    ensures
        match r {
            Ok((p, rest)) => data_path(user@.points, vfs_path@) == Ok::<
                (PointView, Seq<char>),
                StatusView,
            >((p@, rest@)),
            Err(e) => data_path(user@.points, vfs_path@) == Err::<
                (PointView, Seq<char>),
                StatusView,
            >(e@),
        },
{
    let inner = without_lead(vfs_path, '/');
    let (root, after_root) = cut(inner.as_str(), '/');
    if !same(root.as_str(), POINTS_ROOT) {
        return Err(
            Status::invalid_argument(
                "path '".to_owned().concat(vfs_path).concat(
                    "' must be under /points/<name>/... (repo-mounted paths aren't supported for backup/restore)",
                ),
            ),
        );
    }
    let named = match after_root {
        Some(t) => t,
        None => String::new(),
    };
    assert(after_root is None ==> named@ =~= Seq::<char>::empty());
    let (name, after_name) = cut(named.as_str(), '/');
    if name.as_str().is_empty() {
        return Err(
            Status::invalid_argument(
                "path '".to_owned().concat(vfs_path).concat("' is missing a point name"),
            ),
        );
    }
    let rest = match after_name {
        Some(t) => t,
        None => String::new(),
    };
    assert(after_name is None ==> rest@ =~= Seq::<char>::empty());
    match require_data_point(user, name.as_str()) {
        Ok(point) => Ok((point, rest)),
        Err(e) => Err(e),
    }
}

// ── Repositories named by a request ─────────────────────────────────────────

/// What opens the repository that a message describes.
pub open spec fn described(m: RepoSourceView) -> Result<RepoView, StatusView> {
    match m.src {
        None => Err(invalid("missing repo src"@)),
        Some(s) => Ok(RepoView { scheme: s.scheme, config: s.config, password: m.password }),
    }
}

/// Reads what opens a repository from its message.
pub fn parse_repo_src(p: ipc::RepoSource) -> (r: Result<RepoSource, Status>)
    ensures
        gives_source(r, described(p@)),
{
    match p.src {
        None => Err(Status::invalid_argument("missing repo src".to_owned())),
        Some(src) => Ok(
            RepoSource { scheme: src.scheme, config: src.config, password: p.password },
        ),
    }
}

/// Reads what opens a repository from a `field` that must be there.
pub fn require_repo_src(opt: Option<ipc::RepoSource>, field: &'static str) -> (r: Result<
    RepoSource,
    Status,
>)
    ensures
        gives_source(
            r,
            match opt {
                Some(m) => described(m@),
                None => Err(invalid("missing "@ + field@)),
            },
        ),
{
    match opt {
        Some(p) => parse_repo_src(p),
        None => Err(Status::invalid_argument("missing ".to_owned().concat(field))),
    }
}

// ── Laws ────────────────────────────────────────────────────────────────────

/// A fixed path begins with a slash, unless it names the root as a file; it
/// holds no backslash; and a directory ends with a slash.
pub proof fn law_fixed_shape(p: Seq<char>, is_dir: bool)
    ensures
        !fixed(p, is_dir).contains('\\'),
        is_dir ==> ends(fixed(p, is_dir), '/'),
        fixed(p, is_dir).len() > 0 ==> begins(fixed(p, is_dir), '/'),
{
    let f = fixed(p, is_dir);
    let a = if begins(p, '/') {
        p
    } else {
        seq!['/'] + p
    };
    let b = if is_dir && !ends(a, '/') {
        a.push('/')
    } else if !is_dir && ends(a, '/') {
        a.drop_last()
    } else {
        a
    };
    assert(a[0] == '/');
    assert forall|i: int| 0 <= i < f.len() implies f[i] != '\\' by {
        assert(f[i] == if b[i] == '\\' {
            '/'
        } else {
            b[i]
        });
    }
}

/// A path of a data point, as its mount gives it, resolves to that point and
/// to the rest of the path.
pub proof fn law_data_path_resolves(points: Seq<PointView>, name: Seq<char>, rest: Seq<char>)
    requires
        name.len() > 0,
        !name.contains('/'),
        data_point(points, name) is Ok,
    ensures
        data_path(points, data_mount(name) + "/"@ + rest) == Ok::<
            (PointView, Seq<char>),
            StatusView,
        >((data_point(points, name)->Ok_0, rest)),
{
    let path = data_mount(name) + "/"@ + rest;
    reveal_strlit("/points/");
    reveal_strlit("points");
    reveal_strlit("/");
    let inner = path.skip(1);
    crate::text::lemma_lead(path, '/', 1);
    assert(trim_start(path, '/') =~= inner);
    crate::text::lemma_first_at(inner, '/', 6);
    assert(head(inner, '/') =~= "points"@);
    let named = name + "/"@ + rest;
    assert(inner.skip(7) =~= named);
    assert forall|j: int| 0 <= j < name.len() implies named[j] != '/' by {
        assert(named[j] == name[j]);
    }
    crate::text::lemma_first_at(named, '/', name.len() as int);
    assert(head(named, '/') =~= name);
    assert(named.skip(name.len() as int + 1) =~= rest);
}

/// An escaped username holds no dash.
proof fn lemma_escaped_has_no_dash(name: Seq<char>)
    ensures
        !escaped(name).contains('-'),
    decreases name.len(),
{
    if name.len() > 0 {
        lemma_escaped_has_no_dash(name.skip(1));
        let first = escape_of(name[0]);
        let rest = escaped(name.skip(1));
        assert forall|i: int| 0 <= i < escaped(name).len() implies escaped(name)[i] != '-' by {
            if i >= first.len() {
                assert(escaped(name)[i] == rest[i - first.len()]);
                assert(rest.contains(rest[i - first.len()]));
            }
        }
    }
}

/// Different usernames are escaped differently.
proof fn lemma_escaped_injective(u: Seq<char>, v: Seq<char>)
    requires
        escaped(u) == escaped(v),
    ensures
        u == v,
    decreases u.len(),
{
    if u.len() == 0 || v.len() == 0 {
        assert(u =~= v);
    } else {
        let a = escape_of(u[0]);
        let b = escape_of(v[0]);
        let e = escaped(u);
        assert(e[0] == a[0] && e[0] == b[0]);
        if e[0] == '%' {
            assert(e[2] == a[2] && e[2] == b[2]);
        }
        assert(u[0] == v[0]);
        assert(escaped(u.skip(1)) =~= e.skip(a.len() as int));
        assert(escaped(v.skip(1)) =~= e.skip(b.len() as int));
        lemma_escaped_injective(u.skip(1), v.skip(1));
        assert(u =~= seq![u[0]] + u.skip(1));
        assert(v =~= seq![v[0]] + v.skip(1));
    }
}

/// No two points, of one user or of two, share a quota id: a tracker that all
/// users share keeps every one of them apart.
pub proof fn law_quota_ids_isolate_users(u: Seq<char>, p: Seq<char>, v: Seq<char>, q: Seq<char>)
    requires
        u != v || p != q,
    ensures
        quota_key(u, p) != quota_key(v, q),
{
    reveal_strlit("-");
    let a = quota_key(u, p);
    let b = quota_key(v, q);
    if a == b {
        let m = escaped(u).len() as int;
        let n = escaped(v).len() as int;
        lemma_escaped_has_no_dash(u);
        lemma_escaped_has_no_dash(v);
        assert(a[m] == '-' && b[n] == '-');
        if m < n {
            assert(b[m] == escaped(v)[m]);
            assert(escaped(v).contains(escaped(v)[m]));
        }
        if n < m {
            assert(a[n] == escaped(u)[n]);
            assert(escaped(u).contains(escaped(u)[n]));
        }
        assert(escaped(u) =~= a.take(m));
        assert(escaped(v) =~= b.take(n));
        assert(p =~= a.skip(m + 1));
        assert(q =~= b.skip(n + 1));
        lemma_escaped_injective(u, v);
    }
}

/// Fixing a path keeps its characters in order, but for backslashes, which
/// become slashes. It puts a slash first where there is none, and puts one last
/// or takes one off, so that exactly directories end with one that was not a
/// backslash before.
pub proof fn law_fixing_keeps_the_characters(p: &str, is_dir: bool, r: String)
    requires
        call_ensures(fix_path, (p, is_dir), r),
    ensures
        ({
            let lead: int = if p@.len() > 0 && p@[0] == '/' {
                0
            } else {
                1
            };
            let slash_last = p@.len() == 0 || p@[p@.len() - 1] == '/';
            &&& r@.len() == p@.len() + lead + if is_dir && !slash_last {
                1int
            } else if !is_dir && slash_last {
                -1
            } else {
                0
            }
            &&& lead == 1 && r@.len() > 0 ==> r@[0] == '/'
            &&& forall|i: int|
                0 <= i < p@.len() && i + lead < r@.len() ==> #[trigger] r@[i + lead] == if p@[i]
                    == '\\' {
                    '/'
                } else {
                    p@[i]
                }
            &&& is_dir ==> r@[r@.len() - 1] == '/'
        }),
{
    let a = if begins(p@, '/') {
        p@
    } else {
        seq!['/'] + p@
    };
    let lead: int = if begins(p@, '/') {
        0
    } else {
        1
    };
    assert(ends(a, '/') == (p@.len() == 0 || p@[p@.len() - 1] == '/'));
    assert forall|i: int| 0 <= i < p@.len() && i + lead < r@.len() implies #[trigger] r@[i + lead]
        == if p@[i] == '\\' {
        '/'
    } else {
        p@[i]
    } by {
        assert(a[i + lead] == p@[i]);
    }
}

/// Data points are mounted in one directory and repositories in another, each
/// under its name.
pub proof fn law_mounts_bear_their_names(name: &str, data: String, repo: String)
    requires
        call_ensures(data_mount_path, (name,), data),
        call_ensures(repo_mount_path, (name,), repo),
    ensures
        data@ == "/points/"@ + name@,
        repo@ == "/repos/"@ + name@,
{
}

/// A quota id is the username, a dash, and the name of the point. Of the
/// characters of a username only the dash and the sign that stands in for it
/// are written otherwise, each in one way.
pub proof fn law_quota_ids_are_readable(username: &str, point: &str, r: String)
    requires
        call_ensures(quota_id, (username, point), r),
    ensures
        r@ == escaped(username@) + "-"@ + point@,
        !username@.contains('-') && !username@.contains('%') ==> r@ == username@ + "-"@ + point@,
        escaped(seq!['-']) == "%2D"@,
        escaped(seq!['%']) == "%25"@,
        forall|a: Seq<char>, b: Seq<char>| #[trigger] escaped(a + b) == escaped(a) + escaped(b),
{
    if !username@.contains('-') && !username@.contains('%') {
        lemma_escaped_plain(username@);
    }
    reveal_strlit("%2D");
    reveal_strlit("%25");
    assert(seq!['-'].skip(1) =~= Seq::empty());
    assert(seq!['%'].skip(1) =~= Seq::empty());
    assert(escaped(Seq::empty()) =~= Seq::empty());
    assert(escaped(seq!['-']) =~= "%2D"@);
    assert(escaped(seq!['%']) =~= "%25"@);
    assert forall|a: Seq<char>, b: Seq<char>| #[trigger] escaped(a + b) == escaped(a) + escaped(
        b,
    ) by {
        lemma_escaped_parts(a, b);
    }
}

/// A name with nothing to escape is written as it is.
proof fn lemma_escaped_plain(name: Seq<char>)
    requires
        !name.contains('-'),
        !name.contains('%'),
    ensures
        escaped(name) == name,
    decreases name.len(),
{
    if name.len() > 0 {
        let rest = name.skip(1);
        assert forall|c: char| rest.contains(c) implies name.contains(c) by {
            let i = choose|i: int| 0 <= i < rest.len() && rest[i] == c;
            assert(name[i + 1] == c);
        }
        assert(name.contains(name[0]));
        lemma_escaped_plain(rest);
    }
    assert(escaped(name) =~= name);
}

/// The parts of a name are escaped one by one.
proof fn lemma_escaped_parts(a: Seq<char>, b: Seq<char>)
    ensures
        escaped(a + b) == escaped(a) + escaped(b),
    decreases a.len(),
{
    if a.len() > 0 {
        lemma_escaped_parts(a.skip(1), b);
        assert((a + b).skip(1) =~= a.skip(1) + b);
        assert(escaped(a + b) =~= escaped(a) + escaped(b));
    } else {
        assert(a + b =~= b);
        assert(escaped(a + b) =~= escaped(a) + escaped(b));
    }
}

/// Where the first point of a name stands.
pub proof fn lemma_found_at(points: Seq<PointView>, name: Seq<char>) -> (i: int)
    ensures
        match found(points, name) {
            Ok(p) => {
                &&& 0 <= i < points.len()
                &&& p == points[i]
                &&& points[i].name == name
                &&& forall|j: int| 0 <= j < i ==> #[trigger] points[j].name != name
            },
            Err(e) => {
                &&& e == invalid("point '"@ + name + "' not found"@)
                &&& forall|j: int| 0 <= j < points.len() ==> #[trigger] points[j].name != name
            },
        },
    decreases points.len(),
{
    if points.len() == 0 || points[0].name == name {
        0
    } else {
        let rest = points.skip(1);
        let i = lemma_found_at(rest, name);
        if found(rest, name) is Ok {
            assert forall|j: int| 0 <= j < i + 1 implies #[trigger] points[j].name != name by {
                if j > 0 {
                    assert(rest[j - 1] == points[j]);
                }
            }
        } else {
            assert forall|j: int| 0 <= j < points.len() implies #[trigger] points[j].name
                != name by {
                if j > 0 {
                    assert(rest[j - 1] == points[j]);
                }
            }
        }
        i + 1
    }
}

/// A repository is looked up by its name alone: the first point that bears it
/// is the one, and it must be a repository.
pub proof fn law_repositories_are_found_by_name<'a>(
    user: &'a VfsUser,
    name: &str,
    r: Result<&'a VfsPoint, Status>,
) -> (i: int)
    requires
        call_ensures(require_repo_point, (user, name), r),
    ensures
        match r {
            Ok(p) => {
                &&& 0 <= i < user.points@.len()
                &&& p@ == user.points@[i]@
                &&& user.points@[i].name@ == name@
                &&& user.points@[i].is_repo
                &&& forall|j: int| 0 <= j < i ==> (#[trigger] user.points@[j]).name@ != name@
            },
            Err(e) => {
                &&& e.code == crate::status::Code::InvalidArgument
                &&& if 0 <= i < user.points@.len() {
                    &&& user.points@[i].name@ == name@
                    &&& !user.points@[i].is_repo
                    &&& forall|j: int| 0 <= j < i ==> (#[trigger] user.points@[j]).name@ != name@
                    &&& e.message@ == "point '"@ + name@ + "' is a data point, not a repo"@
                } else {
                    &&& forall|j: int|
                        0 <= j < user.points@.len() ==> (#[trigger] user.points@[j]).name@ != name@
                    &&& e.message@ == "point '"@ + name@ + "' not found"@
                }
            },
        },
{
    let i = lemma_found_at(user@.points, name@);
    assert forall|j: int| 0 <= j < user.points@.len() implies (#[trigger] user.points@[j]).name@
        == user@.points[j].name by {}
    if found(user@.points, name@) is Ok {
        i
    } else {
        -1
    }
}

/// Raw data is looked up by its name alone: the first point that bears it is
/// the one, and it must not be a repository.
pub proof fn law_data_points_are_found_by_name<'a>(
    user: &'a VfsUser,
    name: &str,
    r: Result<&'a VfsPoint, Status>,
) -> (i: int)
    requires
        call_ensures(require_data_point, (user, name), r),
    ensures
        match r {
            Ok(p) => {
                &&& 0 <= i < user.points@.len()
                &&& p@ == user.points@[i]@
                &&& user.points@[i].name@ == name@
                &&& !user.points@[i].is_repo
                &&& forall|j: int| 0 <= j < i ==> (#[trigger] user.points@[j]).name@ != name@
            },
            Err(e) => {
                &&& e.code == crate::status::Code::InvalidArgument
                &&& if 0 <= i < user.points@.len() {
                    &&& user.points@[i].name@ == name@
                    &&& user.points@[i].is_repo
                    &&& forall|j: int| 0 <= j < i ==> (#[trigger] user.points@[j]).name@ != name@
                    &&& e.message@ == "point '"@ + name@ + "' is a repo, not a data point"@
                } else {
                    &&& forall|j: int|
                        0 <= j < user.points@.len() ==> (#[trigger] user.points@[j]).name@ != name@
                    &&& e.message@ == "point '"@ + name@ + "' not found"@
                }
            },
        },
{
    let i = lemma_found_at(user@.points, name@);
    assert forall|j: int| 0 <= j < user.points@.len() implies (#[trigger] user.points@[j]).name@
        == user@.points[j].name by {}
    if found(user@.points, name@) is Ok {
        i
    } else {
        -1
    }
}

/// Exactly the points that are read-only are refused where one is written to.
pub proof fn law_only_read_only_points_refuse_writes(point: &VfsPoint, r: Result<(), Status>)
    requires
        call_ensures(require_writable, (point,), r),
    ensures
        r is Ok <==> !point.read_only,
        r matches Err(e) ==> {
            &&& e.code == crate::status::Code::PermissionDenied
            &&& e.message@ == "point '"@ + point.name@ + "' is read-only"@
        },
{
}

/// What opens a repository is what its point holds, whole: the scheme, every
/// storage option, and the password. Only a password can be missing.
pub proof fn law_repositories_are_opened_as_configured(
    point: &VfsPoint,
    r: Result<RepoSource, Status>,
)
    requires
        call_ensures(repo_source, (point,), r),
    ensures
        r is Ok <==> point.repo_password is Some,
        r matches Ok(s) ==> {
            &&& s.scheme@ == point.scheme@
            &&& texts(s.config@) == texts(point.config@)
            &&& point.repo_password matches Some(w) && s.password@ == w@
        },
        r matches Err(e) ==> e.code == crate::status::Code::InvalidArgument,
{
}

/// Where a repository is opened for a job, the scheme and the options are those
/// of the first point of that name, which is a repository, and the password is
/// its own.
pub proof fn law_named_repositories_are_opened_as_configured(
    points: Seq<PointView>,
    name: Seq<char>,
) -> (i: int)
    ensures
        match repo_named(points, name) {
            Ok(s) => {
                &&& 0 <= i < points.len()
                &&& points[i].name == name
                &&& forall|j: int| 0 <= j < i ==> #[trigger] points[j].name != name
                &&& points[i].is_repo
                &&& s.scheme == points[i].scheme
                &&& s.config == points[i].config
                &&& points[i].repo_password == Some(s.password)
            },
            Err(_) => forall|j: int|
                0 <= j < points.len() && #[trigger] points[j].name == name && points[j].is_repo
                    && points[j].repo_password is Some ==> exists|k: int|
                    0 <= k < j && #[trigger] points[k].name == name,
        },
{
    let i = lemma_found_at(points, name);
    if repo_named(points, name) is Err {
        assert forall|j: int|
            0 <= j < points.len() && #[trigger] points[j].name == name && points[j].is_repo
                && points[j].repo_password is Some implies exists|k: int|
            0 <= k < j && #[trigger] points[k].name == name by {
            if i < j {
                assert(points[i].name == name);
            }
        }
    }
    i
}

/// What opens the repository of a user by its name: the same as the lookups by
/// points.
pub proof fn law_users_open_their_own_repositories(
    user: &VfsUser,
    name: &str,
    r: Result<RepoSource, Status>,
) -> (i: int)
    requires
        call_ensures(resolve_repo_point, (user, name), r),
    ensures
        match r {
            Ok(s) => {
                &&& 0 <= i < user.points@.len()
                &&& user.points@[i].name@ == name@
                &&& forall|j: int| 0 <= j < i ==> (#[trigger] user.points@[j]).name@ != name@
                &&& user.points@[i].is_repo
                &&& s.scheme@ == user.points@[i].scheme@
                &&& texts(s.config@) == texts(user.points@[i].config@)
                &&& user.points@[i].repo_password matches Some(w) && s.password@ == w@
            },
            Err(e) => {
                &&& e.code == crate::status::Code::InvalidArgument
                &&& forall|j: int|
                    0 <= j < user.points@.len() && (#[trigger] user.points@[j]).name@ == name@
                        && user.points@[j].is_repo && user.points@[j].repo_password is Some
                        ==> exists|k: int|
                        0 <= k < j && (#[trigger] user.points@[k]).name@ == name@
            },
        },
{
    let i = lemma_found_at(user@.points, name@);
    assert forall|j: int| 0 <= j < user.points@.len() implies (#[trigger] user.points@[j]).name@
        == user@.points[j].name by {}
    if r is Err {
        assert forall|j: int|
            0 <= j < user.points@.len() && (#[trigger] user.points@[j]).name@ == name@
                && user.points@[j].is_repo && user.points@[j].repo_password is Some implies exists|
            k: int,
        | 0 <= k < j && (#[trigger] user.points@[k]).name@ == name@ by {
            assert(user@.points[j].name == name@);
            if found(user@.points, name@) is Ok {
                assert(user.points@[i].name@ == name@);
            }
        }
    }
    i
}

/// What locates raw data is what its point holds, whole, whatever path inside
/// the point is asked for.
pub proof fn law_data_is_located_as_configured(
    user: &VfsUser,
    name: &str,
    path: &str,
    r: Result<DataSource, Status>,
) -> (i: int)
    requires
        call_ensures(resolve_data_point, (user, name, path), r),
    ensures
        match r {
            Ok(d) => {
                &&& 0 <= i < user.points@.len()
                &&& user.points@[i].name@ == name@
                &&& forall|j: int| 0 <= j < i ==> (#[trigger] user.points@[j]).name@ != name@
                &&& !user.points@[i].is_repo
                &&& d.scheme@ == user.points@[i].scheme@
                &&& texts(d.config@) == texts(user.points@[i].config@)
            },
            Err(e) => {
                &&& e.code == crate::status::Code::InvalidArgument
                &&& forall|j: int|
                    0 <= j < user.points@.len() && (#[trigger] user.points@[j]).name@ == name@
                        && !user.points@[j].is_repo ==> exists|k: int|
                        0 <= k < j && (#[trigger] user.points@[k]).name@ == name@
            },
        },
{
    let i = lemma_found_at(user@.points, name@);
    assert forall|j: int| 0 <= j < user.points@.len() implies (#[trigger] user.points@[j]).name@
        == user@.points[j].name by {}
    if r is Err {
        assert forall|j: int|
            0 <= j < user.points@.len() && (#[trigger] user.points@[j]).name@ == name@
                && !user.points@[j].is_repo implies exists|k: int|
            0 <= k < j && (#[trigger] user.points@[k]).name@ == name@ by {
            assert(user@.points[j].name == name@);
            if found(user@.points, name@) is Ok {
                assert(user.points@[i].name@ == name@);
            }
        }
    }
    i
}

/// Local disk is one scheme, and no other is.
pub proof fn law_one_scheme_is_local(scheme: &str, r: bool)
    requires
        call_ensures(is_local_scheme, (scheme,), r),
    ensures
        r <==> scheme@ == seq!['f', 's'],
{
    reveal_strlit("fs");
    assert("fs"@ =~= seq!['f', 's']);
}

/// A point on local disk is worked on in the directory that its options name,
/// and must name one. Any other point is worked on by way of its store.
pub proof fn law_local_points_name_their_directory(
    point: &VfsPoint,
    r: Result<Option<String>, Status>,
    q: Result<String, Status>,
)
    requires
        call_ensures(local_root_of, (point,), r),
        call_ensures(local_source_path, (point,), q),
    ensures
        point.scheme@ != seq!['f', 's'] ==> r matches Ok(None),
        point.scheme@ == seq!['f', 's'] && point.config@.contains_key("root"@) ==> (r matches Ok(
            Some(root),
        ) && root@ == point.config@["root"@]@),
        point.scheme@ == seq!['f', 's'] && !point.config@.contains_key("root"@) ==> (r matches Err(
            e,
        ) && e.code == crate::status::Code::InvalidArgument && e.message@ == "point '"@
            + point.name@ + "' has no root"@),
        point.config@.contains_key("root"@) ==> (q matches Ok(root) && root@
            == point.config@["root"@]@),
        !point.config@.contains_key("root"@) ==> (q matches Err(e) && e.code
            == crate::status::Code::InvalidArgument),
{
    reveal_strlit("fs");
    assert("fs"@ =~= seq!['f', 's']);
}

/// A path in the directory of data points leads to the point that its second
/// part names, and to what follows that part, however many slashes it starts
/// with and whatever follows.
pub proof fn law_paths_lead_to_the_point_they_name<'a>(
    user: &'a VfsUser,
    path: &str,
    r: Result<(&'a VfsPoint, String), Status>,
    slashes: nat,
    name: Seq<char>,
    rest: Option<Seq<char>>,
) -> (i: int)
    requires
        call_ensures(resolve_data_path, (user, path), r),
        name.len() > 0,
        !name.contains('/'),
        path@ == Seq::new(slashes, |i: int| '/') + "points/"@ + name + match rest {
            Some(t) => seq!['/'] + t,
            None => Seq::empty(),
        },
    ensures
        match r {
            Ok((p, inner)) => {
                &&& 0 <= i < user.points@.len()
                &&& p@ == user.points@[i]@
                &&& user.points@[i].name@ == name
                &&& !user.points@[i].is_repo
                &&& forall|j: int| 0 <= j < i ==> (#[trigger] user.points@[j]).name@ != name
                &&& inner@ == match rest {
                    Some(t) => t,
                    None => Seq::empty(),
                }
            },
            Err(e) => {
                &&& e.code == crate::status::Code::InvalidArgument
                &&& forall|j: int|
                    0 <= j < user.points@.len() && (#[trigger] user.points@[j]).name@ == name
                        && !user.points@[j].is_repo ==> exists|k: int|
                        0 <= k < j && (#[trigger] user.points@[k]).name@ == name
            },
        },
{
    lemma_data_path_parts(path@, slashes, name, rest);
    let i = lemma_found_at(user@.points, name);
    assert forall|j: int| 0 <= j < user.points@.len() implies (#[trigger] user.points@[j]).name@
        == user@.points[j].name by {}
    if r is Err {
        assert forall|j: int|
            0 <= j < user.points@.len() && (#[trigger] user.points@[j]).name@ == name
                && !user.points@[j].is_repo implies exists|k: int|
            0 <= k < j && (#[trigger] user.points@[k]).name@ == name by {
            assert(user@.points[j].name == name);
            if found(user@.points, name) is Ok {
                assert(user.points@[i].name@ == name);
            }
        }
    }
    i
}

/// The parts of a path in the directory of data points.
pub proof fn lemma_data_path_parts(
    path: Seq<char>,
    slashes: nat,
    name: Seq<char>,
    rest: Option<Seq<char>>,
)
    requires
        name.len() > 0,
        !name.contains('/'),
        path == Seq::new(slashes, |i: int| '/') + "points/"@ + name + match rest {
            Some(t) => seq!['/'] + t,
            None => Seq::empty(),
        },
    ensures
        ({
            let inner = trim_start(path, '/');
            let named = name + match rest {
                Some(t) => seq!['/'] + t,
                None => Seq::empty(),
            };
            &&& head(inner, '/') == POINTS_ROOT@
            &&& tail(inner, '/') == Some(named)
            &&& head(named, '/') == name
            &&& tail(named, '/') == rest
        }),
{
    reveal_strlit("points/");
    reveal_strlit("points");
    let named = name + match rest {
        Some(t) => seq!['/'] + t,
        None => Seq::empty(),
    };
    let inner = "points/"@ + named;
    let run = Seq::new(slashes, |i: int| '/');
    assert(path =~= run + inner);
    assert(inner[0] == 'p');
    crate::text::lemma_lead(path, '/', slashes as int);
    assert(trim_start(path, '/') =~= inner);
    assert(inner =~= "points"@.push('/') + named);
    assert(!"points"@.contains('/'));
    crate::text::law_cutting_finds_the_first("points"@, named, '/');
    match rest {
        Some(t) => {
            assert(named =~= name.push('/') + t);
            crate::text::law_cutting_finds_the_first(name, t, '/');
        },
        None => {
            assert(named =~= name);
            crate::text::law_cutting_finds_the_first(name, Seq::empty(), '/');
        },
    }
}

/// Only paths in the directory of data points are taken, and only those that
/// name a point: whatever is taken can be put together again from the name of
/// the point and the rest.
pub proof fn law_only_paths_of_data_points_are_taken<'a>(
    user: &'a VfsUser,
    path: &str,
    r: Result<(&'a VfsPoint, String), Status>,
) -> (slashes: nat)
    requires
        call_ensures(resolve_data_path, (user, path), r),
    ensures
        r matches Ok((p, inner)) ==> {
            let front = Seq::new(slashes, |i: int| '/') + "points/"@ + p.name@;
            &&& !p.is_repo
            &&& p.name@.len() > 0
            &&& !p.name@.contains('/')
            &&& path@ == front + seq!['/'] + inner@ || (path@ == front && inner@.len() == 0)
        },
        r matches Err(e) ==> e.code == crate::status::Code::InvalidArgument,
{
    let n = crate::text::lead(path@, '/');
    if r is Err {
        let inner = trim_start(path@, '/');
        let named = match tail(inner, '/') {
            Some(t) => t,
            None => Seq::empty(),
        };
        lemma_found_at(user@.points, head(named, '/'));
    }
    if r is Ok {
        reveal_strlit("points/");
        reveal_strlit("points");
        let inner = trim_start(path@, '/');
        crate::text::lemma_lead_is(path@, '/');
        assert(path@ =~= Seq::new(n, |i: int| '/') + inner);
        crate::text::lemma_first_at_is(inner, '/');
        let named = match tail(inner, '/') {
            Some(t) => t,
            None => Seq::empty(),
        };
        let name = head(named, '/');
        crate::text::lemma_first_at_is(named, '/');
        lemma_found_at(user@.points, name);
        assert(inner.contains('/'));
        assert(inner =~= head(inner, '/').push('/') + named);
        assert(inner =~= "points/"@ + named);
        assert(!name.contains('/'));
        match tail(named, '/') {
            Some(t) => {
                assert(named =~= name + seq!['/'] + t);
                assert(path@ =~= Seq::new(n, |i: int| '/') + "points/"@ + name + seq!['/'] + t);
            },
            None => {
                assert(named =~= name);
                assert(path@ =~= Seq::new(n, |i: int| '/') + "points/"@ + name);
            },
        }
    }
    n
}

/// A repository that a request describes is opened as it is described; a
/// description that is left out, or names no storage, is refused.
pub proof fn law_described_repositories_are_opened(
    m: Option<ipc::RepoSource>,
    field: &'static str,
    r: Result<RepoSource, Status>,
)
    requires
        call_ensures(require_repo_src, (m, field), r),
    ensures
        match m {
            Some(d) => match d.src {
                Some(src) => {
                    &&& r matches Ok(s) && s.scheme@ == src.scheme@ && texts(s.config@) == texts(
                        src.config@,
                    ) && s.password@ == d.password@
                },
                None => r matches Err(e) && e.code == crate::status::Code::InvalidArgument
                    && e.message@ == "missing repo src"@,
            },
            None => r matches Err(e) && e.code == crate::status::Code::InvalidArgument && e.message@
                == "missing "@ + field@,
        },
{
}

/// A failure of a store keeps its text. That something is not there, and that
/// it may not be touched, stays such; everything else is internal.
pub proof fn law_store_failures_keep_their_kind(kind: ErrorKind, text: String, r: Status)
    requires
        call_ensures(map_dal, (kind, text), r),
    ensures
        r.message@ == text@,
        r.code == crate::status::Code::NotFound <==> kind == ErrorKind::NotFound,
        r.code == crate::status::Code::PermissionDenied <==> kind == ErrorKind::PermissionDenied,
        r.code == crate::status::Code::Internal <==> kind != ErrorKind::NotFound && kind
            != ErrorKind::PermissionDenied,
{
}

/// That a user is not there is reported as such, and every other failure of the
/// user store as internal, with its own text.
pub proof fn law_user_failures_keep_their_kind(e: VfsError, text: String, r: Status)
    requires
        call_ensures(map_vfs, (e,), r),
        call_ensures(VfsError::text, (&e,), text),
    ensures
        e is UserNotFound ==> r.code == crate::status::Code::NotFound && r.message@
            == "vfs user not found"@,
        !(e is UserNotFound) ==> r.code == crate::status::Code::Internal && r.message@ == text@,
{
}

/// A time is that many seconds and nanoseconds after the epoch, and is there
/// exactly where one is given.
pub proof fn law_times_are_kept(
    seconds: i64,
    nanos: i32,
    t: Timestamp,
    time: Option<(i64, i32)>,
    r: Option<Timestamp>,
)
    requires
        call_ensures(to_ts, (seconds, nanos), t),
        call_ensures(opt_ts, (time,), r),
    ensures
        t.seconds == seconds && t.nanos == nanos,
        time is None <==> r is None,
        time matches Some((s, n)) ==> (r matches Some(x) && x.seconds == s && x.nanos == n),
{
}

/// The refusals of the file system are those that its mounts give.
pub proof fn law_refusals_of_the_file_system(path: &str, a: Error, op: &'static str, b: Error)
    requires
        call_ensures(vfs_permission_denied, (path,), a),
        call_ensures(vfs_unsupported, (op,), b),
    ensures
        a.kind == ErrorKind::PermissionDenied && a.message@ == "mount is read-only"@,
        a.context@.len() == 1 && a.context@[0].0@ == "path"@ && a.context@[0].1@ == path@,
        b.kind == ErrorKind::Unsupported && b.message@ == "MountFs does not support `"@ + op@
            + "`."@,
{
    assert(a@.context.len() == a.context@.len());
    assert(a@.context[0] == ("path"@, path@));
}

} // verus!
