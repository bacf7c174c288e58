//! Jobs whose data is named by a path in the user's tree.
//!
//! They differ from the jobs in [`requests`](super::requests) in that they
//! name a directory of a data point rather than the point, and in that a point
//! or user that is not there is reported as such.

use crate::model::{vfs_error_text, DataSource, PointView, RepoSource, RepoView, VfsError, VfsUser};
use crate::status::{failed, invalid, missing, Status, StatusView};
use crate::strmap::texts;
use crate::text::{cut, head, same, tail, trim_start, without_lead};
use crate::utils::{find_point, found, point_config, POINTS_ROOT};
use vstd::prelude::*;

verus! {

/// How a failure of the user store is reported.
pub open spec fn user_status(e: VfsError) -> StatusView {
    match e {
        VfsError::UserNotFound => missing("user not found"@),
        _ => failed(vfs_error_text(e)),
    }
}

/// Reports a failure of the user store.
pub fn map_vfs(e: VfsError) -> (r: Status)
    ensures
        r@ == user_status(e),
{
    match e {
        VfsError::UserNotFound => Status::not_found("user not found".to_owned()),
        _ => Status::internal(e.text()),
    }
}

/// What opens the repository of that name.
pub open spec fn repo_of(points: Seq<PointView>, name: Seq<char>) -> Result<RepoView, StatusView> {
    match found(points, name) {
        Err(_) => Err(missing("repo point '"@ + name + "' not found"@)),
        Ok(p) => if !p.is_repo {
            Err(invalid("point '"@ + name + "' is a data point, not a repo"@))
        } else {
            match p.repo_password {
                None => Err(invalid("repo point '"@ + name + "' is missing a password"@)),
                Some(password) => Ok(RepoView { scheme: p.scheme, config: p.config, password }),
            }
        },
    }
}

/// What opens the repository `repo_name` of `user`.
pub fn resolve_repo_point(user: &VfsUser, repo_name: &str) -> (r: Result<RepoSource, Status>)
    ensures
        crate::utils::gives_source(r, repo_of(user@.points, repo_name@)),
{
    match find_point(user, repo_name) {
        Err(_) => Err(
            Status::not_found("repo point '".to_owned().concat(repo_name).concat("' not found")),
        ),
        Ok(point) => {
            if !point.is_repo {
                return Err(
                    Status::invalid_argument(
                        "point '".to_owned().concat(repo_name).concat(
                            "' is a data point, not a repo",
                        ),
                    ),
                );
            }
            match &point.repo_password {
                None => Err(
                    Status::invalid_argument(
                        "repo point '".to_owned().concat(repo_name).concat(
                            "' is missing a password",
                        ),
                    ),
                ),
                Some(password) => Ok(
                    RepoSource {
                        scheme: point.scheme.clone(),
                        config: point.config.clone(),
                        password: password.clone(),
                    },
                ),
            }
        },
    }
}

/// The data point that a path leads to, and what follows its name.
pub open spec fn data_of(points: Seq<PointView>, path: Seq<char>) -> Result<
    (PointView, Seq<char>),
    StatusView,
> {
    let inner = trim_start(path, '/');
    let named = match tail(inner, '/') {
        Some(t) => t,
        None => Seq::empty(),
    };
    let name = head(named, '/');
    if head(inner, '/') != POINTS_ROOT@ {
        Err(
            invalid(
                "path '"@ + path
                    + "' must be under /points/<name>/... (repo-mounted paths aren't supported for backup/restore)"@,
            ),
        )
    } else if name.len() == 0 {
        Err(invalid("path '"@ + path + "' is missing a point name"@))
    } else {
        match found(points, name) {
            Err(_) => Err(missing("data point '"@ + name + "' not found"@)),
            Ok(p) => if p.is_repo {
                Err(invalid("point '"@ + name + "' is a repo, not a data point"@))
            } else {
                Ok(
                    (
                        p,
                        match tail(named, '/') {
                            Some(rest) => rest,
                            None => Seq::empty(),
                        },
                    ),
                )
            },
        }
    }
}

/// Resolves a path in the user's tree, such as `/points/<name>/sub/dir`, to
/// what locates the storage of the data point, and the rest of the path.
pub fn resolve_data_path(user: &VfsUser, vfs_path: &str) -> (r: Result<
    (DataSource, String),
    Status,
>)
    ensures
        match r {
            Ok((d, rest)) => match data_of(user@.points, vfs_path@) {
                Ok((p, s)) => d.scheme@ == p.scheme && texts(d.config@) == p.config && rest@ == s,
                Err(_) => false,
            },
            Err(e) => data_of(user@.points, vfs_path@) == Err::<
                (PointView, Seq<char>),
                StatusView,
            >(e@),
        },
{
    let inner = without_lead(vfs_path, '/');
    let (root, after_root) = cut(inner.as_str(), '/');
    if !same(root.as_str(), POINTS_ROOT) {
        return Err(
            Status::invalid_argument(
                "path '".to_owned().concat(vfs_path).concat(
                    "' must be under /points/<name>/... (repo-mounted paths aren't supported for backup/restore)",
                ),
            ),
        );
    }
    let named = match after_root {
        Some(t) => t,
        None => String::new(),
    };
    assert(after_root is None ==> named@ =~= Seq::<char>::empty());
    let (name, after_name) = cut(named.as_str(), '/');
    if name.as_str().is_empty() {
        return Err(
            Status::invalid_argument(
                "path '".to_owned().concat(vfs_path).concat("' is missing a point name"),
            ),
        );
    }
    let rest = match after_name {
        Some(t) => t,
        None => String::new(),
    };
    assert(after_name is None ==> rest@ =~= Seq::<char>::empty());
    match find_point(user, name.as_str()) {
        Err(_) => Err(
            Status::not_found(
                "data point '".to_owned().concat(name.as_str()).concat("' not found"),
            ),
        ),
        Ok(point) => {
            if point.is_repo {
                return Err(
                    Status::invalid_argument(
                        "point '".to_owned().concat(name.as_str()).concat(
                            "' is a repo, not a data point",
                        ),
                    ),
                );
            }
            Ok((point_config(point), rest))
        },
    }
}

/// A job that moves data between a repository and a directory.
#[derive(Debug)]
pub struct PathPlan {
    pub repo: RepoSource,
    pub data: DataSource,
    /// The directory in the data point.
    pub path: String,
}

/// Checks a backup of, or a restore into, the directory `vfs_path`.
pub fn path_job(user: &VfsUser, repo_name: &str, vfs_path: &str) -> (r: Result<PathPlan, Status>)
    ensures
        match r {
            Ok(plan) => {
                &&& repo_of(user@.points, repo_name@) == Ok::<RepoView, StatusView>(plan.repo@)
                &&& data_of(user@.points, vfs_path@) matches Ok((p, rest)) && plan.data.scheme@
                    == p.scheme && texts(plan.data.config@) == p.config && plan.path@ == rest
            },
            Err(e) => match repo_of(user@.points, repo_name@) {
                Err(s) => e@ == s,
                Ok(_) => data_of(user@.points, vfs_path@) == Err::<
                    (PointView, Seq<char>),
                    StatusView,
                >(e@),
            },
        },
{
    match resolve_repo_point(user, repo_name) {
        Ok(repo) => match resolve_data_path(user, vfs_path) {
            Ok((data, path)) => Ok(PathPlan { repo, data, path }),
            Err(e) => Err(e),
        },
        Err(e) => Err(e),
    }
}

// ── Laws ────────────────────────────────────────────────────────────────────

/// What these jobs accept, the jobs that name a point accept too, and it leads
/// to the same repository and the same data.
pub proof fn law_lookups_agree(points: Seq<PointView>, repo: Seq<char>, path: Seq<char>)
    ensures
        (repo_of(points, repo) is Ok) == (crate::utils::repo_named(points, repo) is Ok),
        repo_of(points, repo) is Ok ==> repo_of(points, repo) == crate::utils::repo_named(
            points,
            repo,
        ),
        (data_of(points, path) is Ok) == (crate::utils::data_path(points, path) is Ok),
        data_of(points, path) is Ok ==> data_of(points, path) == crate::utils::data_path(
            points,
            path,
        ),
{
}

/// A repository is opened by its name as its point is configured, whole. One
/// that is not there is reported as such; one without a password, and a point
/// of raw data, make no sense.
pub proof fn law_repositories_are_opened_by_name(
    user: &VfsUser,
    name: &str,
    r: Result<RepoSource, Status>,
) -> (i: int)
    requires
        call_ensures(resolve_repo_point, (user, name), r),
    ensures
        match r {
            Ok(s) => {
                &&& 0 <= i < user.points@.len()
                &&& user.points@[i].name@ == name@
                &&& forall|j: int| 0 <= j < i ==> (#[trigger] user.points@[j]).name@ != name@
                &&& user.points@[i].is_repo
                &&& s.scheme@ == user.points@[i].scheme@
                &&& texts(s.config@) == texts(user.points@[i].config@)
                &&& user.points@[i].repo_password matches Some(w) && s.password@ == w@
            },
            Err(e) => if 0 <= i < user.points@.len() {
                &&& user.points@[i].name@ == name@
                &&& forall|j: int| 0 <= j < i ==> (#[trigger] user.points@[j]).name@ != name@
                &&& !user.points@[i].is_repo || user.points@[i].repo_password is None
                &&& e.code == crate::status::Code::InvalidArgument
            } else {
                &&& forall|j: int|
                    0 <= j < user.points@.len() ==> (#[trigger] user.points@[j]).name@ != name@
                &&& e.code == crate::status::Code::NotFound
            },
        },
{
    let i = crate::utils::lemma_found_at(user@.points, name@);
    assert forall|j: int| 0 <= j < user.points@.len() implies (#[trigger] user.points@[j]).name@
        == user@.points[j].name by {}
    if found(user@.points, name@) is Ok {
        i
    } else {
        -1
    }
}

/// A path in the directory of data points leads to the storage of the point
/// that its second part names, whole, and to what follows that part.
pub proof fn law_paths_lead_to_the_storage_they_name(
    user: &VfsUser,
    path: &str,
    r: Result<(DataSource, String), Status>,
    slashes: nat,
    name: Seq<char>,
    rest: Option<Seq<char>>,
) -> (i: int)
    requires
        call_ensures(resolve_data_path, (user, path), r),
        name.len() > 0,
        !name.contains('/'),
        path@ == Seq::new(slashes, |i: int| '/') + "points/"@ + name + match rest {
            Some(t) => seq!['/'] + t,
            None => Seq::empty(),
        },
    ensures
        match r {
            Ok((d, inner)) => {
                &&& 0 <= i < user.points@.len()
                &&& user.points@[i].name@ == name
                &&& !user.points@[i].is_repo
                &&& forall|j: int| 0 <= j < i ==> (#[trigger] user.points@[j]).name@ != name
                &&& d.scheme@ == user.points@[i].scheme@
                &&& texts(d.config@) == texts(user.points@[i].config@)
                &&& inner@ == match rest {
                    Some(t) => t,
                    None => Seq::empty(),
                }
            },
            Err(e) => if 0 <= i < user.points@.len() {
                &&& user.points@[i].name@ == name
                &&& user.points@[i].is_repo
                &&& forall|j: int| 0 <= j < i ==> (#[trigger] user.points@[j]).name@ != name
                &&& e.code == crate::status::Code::InvalidArgument
            } else {
                &&& forall|j: int|
                    0 <= j < user.points@.len() ==> (#[trigger] user.points@[j]).name@ != name
                &&& e.code == crate::status::Code::NotFound
            },
        },
{
    crate::utils::lemma_data_path_parts(path@, slashes, name, rest);
    let i = crate::utils::lemma_found_at(user@.points, name);
    assert forall|j: int| 0 <= j < user.points@.len() implies (#[trigger] user.points@[j]).name@
        == user@.points[j].name by {}
    if found(user@.points, name) is Ok {
        i
    } else {
        -1
    }
}

/// These jobs take exactly the paths that the lookup of a data point takes, and
/// lead to the same storage and the same rest.
pub proof fn law_paths_are_taken_alike<'a>(
    user: &'a VfsUser,
    path: &str,
    r: Result<(DataSource, String), Status>,
    at: Result<(&'a crate::model::VfsPoint, String), Status>,
)
    requires
        call_ensures(resolve_data_path, (user, path), r),
        call_ensures(crate::utils::resolve_data_path, (user, path), at),
    ensures
        r is Ok <==> at is Ok,
        r matches Ok((d, inner)) ==> (at matches Ok((p, rest)) && d.scheme@ == p.scheme@ && texts(
            d.config@,
        ) == texts(p.config@) && inner@ == rest@),
{
    law_lookups_agree(user@.points, Seq::empty(), path@);
}

/// A job by path starts exactly where its repository can be opened and its path
/// leads to data, with what these lookups give; the repository is judged first.
pub proof fn law_path_jobs_use_both_lookups(
    user: &VfsUser,
    repo_name: &str,
    path: &str,
    repo: Result<RepoSource, Status>,
    data: Result<(DataSource, String), Status>,
    r: Result<PathPlan, Status>,
)
    requires
        call_ensures(resolve_repo_point, (user, repo_name), repo),
        call_ensures(resolve_data_path, (user, path), data),
        call_ensures(path_job, (user, repo_name, path), r),
    ensures
        r is Ok <==> repo is Ok && data is Ok,
        r matches Ok(plan) ==> {
            &&& repo matches Ok(s) && plan.repo.scheme@ == s.scheme@ && texts(plan.repo.config@)
                == texts(s.config@) && plan.repo.password@ == s.password@
            &&& data matches Ok((d, inner)) && plan.data.scheme@ == d.scheme@ && texts(
                plan.data.config@,
            ) == texts(d.config@) && plan.path@ == inner@
        },
        repo matches Err(e) ==> (r matches Err(f) && f@ == e@),
        repo is Ok ==> (data matches Err(e) ==> (r matches Err(f) && f@ == e@)),
{
}

/// That a user is not there is reported as such, and every other failure of the
/// user store as internal, with its own text.
pub proof fn law_user_failures_are_told_apart(e: VfsError, text: String, r: Status)
    requires
        call_ensures(map_vfs, (e,), r),
        call_ensures(VfsError::text, (&e,), text),
    ensures
        r.message@ == text@,
        e is UserNotFound <==> r.code == crate::status::Code::NotFound,
        !(e is UserNotFound) <==> r.code == crate::status::Code::Internal,
{
}

} // verus!
