//! Users, their mount points, and what locates a repository.
//!
//! Every user sees one tree:
//!
//! ```text
//! /
//! ├── points/
//! │   ├── <name>/   raw data; quota-enforced when writable
//! │   └── ...
//! └── repos/
//!     ├── <name>/   repository contents; always read-only
//!     └── ...
//! ```

use crate::strmap::{texts, StrMap};
use crate::text::same;
use vstd::prelude::*;

verus! {

/// The text of an optional string.
pub open spec fn opt_text(o: Option<String>) -> Option<Seq<char>> {
    match o {
        Some(s) => Some(s@),
        None => None,
    }
}

/// Whether two optional strings are the same.
pub fn same_opt(a: &Option<String>, b: &Option<String>) -> (r: bool)
    ensures
        r == (opt_text(*a) == opt_text(*b)),
{
    match (a, b) {
        (Some(x), Some(y)) => same(x.as_str(), y.as_str()),
        (None, None) => true,
        _ => false,
    }
}

/// A second optional string with the same text.
pub fn clone_opt(o: &Option<String>) -> (r: Option<String>)
    ensures
        opt_text(r) == opt_text(*o),
{
    match o {
        Some(s) => Some(s.clone()),
        None => None,
    }
}

/// What a [`VfsPoint`] says.
#[verifier::ext_equal]
pub struct PointView {
    pub name: Seq<char>,
    pub max_bytes: Option<u64>,
    pub read_only: bool,
    pub scheme: Seq<char>,
    pub config: Map<Seq<char>, Seq<char>>,
    pub is_repo: bool,
    pub repo_password: Option<Seq<char>>,
}

/// A single virtual mount point belonging to a [`VfsUser`].
///
/// Exposed as `points/<name>/**` (raw data) or `repos/<name>/**` (repository
/// contents) inside the user's tree.
#[derive(Debug)]
pub struct VfsPoint {
    /// Mount name: the path component under the namespace prefix.
    pub name: String,
    /// Maximum number of bytes that this point may hold. `None` means
    /// unlimited. Ignored when `read_only` is `true`.
    pub max_bytes: Option<u64>,
    /// When `true`, writes and deletes are rejected at the mount level. Repo
    /// mounts are always read-only regardless of this flag.
    pub read_only: bool,
    /// The storage scheme to use. Example: `s3`.
    pub scheme: String,
    /// All storage options.
    pub config: StrMap<String>,
    /// `true` for a repository, `false` for raw data.
    pub is_repo: bool,
    /// Decryption password of the repository. Required (and only consulted)
    /// when `is_repo` is `true`.
    pub repo_password: Option<String>,
}

impl View for VfsPoint {
    type V = PointView;

    open spec fn view(&self) -> PointView {
        PointView {
            name: self.name@,
            max_bytes: self.max_bytes,
            read_only: self.read_only,
            scheme: self.scheme@,
            config: texts(self.config@),
            is_repo: self.is_repo,
            repo_password: opt_text(self.repo_password),
        }
    }
}

impl Clone for VfsPoint {
    fn clone(&self) -> (r: Self)
        ensures
            r@ == self@,
    {
        VfsPoint {
            name: self.name.clone(),
            max_bytes: self.max_bytes,
            read_only: self.read_only,
            scheme: self.scheme.clone(),
            config: self.config.clone(),
            is_repo: self.is_repo,
            repo_password: clone_opt(&self.repo_password),
        }
    }
}

impl vstd::std_specs::cmp::PartialEqSpecImpl for VfsPoint {
    open spec fn obeys_eq_spec() -> bool {
        true
    }

    open spec fn eq_spec(&self, other: &VfsPoint) -> bool {
        self@ == other@
    }
}

impl PartialEq for VfsPoint {
    fn eq(&self, other: &Self) -> (r: bool) {
        let limits = match (self.max_bytes, other.max_bytes) {
            (Some(a), Some(b)) => a == b,
            (None, None) => true,
            _ => false,
        };
        same(self.name.as_str(), other.name.as_str()) && limits && self.read_only
            == other.read_only && same(self.scheme.as_str(), other.scheme.as_str())
            && self.config.equals(&other.config) && self.is_repo == other.is_repo && same_opt(
            &self.repo_password,
            &other.repo_password,
        )
    }
}

/// What a [`VfsUser`] says.
#[verifier::ext_equal]
pub struct UserView {
    pub username: Seq<char>,
    pub password: Seq<char>,
    pub points: Seq<PointView>,
}

/// What a list of points says.
pub open spec fn point_views(points: Seq<VfsPoint>) -> Seq<PointView> {
    points.map_values(|p: VfsPoint| p@)
}

/// What a list of users says.
pub open spec fn user_views(users: Seq<VfsUser>) -> Seq<UserView> {
    users.map_values(|u: VfsUser| u@)
}

/// A user identity and its mount points.
#[derive(Debug)]
pub struct VfsUser {
    /// Unique username. Also used as a prefix of quota keys, so that one
    /// shared tracker isolates every user.
    pub username: String,
    /// What the user authenticates with.
    pub password: String,
    /// Ordered mount points owned by this user.
    pub points: Vec<VfsPoint>,
}

impl View for VfsUser {
    type V = UserView;

    open spec fn view(&self) -> UserView {
        UserView {
            username: self.username@,
            password: self.password@,
            points: point_views(self.points@),
        }
    }
}

impl Clone for VfsUser {
    fn clone(&self) -> (r: Self)
        ensures
            r@ == self@,
    {
        let mut points: Vec<VfsPoint> = Vec::new();
        let mut i: usize = 0;
        while i < self.points.len()
            invariant
                i <= self.points@.len(),
                points@.len() == i,
                forall|j: int| 0 <= j < i ==> #[trigger] points@[j]@ == self.points@[j]@,
            decreases self.points@.len() - i,
        {
            let p = self.points[i].clone();
            points.push(p);
            i += 1;
        }
        assert(point_views(points@) =~= point_views(self.points@));
        VfsUser { username: self.username.clone(), password: self.password.clone(), points }
    }
}

/// Whether two lists of points say the same.
fn same_points(a: &Vec<VfsPoint>, b: &Vec<VfsPoint>) -> (r: bool)
    ensures
        r == (point_views(a@) == point_views(b@)),
{
    if a.len() != b.len() {
        assert(point_views(a@).len() != point_views(b@).len());
        return false;
    }
    let mut i: usize = 0;
    while i < a.len()
        invariant
            a@.len() == b@.len(),
            i <= a@.len(),
            forall|j: int| 0 <= j < i ==> #[trigger] a@[j]@ == b@[j]@,
        decreases a@.len() - i,
    {
        if a[i] != b[i] {
            assert(point_views(a@)[i as int] != point_views(b@)[i as int]);
            return false;
        }
        i += 1;
    }
    assert(point_views(a@) =~= point_views(b@));
    true
}

impl vstd::std_specs::cmp::PartialEqSpecImpl for VfsUser {
    open spec fn obeys_eq_spec() -> bool {
        true
    }

    open spec fn eq_spec(&self, other: &VfsUser) -> bool {
        self@ == other@
    }
}

impl PartialEq for VfsUser {
    fn eq(&self, other: &Self) -> (r: bool) {
        same(self.username.as_str(), other.username.as_str()) && same(
            self.password.as_str(),
            other.password.as_str(),
        ) && same_points(&self.points, &other.points)
    }
}

/// What a [`RepoSource`] says.
#[verifier::ext_equal]
pub struct RepoView {
    pub scheme: Seq<char>,
    pub config: Map<Seq<char>, Seq<char>>,
    pub password: Seq<char>,
}

/// Identifies a repository by its storage scheme and decryption password.
#[derive(Debug)]
pub struct RepoSource {
    /// The scheme that locates the repository.
    pub scheme: String,
    /// All storage options.
    pub config: StrMap<String>,
    /// The decryption password.
    pub password: String,
}

impl View for RepoSource {
    type V = RepoView;

    open spec fn view(&self) -> RepoView {
        RepoView {
            scheme: self.scheme@,
            config: texts(self.config@),
            password: self.password@,
        }
    }
}

/// What locates the raw storage of a data point.
#[derive(Debug)]
pub struct DataSource {
    /// The storage scheme.
    pub scheme: String,
    /// All storage options.
    pub config: StrMap<String>,
}

/// Failures of the user store and of building a user's tree. Failures of the
/// parts below are held as the text that they report.
#[derive(Debug)]
pub enum VfsError {
    Storage(String),
    OpenDal(String),
    SqlError(String),
    SerdeError(String),
    UserNotFound,
    RepoPasswordMissing,
    Internal(String),
}

/// The message of a [`VfsError`].
pub open spec fn vfs_error_text(e: VfsError) -> Seq<char> {
    match e {
        VfsError::Storage(t) => "storage error: "@ + t@,
        VfsError::OpenDal(t) => "opendal error: "@ + t@,
        VfsError::SqlError(t) => "sql error: "@ + t@,
        VfsError::SerdeError(t) => "serialization error: "@ + t@,
        VfsError::UserNotFound => "user not found"@,
        VfsError::RepoPasswordMissing => "point is a repo mount but has no `repo_password`"@,
        VfsError::Internal(t) => "internal error: "@ + t@,
    }
}

impl VfsError {
    /// The message of this error.
    pub fn text(&self) -> (r: String)
        ensures
            r@ == vfs_error_text(*self),
    {
        match self {
            VfsError::Storage(t) => "storage error: ".to_owned().concat(t.as_str()),
            VfsError::OpenDal(t) => "opendal error: ".to_owned().concat(t.as_str()),
            VfsError::SqlError(t) => "sql error: ".to_owned().concat(t.as_str()),
            VfsError::SerdeError(t) => "serialization error: ".to_owned().concat(t.as_str()),
            VfsError::UserNotFound => "user not found".to_owned(),
            VfsError::RepoPasswordMissing => {
                "point is a repo mount but has no `repo_password`".to_owned()
            },
            VfsError::Internal(t) => "internal error: ".to_owned().concat(t.as_str()),
        }
    }
}

// ── Laws ────────────────────────────────────────────────────────────────────

/// A point says what its fields say, and two points are equal only where they
/// agree in every field.
pub proof fn law_points_are_told_apart_by_every_field(a: &VfsPoint, b: &VfsPoint, r: bool)
    requires
        call_ensures(VfsPoint::eq, (a, b), r),
    ensures
        a@.name == a.name@,
        a@.max_bytes == a.max_bytes,
        a@.read_only == a.read_only,
        a@.scheme == a.scheme@,
        a@.config == texts(a.config@),
        a@.is_repo == a.is_repo,
        a@.repo_password is Some == a.repo_password is Some,
        a.repo_password matches Some(w) ==> a@.repo_password == Some(w@),
        r <==> {
            &&& a.name@ == b.name@
            &&& a.max_bytes == b.max_bytes
            &&& a.read_only == b.read_only
            &&& a.scheme@ == b.scheme@
            &&& texts(a.config@) == texts(b.config@)
            &&& a.is_repo == b.is_repo
            &&& a@.repo_password == b@.repo_password
        },
{
    assert(a@ == b@ <==> a@ =~= b@);
}

/// A user says what its fields say, its points in order, and two users are
/// equal only where they agree in all of that.
pub proof fn law_users_are_told_apart_by_every_field(a: &VfsUser, b: &VfsUser, r: bool)
    requires
        call_ensures(VfsUser::eq, (a, b), r),
    ensures
        a@.username == a.username@,
        a@.password == a.password@,
        a@.points.len() == a.points@.len(),
        forall|i: int| 0 <= i < a.points@.len() ==> #[trigger] a@.points[i] == a.points@[i]@,
        r <==> {
            &&& a.username@ == b.username@
            &&& a.password@ == b.password@
            &&& a.points@.len() == b.points@.len()
            &&& forall|i: int|
                0 <= i < a.points@.len() ==> (#[trigger] a.points@[i])@ == b.points@[i]@
        },
{
    if a.points@.len() == b.points@.len() && (forall|i: int|
        0 <= i < a.points@.len() ==> (#[trigger] a.points@[i])@ == b.points@[i]@) {
        assert(a@.points =~= b@.points);
    }
    if a@ == b@ {
        assert forall|i: int| 0 <= i < a.points@.len() implies (#[trigger] a.points@[i])@
            == b.points@[i]@ by {
            assert(a@.points[i] == b@.points[i]);
        }
        assert(a@.points.len() == b@.points.len());
    }
}

/// What opens a repository says what its fields say.
pub proof fn law_repositories_say_what_they_hold(s: &RepoSource)
    ensures
        s@.scheme == s.scheme@,
        s@.config == texts(s.config@),
        s@.password == s.password@,
{
}

/// A copy of a user or of a point is equal to it.
pub proof fn law_copies_are_equal(
    u: &VfsUser,
    v: VfsUser,
    p: &VfsPoint,
    q: VfsPoint,
    same_user: bool,
    same_point: bool,
)
    requires
        call_ensures(VfsUser::clone, (u,), v),
        call_ensures(VfsPoint::clone, (p,), q),
        call_ensures(VfsUser::eq, (u, &v), same_user),
        call_ensures(VfsPoint::eq, (p, &q), same_point),
    ensures
        same_user,
        same_point,
{
}

/// The text of a failure names where it came from, and holds what it was told.
pub proof fn law_failures_say_what_failed(e: &VfsError, r: String)
    requires
        call_ensures(VfsError::text, (e,), r),
    ensures
        match *e {
            VfsError::Storage(t) => r@ == "storage error: "@ + t@,
            VfsError::OpenDal(t) => r@ == "opendal error: "@ + t@,
            VfsError::SqlError(t) => r@ == "sql error: "@ + t@,
            VfsError::SerdeError(t) => r@ == "serialization error: "@ + t@,
            VfsError::UserNotFound => r@ == "user not found"@,
            VfsError::RepoPasswordMissing => r@
                == "point is a repo mount but has no `repo_password`"@,
            VfsError::Internal(t) => r@ == "internal error: "@ + t@,
        },
{
}

/// Optional strings are the same where both are missing, or both are there with
/// the same text; a copy of one is the same.
pub proof fn law_optional_texts_are_compared(
    a: &Option<String>,
    b: &Option<String>,
    same: bool,
    copy: Option<String>,
)
    requires
        call_ensures(same_opt, (a, b), same),
        call_ensures(clone_opt, (a,), copy),
    ensures
        same <==> match (*a, *b) {
            (Some(x), Some(y)) => x@ == y@,
            (None, None) => true,
            _ => false,
        },
        a is None <==> copy is None,
        *a matches Some(x) ==> (copy matches Some(y) && x@ == y@),
{
}

} // verus!
