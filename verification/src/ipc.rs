//! Messages of the service, and how they stand for users and mount points.

use crate::list::turned;
use crate::model::{self, PointView, UserView};
use crate::status::{invalid, Status, StatusView};
use crate::strmap::{texts, StrMap};
use vstd::prelude::*;

verus! {

/// What a [`PointSource`] says.
#[verifier::ext_equal]
pub struct SourceView {
    pub scheme: Seq<char>,
    pub config: Map<Seq<char>, Seq<char>>,
}

/// Locates the storage of a mount point.
#[derive(Debug)]
pub struct PointSource {
    pub scheme: String,
    pub config: StrMap<String>,
}

impl View for PointSource {
    type V = SourceView;

    open spec fn view(&self) -> SourceView {
        SourceView { scheme: self.scheme@, config: texts(self.config@) }
    }
}

/// What an optional [`PointSource`] says.
pub open spec fn opt_source(o: Option<PointSource>) -> Option<SourceView> {
    match o {
        Some(s) => Some(s@),
        None => None,
    }
}

/// What a [`RepoSource`] says.
#[verifier::ext_equal]
pub struct RepoSourceView {
    pub src: Option<SourceView>,
    pub password: Seq<char>,
}

/// Locates a repository and opens it.
#[derive(Debug)]
pub struct RepoSource {
    pub src: Option<PointSource>,
    pub password: String,
}

impl View for RepoSource {
    type V = RepoSourceView;

    open spec fn view(&self) -> RepoSourceView {
        RepoSourceView { src: opt_source(self.src), password: self.password@ }
    }
}

/// What a [`Src`] says.
#[verifier::ext_equal]
pub enum SrcView {
    Data(SourceView),
    Repo(RepoSourceView),
}

/// What stands behind a mount point.
#[derive(Debug)]
pub enum Src {
    Data(PointSource),
    Repo(RepoSource),
}

impl View for Src {
    type V = SrcView;

    open spec fn view(&self) -> SrcView {
        match self {
            Src::Data(s) => SrcView::Data(s@),
            Src::Repo(s) => SrcView::Repo(s@),
        }
    }
}

/// What a [`VfsPoint`] says.
#[verifier::ext_equal]
pub struct PointMessage {
    pub name: Seq<char>,
    pub max_bytes: u64,
    pub can_write: bool,
    pub src: Option<SrcView>,
}

/// A mount point. A limit of zero means that there is none.
#[derive(Debug)]
pub struct VfsPoint {
    pub name: String,
    pub max_bytes: u64,
    pub can_write: bool,
    pub src: Option<Src>,
}

impl View for VfsPoint {
    type V = PointMessage;

    open spec fn view(&self) -> PointMessage {
        PointMessage {
            name: self.name@,
            max_bytes: self.max_bytes,
            can_write: self.can_write,
            src: match self.src {
                Some(s) => Some(s@),
                None => None,
            },
        }
    }
}

/// What a [`VfsUser`] says.
#[verifier::ext_equal]
pub struct UserMessage {
    pub name: Seq<char>,
    pub password: Seq<char>,
    pub points: Seq<PointMessage>,
}

/// What a list of points says.
pub open spec fn point_messages(points: Seq<VfsPoint>) -> Seq<PointMessage> {
    points.map_values(|p: VfsPoint| p@)
}

/// A user and its mount points.
#[derive(Debug)]
pub struct VfsUser {
    pub name: String,
    pub password: String,
    pub points: Vec<VfsPoint>,
}

impl View for VfsUser {
    type V = UserMessage;

    open spec fn view(&self) -> UserMessage {
        UserMessage {
            name: self.name@,
            password: self.password@,
            points: point_messages(self.points@),
        }
    }
}

/// What a list of users says.
pub open spec fn user_messages(users: Seq<VfsUser>) -> Seq<UserMessage> {
    users.map_values(|u: VfsUser| u@)
}

// ── Conversions ─────────────────────────────────────────────────────────────

/// The mount point that a message describes.
pub open spec fn point_of(m: PointMessage) -> Result<PointView, StatusView> {
    let max_bytes = if m.max_bytes != 0 {
        Some(m.max_bytes)
    } else {
        None
    };
    match m.src {
        None => Err(invalid("VfsPoint.src is required"@)),
        Some(SrcView::Data(s)) => Ok(
            PointView {
                name: m.name,
                max_bytes,
                read_only: !m.can_write,
                scheme: s.scheme,
                config: s.config,
                is_repo: false,
                repo_password: None,
            },
        ),
        Some(SrcView::Repo(rs)) => match rs.src {
            None => Err(invalid("VfsPoint[repo].src is required"@)),
            Some(s) => Ok(
                PointView {
                    name: m.name,
                    max_bytes,
                    read_only: !m.can_write,
                    scheme: s.scheme,
                    config: s.config,
                    is_repo: true,
                    repo_password: Some(rs.password),
                },
            ),
        },
    }
}

/// The message that describes a mount point.
pub open spec fn message_of(p: PointView) -> PointMessage {
    let s = SourceView { scheme: p.scheme, config: p.config };
    PointMessage {
        name: p.name,
        max_bytes: match p.max_bytes {
            Some(n) => n,
            None => 0,
        },
        can_write: !p.read_only,
        src: Some(
            if p.is_repo {
                SrcView::Repo(
                    RepoSourceView {
                        src: Some(s),
                        password: match p.repo_password {
                            Some(w) => w,
                            None => Seq::empty(),
                        },
                    },
                )
            } else {
                SrcView::Data(s)
            },
        ),
    }
}

/// The points that messages describe, in order; the first that describes none
/// decides the outcome.
pub open spec fn points_of(m: Seq<PointMessage>) -> Result<Seq<PointView>, StatusView>
    decreases m.len(),
{
    if m.len() == 0 {
        Ok(Seq::empty())
    } else {
        match points_of(m.drop_last()) {
            Err(e) => Err(e),
            Ok(front) => match point_of(m.last()) {
                Err(e) => Err(e),
                Ok(p) => Ok(front.push(p)),
            },
        }
    }
}

/// The user that a message describes.
pub open spec fn user_of(m: UserMessage) -> Result<UserView, StatusView> {
    match points_of(m.points) {
        Err(e) => Err(e),
        Ok(points) => Ok(UserView { username: m.name, password: m.password, points }),
    }
}

/// The users that messages describe, in order; the first that describes none
/// decides the outcome.
pub open spec fn users_of(m: Seq<UserMessage>) -> Result<Seq<UserView>, StatusView>
    decreases m.len(),
{
    if m.len() == 0 {
        Ok(Seq::empty())
    } else {
        match users_of(m.drop_last()) {
            Err(e) => Err(e),
            Ok(front) => match user_of(m.last()) {
                Err(e) => Err(e),
                Ok(u) => Ok(front.push(u)),
            },
        }
    }
}

/// A prefix that describes nothing decides the outcome of the whole.
proof fn lemma_points_prefix(m: Seq<PointMessage>, k: int)
    requires
        0 <= k <= m.len(),
        points_of(m.take(k)) is Err,
    ensures
        points_of(m) == points_of(m.take(k)),
    decreases m.len() - k,
{
    if k < m.len() {
        assert(m.take(k + 1).drop_last() =~= m.take(k));
        lemma_points_prefix(m, k + 1);
    } else {
        assert(m.take(k) =~= m);
    }
}

/// A prefix that describes nothing decides the outcome of the whole.
proof fn lemma_users_prefix(m: Seq<UserMessage>, k: int)
    requires
        0 <= k <= m.len(),
        users_of(m.take(k)) is Err,
    ensures
        users_of(m) == users_of(m.take(k)),
    decreases m.len() - k,
{
    if k < m.len() {
        assert(m.take(k + 1).drop_last() =~= m.take(k));
        lemma_users_prefix(m, k + 1);
    } else {
        assert(m.take(k) =~= m);
    }
}

/// Reads a mount point from its message.
pub fn point_from(p: VfsPoint) -> (r: Result<model::VfsPoint, Status>)
    ensures
        match r {
            Ok(point) => point_of(p@) == Ok::<PointView, StatusView>(point@),
            Err(e) => point_of(p@) == Err::<PointView, StatusView>(e@),
        },
{
    let (source, is_repo, repo_password) = match p.src {
        Some(Src::Data(ps)) => (ps, false, None),
        Some(Src::Repo(rs)) => match rs.src {
            None => {
                return Err(Status::invalid_argument("VfsPoint[repo].src is required".to_owned()));
            },
            Some(x) => (x, true, Some(rs.password)),
        },
        None => {
            return Err(Status::invalid_argument("VfsPoint.src is required".to_owned()));
        },
    };
    Ok(
        model::VfsPoint {
            name: p.name,
            max_bytes: if p.max_bytes != 0 {
                Some(p.max_bytes)
            } else {
                None
            },
            read_only: !p.can_write,
            scheme: source.scheme,
            config: source.config,
            is_repo,
            repo_password,
        },
    )
}

/// Writes a mount point into its message.
pub fn point_into(point: &model::VfsPoint) -> (r: VfsPoint)
    ensures
        r@ == message_of(point@),
{
    let p = PointSource { scheme: point.scheme.clone(), config: point.config.clone() };
    let src = if point.is_repo {
        let password = match &point.repo_password {
            Some(w) => w.clone(),
            None => String::new(),
        };
        Src::Repo(RepoSource { src: Some(p), password })
    } else {
        Src::Data(p)
    };
    VfsPoint {
        name: point.name.clone(),
        max_bytes: match point.max_bytes {
            Some(n) => n,
            None => 0,
        },
        can_write: !point.read_only,
        src: Some(src),
    }
}

/// Reads a user from its message.
pub fn user_from(p: VfsUser) -> (r: Result<model::VfsUser, Status>)
    ensures
        match r {
            Ok(user) => user_of(p@) == Ok::<UserView, StatusView>(user@),
            Err(e) => user_of(p@) == Err::<UserView, StatusView>(e@),
        },
{
    let ghost all = p.points@;
    let ghost messages = point_messages(all);
    let mut rest = turned(p.points);
    let mut points: Vec<model::VfsPoint> = Vec::new();
    let count = rest.len();
    let mut i: usize = 0;
    assert(messages.take(0) =~= Seq::empty());
    assert(model::point_views(points@) =~= Seq::empty());
    while i < count
        invariant
            i <= count,
            count == all.len(),
            messages == point_messages(all),
            messages == p@.points,
            rest@.len() == count - i,
            forall|j: int| 0 <= j < count - i ==> #[trigger] rest@[j] == all[count - 1 - j],
            points_of(messages.take(i as int)) == Ok::<Seq<PointView>, StatusView>(
                model::point_views(points@),
            ),
        decreases count - i,
    {
        assert(messages.take(i + 1).drop_last() =~= messages.take(i as int));
        match rest.pop() {
            Some(m) => {
                assert(m == all[i as int]);
                assert(messages.take(i + 1).last() == m@);
                match point_from(m) {
                    Ok(point) => {
                        let ghost before = points@;
                        points.push(point);
                        assert(model::point_views(points@) =~= model::point_views(before).push(
                            point@,
                        ));
                    },
                    Err(e) => {
                        proof {
                            lemma_points_prefix(messages, i + 1);
                        }
                        return Err(e);
                    },
                }
            },
            None => {},
        }
        i += 1;
    }
    assert(messages.take(count as int) =~= messages);
    Ok(model::VfsUser { username: p.name, password: p.password, points })
}

/// Reads users from their messages. The first that is not valid decides.
pub fn users_from(messages: Vec<VfsUser>) -> (r: Result<Vec<model::VfsUser>, Status>)
    ensures
        match r {
            Ok(users) => users_of(user_messages(messages@)) == Ok::<Seq<UserView>, StatusView>(
                model::user_views(users@),
            ),
            Err(e) => users_of(user_messages(messages@)) == Err::<Seq<UserView>, StatusView>(e@),
        },
{
    let ghost all = messages@;
    let ghost views = user_messages(all);
    let mut rest = turned(messages);
    let mut users: Vec<model::VfsUser> = Vec::new();
    let count = rest.len();
    let mut i: usize = 0;
    assert(views.take(0) =~= Seq::empty());
    assert(model::user_views(users@) =~= Seq::empty());
    while i < count
        invariant
            i <= count,
            count == all.len(),
            all == messages@,
            views == user_messages(all),
            rest@.len() == count - i,
            forall|j: int| 0 <= j < count - i ==> #[trigger] rest@[j] == all[count - 1 - j],
            users_of(views.take(i as int)) == Ok::<Seq<UserView>, StatusView>(
                model::user_views(users@),
            ),
        decreases count - i,
    {
        assert(views.take(i + 1).drop_last() =~= views.take(i as int));
        match rest.pop() {
            Some(m) => {
                assert(m == all[i as int]);
                assert(views.take(i + 1).last() == m@);
                match user_from(m) {
                    Ok(user) => {
                        let ghost before = users@;
                        users.push(user);
                        assert(model::user_views(users@) =~= model::user_views(before).push(user@));
                    },
                    Err(e) => {
                        proof {
                            lemma_users_prefix(views, i + 1);
                        }
                        return Err(e);
                    },
                }
            },
            None => {},
        }
        i += 1;
    }
    assert(views.take(count as int) =~= views);
    Ok(users)
}

// ── Laws ────────────────────────────────────────────────────────────────────

/// A mount point that was read from a message is written as the same message.
pub proof fn law_message_round_trip(m: PointMessage)
    requires
        point_of(m) is Ok,
    ensures
        message_of(point_of(m)->Ok_0) == m,
{
}

/// A mount point that was written as a message is read back as it was. Left
/// out are a limit of zero bytes, a repository without a password, and raw
/// data with one, which no message tells from no limit, an empty password,
/// and none.
pub proof fn law_point_round_trip(p: PointView)
    requires
        p.max_bytes != Some(0u64),
        p.is_repo == (p.repo_password is Some),
    ensures
        point_of(message_of(p)) == Ok::<PointView, StatusView>(p),
{
    assert(point_of(message_of(p))->Ok_0 =~= p);
}

/// A message is read as the point that it describes: its name, its limit, where
/// zero means none, whether it can be written, and the storage that it names,
/// whole. One that names no storage is refused.
pub proof fn law_points_are_read_as_described(p: VfsPoint, r: Result<model::VfsPoint, Status>)
    requires
        call_ensures(point_from, (p,), r),
    ensures
        r is Ok <==> (p.src matches Some(s) && (s matches Src::Repo(rs) ==> rs.src is Some)),
        r matches Ok(q) ==> {
            &&& q.name@ == p.name@
            &&& q.max_bytes is None <==> p.max_bytes == 0
            &&& q.max_bytes matches Some(n) ==> n == p.max_bytes
            &&& q.read_only == !p.can_write
            &&& p.src matches Some(Src::Data(s)) ==> {
                &&& !q.is_repo
                &&& q.repo_password is None
                &&& q.scheme@ == s.scheme@
                &&& texts(q.config@) == texts(s.config@)
            }
            &&& p.src matches Some(Src::Repo(rs)) ==> {
                &&& q.is_repo
                &&& q.repo_password matches Some(w) && w@ == rs.password@
                &&& rs.src matches Some(s) && q.scheme@ == s.scheme@ && texts(q.config@) == texts(
                    s.config@,
                )
            }
        },
        r matches Err(e) ==> e.code == crate::status::Code::InvalidArgument,
{
}

/// A point is written as the message that describes it, in every field.
pub proof fn law_points_are_written_as_they_are(p: &model::VfsPoint, r: VfsPoint)
    requires
        call_ensures(point_into, (p,), r),
    ensures
        r.name@ == p.name@,
        p.max_bytes matches Some(n) ==> r.max_bytes == n,
        p.max_bytes is None ==> r.max_bytes == 0,
        r.can_write == !p.read_only,
        p.is_repo <==> r.src matches Some(Src::Repo(_)),
        !p.is_repo <==> r.src matches Some(Src::Data(_)),
        r.src matches Some(Src::Data(s)) ==> s.scheme@ == p.scheme@ && texts(s.config@) == texts(
            p.config@,
        ),
        r.src matches Some(Src::Repo(rs)) ==> {
            &&& rs.src matches Some(s) && s.scheme@ == p.scheme@ && texts(s.config@) == texts(
                p.config@,
            )
            &&& p.repo_password matches Some(w) ==> rs.password@ == w@
            &&& p.repo_password is None ==> rs.password@.len() == 0
        },
{
    match r.src {
        Some(s) => {
            assert(r@.src == Some(s@));
            match s {
                Src::Data(d) => {
                    assert(s@ == SrcView::Data(d@));
                },
                Src::Repo(d) => {
                    assert(s@ == SrcView::Repo(d@));
                    assert(d@.src == opt_source(d.src));
                },
            }
        },
        None => {},
    }
}

/// A user is read with its name, its password and every one of its points, in
/// order; it is refused exactly where one of its points is.
pub proof fn law_users_are_read_with_every_point(
    u: VfsUser,
    r: Result<model::VfsUser, Status>,
    k: int,
)
    requires
        call_ensures(user_from, (u,), r),
    ensures
        r matches Ok(v) ==> {
            &&& v.username@ == u.name@
            &&& v.password@ == u.password@
            &&& v.points@.len() == u.points@.len()
            &&& 0 <= k < u.points@.len() ==> point_of(u.points@[k]@) == Ok::<PointView, StatusView>(
                v.points@[k]@,
            )
        },
        r is Err <==> exists|i: int|
            0 <= i < u.points@.len() && point_of((#[trigger] u.points@[i])@) is Err,
{
    let m = point_messages(u.points@);
    lemma_points_are(m, k);
    if r is Err {
        let i = lemma_bad_point(m);
        assert(m[i] == u.points@[i]@);
    } else {
        let v = r->Ok_0;
        assert(v@.points.len() == v.points@.len());
        assert forall|i: int| 0 <= i < u.points@.len() implies point_of((#[trigger] u.points@[i])@)
            is Ok by {
            lemma_points_are(m, i);
            assert(m[i] == u.points@[i]@);
        }
        if 0 <= k < u.points@.len() {
            assert(m[k] == u.points@[k]@);
            assert(v@.points[k] == v.points@[k]@);
        }
    }
}

/// The points that messages describe.
proof fn lemma_points_are(m: Seq<PointMessage>, k: int)
    ensures
        points_of(m) matches Ok(points) ==> {
            &&& points.len() == m.len()
            &&& 0 <= k < m.len() ==> point_of(m[k]) == Ok::<PointView, StatusView>(points[k])
        },
    decreases m.len(),
{
    if m.len() > 0 {
        lemma_points_are(m.drop_last(), k);
        if 0 <= k < m.len() - 1 {
            assert(m.drop_last()[k] == m[k]);
        }
    }
}

/// A message that describes no point, where there is one.
proof fn lemma_bad_point(m: Seq<PointMessage>) -> (i: int)
    requires
        points_of(m) is Err,
    ensures
        0 <= i < m.len(),
        point_of(m[i]) is Err,
    decreases m.len(),
{
    let front = m.drop_last();
    if points_of(front) is Err {
        let i = lemma_bad_point(front);
        assert(front[i] == m[i]);
        i
    } else {
        m.len() - 1
    }
}

/// Every user is read, in order; they are refused together exactly where one of
/// them is.
pub proof fn law_users_are_read_in_order(
    messages: Vec<VfsUser>,
    r: Result<Vec<model::VfsUser>, Status>,
    k: int,
)
    requires
        call_ensures(users_from, (messages,), r),
    ensures
        r matches Ok(users) ==> {
            &&& users@.len() == messages@.len()
            &&& 0 <= k < messages@.len() ==> user_of(messages@[k]@) == Ok::<UserView, StatusView>(
                users@[k]@,
            )
        },
        r is Err <==> exists|i: int|
            0 <= i < messages@.len() && user_of((#[trigger] messages@[i])@) is Err,
{
    let m = user_messages(messages@);
    lemma_users_are(m, k);
    if r is Err {
        let i = lemma_bad_user(m);
        assert(m[i] == messages@[i]@);
    } else {
        let users = r->Ok_0;
        assert(model::user_views(users@).len() == users@.len());
        assert forall|i: int| 0 <= i < messages@.len() implies user_of((#[trigger] messages@[i])@)
            is Ok by {
            lemma_users_are(m, i);
            assert(m[i] == messages@[i]@);
        }
        if 0 <= k < messages@.len() {
            assert(m[k] == messages@[k]@);
            assert(model::user_views(users@)[k] == users@[k]@);
        }
    }
}

/// The users that messages describe.
proof fn lemma_users_are(m: Seq<UserMessage>, k: int)
    ensures
        users_of(m) matches Ok(users) ==> {
            &&& users.len() == m.len()
            &&& 0 <= k < m.len() ==> user_of(m[k]) == Ok::<UserView, StatusView>(users[k])
        },
    decreases m.len(),
{
    if m.len() > 0 {
        lemma_users_are(m.drop_last(), k);
        if 0 <= k < m.len() - 1 {
            assert(m.drop_last()[k] == m[k]);
        }
    }
}

/// A message that describes no user, where there is one.
proof fn lemma_bad_user(m: Seq<UserMessage>) -> (i: int)
    requires
        users_of(m) is Err,
    ensures
        0 <= i < m.len(),
        user_of(m[i]) is Err,
    decreases m.len(),
{
    let front = m.drop_last();
    if users_of(front) is Err {
        let i = lemma_bad_user(front);
        assert(front[i] == m[i]);
        i
    } else {
        m.len() - 1
    }
}

/// A user is described by its name, its password and its points, and refused
/// for its points alone.
pub proof fn law_users_are_described_by_their_points(m: UserMessage, k: int)
    ensures
        user_of(m) is Ok <==> forall|i: int|
            0 <= i < m.points.len() ==> point_of(#[trigger] m.points[i]) is Ok,
        user_of(m) matches Ok(u) ==> {
            &&& u.username == m.name
            &&& u.password == m.password
            &&& u.points.len() == m.points.len()
            &&& 0 <= k < m.points.len() ==> point_of(m.points[k]) == Ok::<PointView, StatusView>(
                u.points[k],
            )
        },
{
    lemma_points_are(m.points, k);
    if points_of(m.points) is Err {
        let i = lemma_bad_point(m.points);
        assert(point_of(m.points[i]) is Err);
    } else {
        assert forall|i: int| 0 <= i < m.points.len() implies point_of(#[trigger] m.points[i])
            is Ok by {
            lemma_points_are(m.points, i);
        }
    }
}

/// What a message says is what its fields say.
pub proof fn law_messages_say_what_they_hold(p: &VfsPoint, u: &VfsUser, k: int)
    ensures
        p@.name == p.name@,
        p@.max_bytes == p.max_bytes,
        p@.can_write == p.can_write,
        p.src is None <==> p@.src is None,
        u@.name == u.name@,
        u@.password == u.password@,
        u@.points.len() == u.points@.len(),
        0 <= k < u.points@.len() ==> u@.points[k] == u.points@[k]@,
{
}

} // verus!
