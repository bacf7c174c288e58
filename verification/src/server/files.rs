//! Requests on files and directories of a user's tree.

use super::jobs::Timestamp;
use crate::error::ErrorKind;
use crate::model::{opt_text, PointView, VfsPoint, VfsUser};
use crate::status::{invalid, Status, StatusView};
use crate::text::{after_last, last_piece, same, trim_end, without_trail};
use crate::utils::{dal_status, data_mount, data_mount_path, data_path, fix_path, fixed, local_root,
    local_root_of, map_dal, require_writable, resolve_data_path, writable};
use vstd::prelude::*;

verus! {

// ── Paths ───────────────────────────────────────────────────────────────────

/// What a [`VfsPath`] says.
#[verifier::ext_equal]
pub enum PathView {
    Unset,
    Virtual(Seq<char>),
    Indexed { point_name: Seq<char>, point_path: Seq<char> },
}

/// A path in a user's tree.
#[derive(Debug)]
pub enum VfsPath {
    /// Nowhere in particular: the empty path.
    Unset,
    /// From the root of the tree.
    Virtual(String),
    /// From the root of a data point.
    Indexed { point_name: String, point_path: String },
}

impl View for VfsPath {
    type V = PathView;

    open spec fn view(&self) -> PathView {
        match *self {
            VfsPath::Unset => PathView::Unset,
            VfsPath::Virtual(p) => PathView::Virtual(p@),
            VfsPath::Indexed { point_name, point_path } => PathView::Indexed {
                point_name: point_name@,
                point_path: point_path@,
            },
        }
    }
}

/// The path from the root of the tree.
pub open spec fn path_text(p: PathView) -> Seq<char> {
    match p {
        PathView::Unset => Seq::empty(),
        PathView::Virtual(path) => path,
        PathView::Indexed { point_name, point_path } => data_mount(point_name) + "/"@ + point_path,
    }
}

impl VfsPath {
    /// The path from the root of the tree.
    pub fn text(&self) -> (r: String)
        ensures
            r@ == path_text(self@),
    {
        match self {
            VfsPath::Unset => String::new(),
            VfsPath::Virtual(path) => path.clone(),
            VfsPath::Indexed { point_name, point_path } => data_mount_path(
                point_name.as_str(),
            ).concat("/").concat(point_path.as_str()),
        }
    }
}

/// A path that a request may have left out.
pub open spec fn given(path: Option<VfsPath>) -> Result<Seq<char>, StatusView> {
    match path {
        Some(p) => Ok(path_text(p@)),
        None => Err(invalid("path is blank"@)),
    }
}

/// The path that a request names, which must be there.
pub fn require_path(path: &Option<VfsPath>) -> (r: Result<String, Status>)
    ensures
        match r {
            Ok(text) => given(*path) == Ok::<Seq<char>, StatusView>(text@),
            Err(e) => given(*path) == Err::<Seq<char>, StatusView>(e@),
        },
{
    match path {
        Some(p) => Ok(p.text()),
        None => Err(Status::invalid_argument("path is blank".to_owned())),
    }
}

/// The path that a request names, in the form that stores take.
pub fn operator_path(path: &Option<VfsPath>, is_dir: bool) -> (r: Result<String, Status>)
    ensures
        match r {
            Ok(text) => given(*path) matches Ok(p) && text@ == fixed(p, is_dir),
            Err(e) => given(*path) == Err::<Seq<char>, StatusView>(e@),
        },
{
    match require_path(path) {
        Ok(text) => Ok(fix_path(text.as_str(), is_dir)),
        Err(e) => Err(e),
    }
}

// ── Opening a file for writing ──────────────────────────────────────────────

/// The data point that a file is opened in for writing, its path there, and
/// the directory of the point where that is on local disk.
pub open spec fn open_of(points: Seq<PointView>, path: Result<Seq<char>, StatusView>) -> Result<
    (PointView, Seq<char>, Option<Seq<char>>),
    StatusView,
> {
    match path {
        Err(e) => Err(e),
        Ok(text) => match data_path(points, text) {
            Err(e) => Err(e),
            Ok((point, rest)) => match writable(point) {
                Err(e) => Err(e),
                Ok(_) => match local_root(point) {
                    Err(e) => Err(e),
                    Ok(root) => Ok((point, rest, root)),
                },
            },
        },
    }
}

/// A file that may be opened for writing.
#[derive(Debug)]
pub struct OpenPlan<'a> {
    pub point: &'a VfsPoint,
    /// The directory of the point, where it is on local disk.
    pub local_root: Option<String>,
    /// Its path in the point, for a point on local disk.
    pub rest: String,
    /// Its path in the user's tree, for any other point.
    pub file_path: String,
}

/// Checks that the file that a request names may be opened for writing.
pub fn open_write<'a>(user: &'a VfsUser, path: &Option<VfsPath>) -> (r: Result<
    OpenPlan<'a>,
    Status,
>)
    ensures
        match r {
            Ok(plan) => {
                &&& open_of(user@.points, given(*path)) == Ok::<
                    (PointView, Seq<char>, Option<Seq<char>>),
                    StatusView,
                >((plan.point@, plan.rest@, opt_text(plan.local_root)))
                &&& given(*path) matches Ok(text) && plan.file_path@ == fixed(text, false)
            },
            Err(e) => open_of(user@.points, given(*path)) == Err::<
                (PointView, Seq<char>, Option<Seq<char>>),
                StatusView,
            >(e@),
        },
{
    let text = match require_path(path) {
        Ok(t) => t,
        Err(e) => {
            return Err(e);
        },
    };
    let (point, rest) = match resolve_data_path(user, text.as_str()) {
        Ok(found) => found,
        Err(e) => {
            return Err(e);
        },
    };
    match require_writable(point) {
        Ok(_) => {},
        Err(e) => {
            return Err(e);
        },
    }
    match local_root_of(point) {
        Ok(local_root) => Ok(
            OpenPlan { point, local_root, rest, file_path: fix_path(text.as_str(), false) },
        ),
        Err(e) => Err(e),
    }
}

// ── Reading and writing whole files ─────────────────────────────────────────

/// The range to read, `None` for the whole file, which a length of zero asks
/// for.
pub fn read_range(offset: u64, length: u64) -> (r: Option<(u64, u64)>)
    requires
        length != 0 ==> offset + length <= u64::MAX,
    ensures
        match r {
            Some((from, to)) => length != 0 && from == offset && to == offset + length,
            None => length == 0,
        },
{
    if length == 0 {
        None
    } else {
        Some((offset, offset + length))
    }
}

/// `body` with `data` written over it from `offset` on; zeros fill a gap.
pub open spec fn spliced(body: Seq<u8>, offset: int, data: Seq<u8>) -> Seq<u8> {
    let end = offset + data.len();
    Seq::new(
        if body.len() < end {
            end as nat
        } else {
            body.len()
        },
        |i: int|
            if offset <= i < end {
                data[i - offset]
            } else if i < body.len() {
                body[i]
            } else {
                0
            },
    )
}

/// Whether a write at `offset` replaces the whole file, so that what it held
/// need not be read first.
pub fn replaces(offset: u64) -> (r: bool)
    ensures
        r == (offset == 0),
{
    offset == 0
}

/// Writes `data` over `body` from `offset` on. The file grows as needed, and
/// zeros fill a gap.
pub fn splice(body: Vec<u8>, offset: usize, data: &Vec<u8>) -> (r: Vec<u8>)
    requires
        offset + data@.len() <= usize::MAX,
    ensures
        r@ == spliced(body@, offset as int, data@),
{
    let ghost before = body@;
    let mut out = body;
    let end = offset + data.len();
    while out.len() < end
        invariant
            out@.len() >= before.len(),
            out@.len() <= end || out@.len() == before.len(),
            forall|i: int| 0 <= i < before.len() ==> #[trigger] out@[i] == before[i],
            forall|i: int| before.len() <= i < out@.len() ==> #[trigger] out@[i] == 0,
        decreases end - out@.len(),
    {
        out.push(0);
    }
    let mut k: usize = 0;
    let ghost filled = out@;
    while k < data.len()
        invariant
            k <= data@.len(),
            end == offset + data@.len(),
            end <= out@.len(),
            out@.len() == filled.len(),
            forall|i: int|
                0 <= i < out@.len() ==> #[trigger] out@[i] == if offset <= i < offset + k {
                    data@[i - offset]
                } else {
                    filled[i]
                },
        decreases data@.len() - k,
    {
        let b = data[k];
        out.set(offset + k, b);
        k += 1;
    }
    assert(out@ =~= spliced(before, offset as int, data@));
    out
}

/// What a file holds once `data` is written at `offset`: nothing else where it
/// is written from the start, and else what it held around `data`.
pub open spec fn rewritten(body: Seq<u8>, offset: int, data: Seq<u8>) -> Seq<u8> {
    if offset == 0 {
        data
    } else {
        spliced(body, offset, data)
    }
}

/// What to store for a write of `data` at `offset` to a file that holds `body`,
/// which does not matter where the write [`replaces`] the file.
pub fn write_vfs(body: Vec<u8>, offset: usize, data: Vec<u8>) -> (r: Vec<u8>)
    requires
        offset + data@.len() <= usize::MAX,
    ensures
        r@ == rewritten(body@, offset as int, data@),
{
    if replaces(offset as u64) {
        data
    } else {
        splice(body, offset, &data)
    }
}

// ── Looking up ──────────────────────────────────────────────────────────────

/// The name that a path is shown with.
pub open spec fn shown_name(path: Seq<char>) -> Seq<char> {
    after_last(trim_end(path, '/'), '/')
}

/// The last part of a path, without slashes behind it.
pub fn node_name(path: &str) -> (r: String)
    ensures
        r@ == shown_name(path@),
{
    last_piece(without_trail(path, '/').as_str(), '/')
}

/// A file or directory.
#[derive(Debug)]
pub struct VfsNode {
    pub name: String,
    pub is_dir: bool,
    pub bytes: u64,
    pub mtime: Option<Timestamp>,
}

/// What is reported for the entry at `path`.
pub fn entry_to_node(path: &str, is_dir: bool, bytes: u64, mtime: Option<Timestamp>) -> (r: VfsNode)
    ensures
        r.name@ == shown_name(path@),
        r.is_dir == is_dir,
        r.bytes == bytes,
        r.mtime == mtime,
{
    VfsNode { name: node_name(path), is_dir, bytes, mtime }
}

/// What a store said of a path.
#[derive(Debug)]
pub enum Stat<M> {
    Found(M),
    Failed { kind: ErrorKind, text: String },
}

/// What follows once a store was asked for a path as a file.
#[derive(Debug)]
pub enum Probe<M> {
    /// It is there.
    Found(M),
    /// Ask for the path as a directory.
    TryDirectory { path: String },
    /// The store failed.
    Fail(Status),
}

/// Whether a path names a file or a directory is not known beforehand: it is
/// asked for as a file first, and as a directory where there is no such file.
pub fn probe_file<M>(file_path: &str, found: Stat<M>) -> (r: Probe<M>)
    ensures
        match found {
            Stat::Found(m) => r == Probe::Found(m),
            Stat::Failed { kind, text } => if kind == ErrorKind::NotFound {
                r matches Probe::TryDirectory { path } && path@ == fixed(file_path@, true)
            } else {
                r matches Probe::Fail(s) && s@ == dal_status(kind, text@)
            },
        },
{
    match found {
        Stat::Found(m) => Probe::Found(m),
        Stat::Failed { kind, text } => {
            if kind == ErrorKind::NotFound {
                Probe::TryDirectory { path: fix_path(file_path, true) }
            } else {
                Probe::Fail(map_dal(kind, text))
            }
        },
    }
}

/// The answer to a request for a path once it was asked for as a directory.
pub fn stat_directory<M>(found: Stat<M>) -> (r: Result<M, Status>)
    ensures
        match found {
            Stat::Found(m) => r == Ok::<M, Status>(m),
            Stat::Failed { kind, text } => r matches Err(s) && s@ == dal_status(kind, text@),
        },
{
    match found {
        Stat::Found(m) => Ok(m),
        Stat::Failed { kind, text } => Err(map_dal(kind, text)),
    }
}

/// Whether a path exists, once it was asked for as a directory.
pub fn directory_exists<M>(found: Stat<M>) -> (r: Result<bool, Status>)
    ensures
        match found {
            Stat::Found(_) => r == Ok::<bool, Status>(true),
            Stat::Failed { kind, text } => if kind == ErrorKind::NotFound {
                r == Ok::<bool, Status>(false)
            } else {
                r matches Err(s) && s@ == dal_status(kind, text@)
            },
        },
{
    match found {
        Stat::Found(_) => Ok(true),
        Stat::Failed { kind, text } => {
            if kind == ErrorKind::NotFound {
                Ok(false)
            } else {
                Err(map_dal(kind, text))
            }
        },
    }
}

// ── Transfers ───────────────────────────────────────────────────────────────

/// What identifies a store.
#[derive(Debug)]
pub struct BackendInfo {
    pub scheme: String,
    pub root: String,
    pub name: String,
}

/// Whether two stores are the same, as far as can be told.
pub open spec fn same_store(a: BackendInfo, b: BackendInfo) -> bool {
    a.scheme@ == b.scheme@ && a.root@ == b.root@ && a.name@ == b.name@
}

/// How a file is copied or moved.
#[derive(Clone, Copy, Debug, PartialEq, Eq, Structural)]
pub enum TransferPlan {
    /// The store copies it.
    Copy,
    /// The store renames it.
    Rename,
    /// It is read from one store and written to the other, and then deleted
    /// where it is moved.
    Stream { delete_source: bool },
}

/// How a file goes from the store `src` to the store `dst`.
pub fn transfer(src: &BackendInfo, dst: &BackendInfo, copy: bool) -> (r: TransferPlan)
    ensures
        r == if same_store(*src, *dst) {
            if copy {
                TransferPlan::Copy
            } else {
                TransferPlan::Rename
            }
        } else {
            TransferPlan::Stream { delete_source: !copy }
        },
{
    let same_backend = same(src.scheme.as_str(), dst.scheme.as_str()) && same(
        src.root.as_str(),
        dst.root.as_str(),
    ) && same(src.name.as_str(), dst.name.as_str());
    if same_backend {
        if copy {
            TransferPlan::Copy
        } else {
            TransferPlan::Rename
        }
    } else {
        TransferPlan::Stream { delete_source: !copy }
    }
}

/// What is done next while a file is copied or moved.
#[derive(Clone, Copy, Debug, PartialEq, Eq, Structural)]
pub enum TransferStep {
    /// Let the store copy the file.
    Copy,
    /// Let the store rename the file.
    Rename,
    /// Read the file from its store.
    Read,
    /// Check that there is room for it where it goes.
    CheckRoom,
    /// Write it to the other store.
    Write,
    /// Delete it from the store that it was read from.
    DeleteSource,
    /// The file is where it should be.
    Done,
    /// The last step failed, and nothing more is done.
    Fail,
}

/// What is done first.
pub open spec fn start_of(plan: TransferPlan) -> TransferStep {
    match plan {
        TransferPlan::Copy => TransferStep::Copy,
        TransferPlan::Rename => TransferStep::Rename,
        TransferPlan::Stream { .. } => TransferStep::Read,
    }
}

/// What follows a step that succeeded.
pub open spec fn step_after(plan: TransferPlan, step: TransferStep) -> TransferStep {
    match step {
        TransferStep::Read => TransferStep::CheckRoom,
        TransferStep::CheckRoom => TransferStep::Write,
        TransferStep::Write => if plan == (TransferPlan::Stream { delete_source: true }) {
            TransferStep::DeleteSource
        } else {
            TransferStep::Done
        },
        TransferStep::Fail => TransferStep::Fail,
        _ => TransferStep::Done,
    }
}

/// What is done first to carry out `plan`.
pub fn start_transfer(plan: TransferPlan) -> (r: TransferStep)
    ensures
        r == start_of(plan),
{
    match plan {
        TransferPlan::Copy => TransferStep::Copy,
        TransferPlan::Rename => TransferStep::Rename,
        TransferPlan::Stream { .. } => TransferStep::Read,
    }
}

/// What follows a step that succeeded or failed. The first failure ends it.
pub fn after_step(plan: TransferPlan, step: TransferStep, succeeded: bool) -> (r: TransferStep)
    ensures
        r == if succeeded {
            step_after(plan, step)
        } else {
            TransferStep::Fail
        },
{
    if !succeeded {
        return TransferStep::Fail;
    }
    match step {
        TransferStep::Read => TransferStep::CheckRoom,
        TransferStep::CheckRoom => TransferStep::Write,
        TransferStep::Write => match plan {
            TransferPlan::Stream { delete_source } => {
                if delete_source {
                    TransferStep::DeleteSource
                } else {
                    TransferStep::Done
                }
            },
            _ => TransferStep::Done,
        },
        TransferStep::Fail => TransferStep::Fail,
        _ => TransferStep::Done,
    }
}

/// The data point on local disk that a streamed file lands in, its directory,
/// and the path of the file there; `None` where the destination is no such
/// point, and nothing has to be measured.
pub open spec fn room_of(points: Seq<PointView>, path: Seq<char>) -> Result<
    Option<(PointView, Seq<char>, Seq<char>)>,
    StatusView,
> {
    match data_path(points, path) {
        Err(_) => Ok(None),
        Ok((point, rest)) => match local_root(point) {
            Err(e) => Err(e),
            Ok(None) => Ok(None),
            Ok(Some(root)) => Ok(Some((point, root, rest))),
        },
    }
}

/// A file on local disk.
#[derive(Debug)]
pub struct LocalFile<'a> {
    pub point: &'a VfsPoint,
    /// The directory of the point.
    pub root: String,
    /// The path of the file in it.
    pub rest: String,
}

/// Where a streamed file lands on local disk, if it does.
pub fn transfer_point<'a>(user: &'a VfsUser, dst_path: &str) -> (r: Result<
    Option<LocalFile<'a>>,
    Status,
>)
    ensures
        match r {
            Ok(Some(file)) => room_of(user@.points, dst_path@) == Ok::<
                Option<(PointView, Seq<char>, Seq<char>)>,
                StatusView,
            >(Some((file.point@, file.root@, file.rest@))),
            Ok(None) => room_of(user@.points, dst_path@) == Ok::<
                Option<(PointView, Seq<char>, Seq<char>)>,
                StatusView,
            >(None),
            Err(e) => room_of(user@.points, dst_path@) == Err::<
                Option<(PointView, Seq<char>, Seq<char>)>,
                StatusView,
            >(e@),
        },
{
    let (point, rest) = match resolve_data_path(user, dst_path) {
        Ok(found) => found,
        Err(_) => {
            return Ok(None);
        },
    };
    match local_root_of(point) {
        Ok(Some(root)) => Ok(Some(LocalFile { point, root, rest })),
        Ok(None) => Ok(None),
        Err(e) => Err(e),
    }
}

// ── Laws ────────────────────────────────────────────────────────────────────

/// What was written is read back: the range that was written holds what was
/// written. What a file held outside of it stays, unless it was written from
/// the start, and a gap before it holds zeros.
pub proof fn law_write_is_read_back(body: Seq<u8>, offset: int, data: Seq<u8>)
    requires
        0 <= offset,
    ensures
        rewritten(body, offset, data).len() >= offset + data.len(),
        rewritten(body, offset, data).subrange(offset, offset + data.len()) == data,
        offset != 0 ==> {
            &&& forall|i: int|
                0 <= i < body.len() && !(offset <= i < offset + data.len())
                    ==> #[trigger] rewritten(body, offset, data)[i] == body[i]
            &&& forall|i: int|
                body.len() <= i < offset ==> #[trigger] rewritten(body, offset, data)[i] == 0
        },
{
    assert(rewritten(body, offset, data).subrange(offset, offset + data.len()) =~= data);
}

/// A path given from the root of a data point and the same path given from the
/// root of the tree lead to the same place.
pub proof fn law_indexed_path_resolves(
    points: Seq<PointView>,
    name: Seq<char>,
    rest: Seq<char>,
)
    requires
        name.len() > 0,
        !name.contains('/'),
        crate::utils::data_point(points, name) is Ok,
    ensures
        data_path(
            points,
            path_text(PathView::Indexed { point_name: name, point_path: rest }),
        ) matches Ok(found) && found.1 == rest && found.0.name == name,
{
    crate::utils::law_data_path_resolves(points, name, rest);
    lemma_found_name(points, name);
}

/// A point is found under its own name.
proof fn lemma_found_name(points: Seq<PointView>, name: Seq<char>)
    ensures
        crate::utils::found(points, name) matches Ok(p) ==> p.name == name,
    decreases points.len(),
{
    if points.len() > 0 && points[0].name != name {
        lemma_found_name(points.skip(1), name);
    }
}

/// A file is never opened for writing in a point that is read-only.
pub proof fn law_read_only_point_is_never_opened(
    points: Seq<PointView>,
    path: Result<Seq<char>, StatusView>,
)
    ensures
        open_of(points, path) matches Ok(found) ==> !found.0.read_only && !found.0.is_repo,
{
    if open_of(points, path) is Ok {
        let text = path->Ok_0;
        let inner = crate::text::trim_start(text, '/');
        let named = match crate::text::tail(inner, '/') {
            Some(t) => t,
            None => Seq::empty(),
        };
        assert(crate::utils::data_point(points, crate::text::head(named, '/')) is Ok);
    }
}

/// A file is deleted from where it was only once it was written to where it
/// goes, and only where it is moved: whatever fails before that leaves it there.
pub proof fn law_source_outlives_a_failed_transfer(
    plan: TransferPlan,
    step: TransferStep,
    succeeded: bool,
)
    ensures
        start_of(plan) != TransferStep::DeleteSource,
        ({
            let next = if succeeded {
                step_after(plan, step)
            } else {
                TransferStep::Fail
            };
            next == TransferStep::DeleteSource <==> {
                &&& succeeded
                &&& step == TransferStep::Write
                &&& plan == (TransferPlan::Stream { delete_source: true })
            }
        }),
{
}

/// Where nothing fails, every transfer ends with the file in place: the store
/// does it in one step, or it is read, checked, written, and where it is moved
/// deleted, in this order.
pub proof fn law_transfer_ends(plan: TransferPlan)
    ensures
        match plan {
            TransferPlan::Stream { delete_source } => {
                let write = step_after(plan, step_after(plan, start_of(plan)));
                &&& write == TransferStep::Write
                &&& if delete_source {
                    step_after(plan, step_after(plan, write)) == TransferStep::Done
                } else {
                    step_after(plan, write) == TransferStep::Done
                }
            },
            _ => step_after(plan, start_of(plan)) == TransferStep::Done,
        },
{
}

/// A store copies or renames a file itself only where it is the store that the
/// file is in: two stores that differ in scheme, root or name have the file
/// read from one and written to the other. Only a move takes the file away.
pub proof fn law_files_reach_the_other_store(
    src: &BackendInfo,
    dst: &BackendInfo,
    copy: bool,
    r: TransferPlan,
)
    requires
        call_ensures(transfer, (src, dst, copy), r),
    ensures
        src.scheme@ != dst.scheme@ ==> r == (TransferPlan::Stream { delete_source: !copy }),
        src.root@ != dst.root@ ==> r == (TransferPlan::Stream { delete_source: !copy }),
        src.name@ != dst.name@ ==> r == (TransferPlan::Stream { delete_source: !copy }),
        src.scheme@ == dst.scheme@ && src.root@ == dst.root@ && src.name@ == dst.name@ ==> (r
            == TransferPlan::Copy <==> copy) && (r == TransferPlan::Rename <==> !copy),
{
}

/// Each step of a transfer follows one other step, and only where that
/// succeeded. The first failure ends it, and nothing follows a failure.
pub proof fn law_transfer_steps_follow_in_order(
    plan: TransferPlan,
    start: TransferStep,
    step: TransferStep,
    succeeded: bool,
    r: TransferStep,
)
    requires
        call_ensures(start_transfer, (plan,), start),
        call_ensures(after_step, (plan, step, succeeded), r),
    ensures
        start == TransferStep::Copy <==> plan == TransferPlan::Copy,
        start == TransferStep::Rename <==> plan == TransferPlan::Rename,
        start == TransferStep::Read <==> plan is Stream,
        !succeeded || step == TransferStep::Fail <==> r == TransferStep::Fail,
        r == TransferStep::CheckRoom <==> succeeded && step == TransferStep::Read,
        r == TransferStep::Write <==> succeeded && step == TransferStep::CheckRoom,
        r == TransferStep::DeleteSource <==> succeeded && step == TransferStep::Write && plan == (
        TransferPlan::Stream { delete_source: true }),
        r != TransferStep::Copy && r != TransferStep::Rename && r != TransferStep::Read,
{
}

/// A path that a request gives is taken as it is, or from the root of the data
/// point that it names; a request without a path is refused.
pub proof fn law_paths_are_taken_as_given(path: &Option<VfsPath>, r: Result<String, Status>)
    requires
        call_ensures(require_path, (path,), r),
    ensures
        match *path {
            Some(VfsPath::Unset) => r matches Ok(t) && t@ == Seq::<char>::empty(),
            Some(VfsPath::Virtual(p)) => r matches Ok(t) && t@ == p@,
            Some(VfsPath::Indexed { point_name, point_path }) => r matches Ok(t) && t@
                == "/points/"@ + point_name@ + "/"@ + point_path@,
            None => r matches Err(e) && e.code == crate::status::Code::InvalidArgument && e.message@
                == "path is blank"@,
        },
{
}

/// A store is handed the path of a request, fixed as the path of a file or of a
/// directory.
pub proof fn law_stores_are_handed_fixed_paths(
    path: &Option<VfsPath>,
    is_dir: bool,
    text: Result<String, Status>,
    r: Result<String, Status>,
)
    requires
        call_ensures(require_path, (path,), text),
        call_ensures(operator_path, (path, is_dir), r),
    ensures
        text is Ok <==> r is Ok,
        text matches Ok(t) ==> (r matches Ok(p) && p@ == fixed(t@, is_dir)),
        text matches Err(e) ==> (r matches Err(f) && f@ == e@),
{
}

/// A file is opened for writing in the data point that its path names, at the
/// rest of the path, in the directory of the point where that is on local disk.
/// This fails only where no such point is found, or it is read-only, or is on
/// local disk and names no directory.
pub proof fn law_files_are_opened_where_their_path_leads<'a>(
    user: &'a VfsUser,
    path: &Option<VfsPath>,
    r: Result<OpenPlan<'a>, Status>,
    given_path: String,
    text: &str,
    at: Result<(&'a VfsPoint, String), Status>,
)
    requires
        call_ensures(open_write, (user, path), r),
        call_ensures(require_path, (path,), Ok(given_path)),
        text@ == given_path@,
        call_ensures(resolve_data_path, (user, text), at),
    ensures
        r matches Ok(plan) ==> {
            &&& at matches Ok((p, rest)) && plan.point@ == p@ && plan.rest@ == rest@
            &&& !plan.point.read_only
            &&& !plan.point.is_repo
            &&& plan.file_path@ == fixed(text@, false)
            &&& plan.local_root is Some <==> plan.point.scheme@ == seq!['f', 's']
            &&& plan.local_root matches Some(root) ==> plan.point@.config.contains_key("root"@)
                && root@ == plan.point@.config["root"@]
        },
        at matches Ok((p, _)) ==> (r is Ok <==> !p.read_only && (p.scheme@ == seq!['f', 's']
            ==> p@.config.contains_key("root"@))),
        at matches Ok((p, _)) ==> p.read_only ==> (r matches Err(e) && e.code
            == crate::status::Code::PermissionDenied),
        at matches Err(e) ==> (r matches Err(f) && f@ == e@),
{
    reveal_strlit("fs");
    assert("fs"@ =~= seq!['f', 's']);
    law_read_only_point_is_never_opened(user@.points, given(*path));
}

/// A transfer is measured where its file lands on local disk: in the directory
/// of the point that the path names, and nowhere else. No other path is
/// refused.
pub proof fn law_transfers_are_measured_where_they_land<'a>(
    user: &'a VfsUser,
    path: &str,
    r: Result<Option<LocalFile<'a>>, Status>,
    at: Result<(&'a VfsPoint, String), Status>,
)
    requires
        call_ensures(transfer_point, (user, path), r),
        call_ensures(resolve_data_path, (user, path), at),
    ensures
        at is Err ==> r matches Ok(None),
        at matches Ok((p, _)) ==> p.scheme@ != seq!['f', 's'] ==> r matches Ok(None),
        at matches Ok((p, rest)) ==> p.scheme@ == seq!['f', 's'] ==> {
            if p@.config.contains_key("root"@) {
                &&& r matches Ok(Some(file)) && file.point@ == p@ && file.root@
                    == p@.config["root"@] && file.rest@ == rest@
            } else {
                r matches Err(e) && e.code == crate::status::Code::InvalidArgument
            }
        },
{
    reveal_strlit("fs");
    assert("fs"@ =~= seq!['f', 's']);
}

/// A read of no length is of the whole file; any other asks for as many bytes
/// as were asked for, from where they were asked for.
pub proof fn law_ranges_are_as_long_as_asked(offset: u64, length: u64, r: Option<(u64, u64)>)
    requires
        call_ensures(read_range, (offset, length), r),
    ensures
        r is None <==> length == 0,
        r matches Some((from, to)) ==> from == offset && to - from == length,
{
}

/// What is written from the start is the whole file. What is written further
/// on is in the file where it was written; what the file held before and behind
/// it stays; a gap holds zeros; and the file is no longer than that.
pub proof fn law_files_hold_what_was_written(
    body: Vec<u8>,
    offset: usize,
    data: Vec<u8>,
    r: Vec<u8>,
    whole: bool,
)
    requires
        call_ensures(write_vfs, (body, offset, data), r),
        call_ensures(replaces, (offset as u64,), whole),
    ensures
        whole == (offset as u64 == 0),
        offset == 0 ==> r@ == data@,
        offset > 0 ==> {
            &&& r@.len() == if body@.len() > offset + data@.len() {
                body@.len() as int
            } else {
                offset + data@.len()
            }
            &&& forall|i: int| 0 <= i < data@.len() ==> #[trigger] data@[i] == r@[offset + i]
            &&& forall|i: int|
                0 <= i < body@.len() && (i < offset || i >= offset + data@.len())
                    ==> #[trigger] r@[i] == body@[i]
            &&& forall|i: int| body@.len() <= i < offset ==> #[trigger] r@[i] == 0
        },
{
}

/// Data is written over a file in place, whatever the offset.
pub proof fn law_splices_keep_the_rest(body: Vec<u8>, offset: usize, data: &Vec<u8>, r: Vec<u8>)
    requires
        call_ensures(splice, (body, offset, data), r),
    ensures
        r@.len() == if body@.len() > offset + data@.len() {
            body@.len() as int
        } else {
            offset + data@.len()
        },
        r@.subrange(offset as int, offset + data@.len()) == data@,
        forall|i: int|
            0 <= i < body@.len() && (i < offset || i >= offset + data@.len()) ==> #[trigger] r@[i]
                == body@[i],
        forall|i: int| body@.len() <= i < offset ==> #[trigger] r@[i] == 0,
{
    assert(r@.subrange(offset as int, offset + data@.len()) =~= data@);
}

/// An entry is shown with the last part of its path, however many slashes
/// follow it, and with what is known of it.
pub proof fn law_entries_are_shown_by_their_name(
    path: &str,
    is_dir: bool,
    bytes: u64,
    mtime: Option<Timestamp>,
    r: VfsNode,
    front: Option<Seq<char>>,
    name: Seq<char>,
    slashes: nat,
)
    requires
        call_ensures(entry_to_node, (path, is_dir, bytes, mtime), r),
        !name.contains('/'),
        name.len() > 0 || front is None,
        path@ == match front {
            Some(dir) => dir + seq!['/'],
            None => Seq::empty(),
        } + name + Seq::new(slashes, |i: int| '/'),
    ensures
        r.name@ == name,
        r.is_dir == is_dir,
        r.bytes == bytes,
        r.mtime == mtime,
{
    assert forall|i: int| 0 <= i < name.len() implies name[i] != '/' by {
        assert(name.contains(name[i]));
    }
    let inner = match front {
        Some(dir) => dir + seq!['/'],
        None => Seq::empty(),
    } + name;
    if name.len() > 0 {
        assert(inner.last() == name.last());
    }
    crate::text::lemma_trail(path@, '/', slashes as int);
    assert(trim_end(path@, '/') =~= inner);
    match front {
        Some(dir) => {
            assert(inner =~= dir.push('/') + name);
            crate::text::law_last_piece_follows_the_last(dir, name, '/');
        },
        None => {
            assert(inner =~= name);
            crate::text::law_last_piece_follows_the_last(Seq::empty(), name, '/');
        },
    }
}

/// A path is there where its store knows it as a file or as a directory, is not
/// there where the store knows it as neither, and every other failure is
/// reported.
pub proof fn law_paths_exist_as_file_or_directory<M>(
    path: &str,
    file: Stat<M>,
    dir: Stat<M>,
    probe: Probe<M>,
    stat: Result<M, Status>,
    exists_as_dir: Result<bool, Status>,
)
    requires
        call_ensures(probe_file::<M>, (path, file), probe),
        call_ensures(stat_directory::<M>, (dir,), stat),
        call_ensures(directory_exists::<M>, (dir,), exists_as_dir),
    ensures
        file matches Stat::Found(m) ==> probe == Probe::Found(m),
        probe is TryDirectory <==> (file matches Stat::Failed { kind, .. } && kind
            == ErrorKind::NotFound),
        probe matches Probe::TryDirectory { path: p } ==> p@ == fixed(path@, true),
        probe matches Probe::Fail(s) ==> (file matches Stat::Failed { text, .. } && s.message@
            == text@ && s.code != crate::status::Code::NotFound),
        dir matches Stat::Found(m) ==> stat == Ok::<M, Status>(m) && exists_as_dir == Ok::<
            bool,
            Status,
        >(true),
        dir matches Stat::Failed { kind, text } ==> {
            &&& stat matches Err(s) && s.message@ == text@ && (s.code
                == crate::status::Code::NotFound <==> kind == ErrorKind::NotFound)
            &&& kind == ErrorKind::NotFound <==> exists_as_dir == Ok::<bool, Status>(false)
            &&& kind != ErrorKind::NotFound ==> (exists_as_dir matches Err(s) && s.message@
                == text@)
        },
{
}

} // verus!
