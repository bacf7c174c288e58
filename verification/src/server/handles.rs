//! Files that are open for writing.
//!
//! A file on local disk can be written anywhere; its size is checked against
//! the limit of its point before each write. Any other file is written in
//! order, and its limit is kept by the store.

use super::ids::{fresh_id, handle_id, id_text, is_drawn, parse_handle_id, parsed_uuid, stands_for,
    uuid_text};
use crate::model::{PointView, VfsPoint};
use crate::status::{exhausted, invalid, missing, Status, StatusView};
use crate::text::{decimal, to_decimal};
use dashmap::DashMap;
use vstd::prelude::*;

verus! {

/// A file that is open for writing.
#[derive(Clone, Copy, Debug, PartialEq, Eq, Structural)]
pub struct WriteHandle {
    /// Whether it is on local disk.
    pub local: bool,
    /// Its length so far.
    pub len: u64,
    /// The limit of its point, where it is checked here.
    pub max_bytes: Option<u64>,
    /// What its point held when it was opened.
    pub baseline_bytes: u64,
}

impl WriteHandle {
    /// Whether the file fits into its point, where that is checked here: for
    /// local files only.
    pub open spec fn fits(self) -> bool {
        self.max_bytes matches Some(max) ==> self.local && self.baseline_bytes + self.len <= max
    }

    /// The length of the file once `n` bytes are written at `offset`.
    pub open spec fn len_after(self, offset: u64, n: u64) -> int {
        if self.len > offset + n {
            self.len as int
        } else {
            offset + n
        }
    }

    /// The file once `n` bytes are written at `offset`.
    pub open spec fn after(self, offset: u64, n: u64) -> Self {
        WriteHandle { len: self.len_after(offset, n) as u64, ..self }
    }
}

// ── Trusted items ───────────────────────────────────────────────────────────

/// A map of the `dashmap` crate.
#[verifier::external_type_specification]
#[verifier::external_body]
#[verifier::reject_recursive_types(K)]
#[verifier::reject_recursive_types(V)]
#[verifier::reject_recursive_types(S)]
pub struct ExDashMap<K, V, S>(dashmap::DashMap<K, V, S>);

/// The files that a map holds, by identifier.
pub uninterp spec fn handles_in(m: DashMap<u128, WriteHandle>) -> Map<u128, WriteHandle>;

/// Calls `dashmap::DashMap::new`. Claimed of it: the map is empty.
#[verifier::external_body]
fn no_handles() -> (r: DashMap<u128, WriteHandle>)
    ensures
        handles_in(r).dom() == Set::<u128>::empty(),
{
    DashMap::new()
}

/// Calls `dashmap::DashMap::insert`. Claimed of it: the map holds the file
/// under `id`, in place of any other, and is otherwise unchanged.
#[verifier::external_body]
fn put_handle(m: &mut DashMap<u128, WriteHandle>, id: u128, handle: WriteHandle)
    ensures
        handles_in(*final(m)) == handles_in(*old(m)).insert(id, handle),
{
    m.insert(id, handle);
}

/// Calls `dashmap::DashMap::get`. Claimed of it: it gives what the map holds
/// under `id`.
#[verifier::external_body]
fn get_handle(m: &DashMap<u128, WriteHandle>, id: u128) -> (r: Option<WriteHandle>)
    ensures
        match r {
            Some(h) => handles_in(*m).contains_key(id) && h == handles_in(*m)[id],
            None => !handles_in(*m).contains_key(id),
        },
{
    m.get(&id).map(|h| *h.value())
}

/// Calls `dashmap::DashMap::remove`. Claimed of it: it gives what the map held
/// under `id` and takes it out; the map is otherwise unchanged.
#[verifier::external_body]
fn take_handle(m: &mut DashMap<u128, WriteHandle>, id: u128) -> (r: Option<WriteHandle>)
    ensures
        handles_in(*final(m)) == handles_in(*old(m)).remove(id),
        match r {
            Some(h) => handles_in(*old(m)).contains_key(id) && h == handles_in(*old(m))[id],
            None => !handles_in(*old(m)).contains_key(id),
        },
{
    m.remove(&id).map(|(_, h)| h)
}

// ── Handles ─────────────────────────────────────────────────────────────────

/// The files that are open for writing.
pub struct WriteHandles {
    rows: DashMap<u128, WriteHandle>,
}

impl View for WriteHandles {
    type V = Map<u128, WriteHandle>;

    closed spec fn view(&self) -> Map<u128, WriteHandle> {
        handles_in(self.rows)
    }
}

/// Whether every file fits into its point.
pub open spec fn all_fit(handles: Map<u128, WriteHandle>) -> bool {
    forall|id: u128| #[trigger] handles.contains_key(id) ==> handles[id].fits()
}

/// Whether a local file of `point` may be opened while the point holds
/// `baseline` bytes.
pub open spec fn opened(point: PointView, baseline: u64) -> Result<WriteHandle, StatusView> {
    match point.max_bytes {
        Some(max) if baseline > max => Err(
            exhausted(
                "point '"@ + point.name + "' is already over its "@ + decimal(max as nat)
                    + "-byte quota ("@ + decimal(baseline as nat) + " bytes used)"@,
            ),
        ),
        _ => Ok(
            WriteHandle {
                local: true,
                len: 0,
                max_bytes: point.max_bytes,
                baseline_bytes: baseline,
            },
        ),
    }
}

/// Whether `n` bytes may be written at `offset`.
pub open spec fn allowed(h: WriteHandle, offset: u64, n: u64) -> Result<(), StatusView> {
    if h.local {
        let len = h.len_after(offset, n);
        match h.max_bytes {
            Some(max) if h.baseline_bytes + len > max => Err(
                exhausted(
                    "write would exceed point quota ("@ + decimal(h.baseline_bytes as nat) + " + "@
                        + decimal(len as nat) + " > "@ + decimal(max as nat) + " bytes)"@,
                ),
            ),
            _ => Ok(()),
        }
    } else if offset != h.len {
        Err(
            invalid(
                "write_at (random access/seeking) is restricted to local backends. Non-local backends must write sequentially."@,
            ),
        )
    } else {
        Ok(())
    }
}

/// What is answered for a file that is not open.
pub open spec fn no_such_handle() -> StatusView {
    missing("unknown or already-closed write handle"@)
}

/// The answer to a write, for the file that `parsed` names.
pub open spec fn write_outcome(
    handles: Map<u128, WriteHandle>,
    parsed: Result<u128, Seq<char>>,
    offset: u64,
    n: u64,
) -> Result<u128, StatusView> {
    match handle_id(parsed) {
        Err(e) => Err(e),
        Ok(id) => if !handles.contains_key(id) {
            Err(no_such_handle())
        } else {
            match allowed(handles[id], offset, n) {
                Err(e) => Err(e),
                Ok(_) => Ok(id),
            }
        },
    }
}

/// Whether a write of `n` bytes at `offset`, to the file that `parsed` names,
/// ends at a number of 64 bits. This matters only where its end is worked out:
/// for an open file that is on local disk or ends at `offset`.
pub open spec fn ends_in_range(
    handles: Map<u128, WriteHandle>,
    parsed: Result<u128, Seq<char>>,
    offset: u64,
    n: u64,
) -> bool {
    match parsed {
        Ok(id) => handles.contains_key(id) && (handles[id].local || handles[id].len == offset)
            ==> offset + n <= u64::MAX,
        Err(_) => true,
    }
}

/// A write that may go ahead.
#[derive(Clone, Copy, Debug, PartialEq, Eq, Structural)]
pub struct WriteStep {
    pub id: u128,
    /// Whether to write at the offset of a local file, or to append to a store.
    pub local: bool,
}

impl WriteHandles {
    /// No file is open.
    pub fn new() -> (r: Self)
        ensures
            r@ == Map::<u128, WriteHandle>::empty(),
            all_fit(r@),
    {
        let r = WriteHandles { rows: no_handles() };
        assert(r@ =~= Map::empty());
        r
    }

    /// Opens a local file of `point` under `id`, where `baseline` is what the
    /// point holds on disk.
    pub fn open_local_as(&mut self, id: u128, point: &VfsPoint, baseline: u64) -> (r: Result<
        String,
        Status,
    >)
        requires
            all_fit(old(self)@),
        ensures
            all_fit(final(self)@),
            match r {
                Ok(text) => {
                    &&& opened(point@, baseline) matches Ok(h) && final(self)@ == old(self)@.insert(
                        id,
                        h,
                    )
                    &&& text@ == uuid_text(id)
                    &&& stands_for(text@, id)
                },
                Err(e) => {
                    &&& opened(point@, baseline) == Err::<WriteHandle, StatusView>(e@)
                    &&& final(self)@ == old(self)@
                },
            },
    {
        match point.max_bytes {
            Some(max) => {
                if baseline > max {
                    return Err(
                        Status::resource_exhausted(
                            "point '".to_owned().concat(point.name.as_str()).concat(
                                "' is already over its ",
                            ).concat(to_decimal(max as u128).as_str()).concat("-byte quota (").concat(
                                to_decimal(baseline as u128).as_str(),
                            ).concat(" bytes used)"),
                        ),
                    );
                }
            },
            None => {},
        }
        put_handle(
            &mut self.rows,
            id,
            WriteHandle {
                local: true,
                len: 0,
                max_bytes: point.max_bytes,
                baseline_bytes: baseline,
            },
        );
        Ok(id_text(id))
    }

    /// Opens a file that is not on local disk under `id`. Its store keeps the
    /// limit.
    pub fn open_remote_as(&mut self, id: u128) -> (r: String)
        requires
            all_fit(old(self)@),
        ensures
            all_fit(final(self)@),
            r@ == uuid_text(id),
            stands_for(r@, id),
            final(self)@ == old(self)@.insert(
                id,
                (WriteHandle { local: false, len: 0, max_bytes: None, baseline_bytes: 0 }),
            ),
    {
        put_handle(
            &mut self.rows,
            id,
            WriteHandle { local: false, len: 0, max_bytes: None, baseline_bytes: 0 },
        );
        id_text(id)
    }

    /// Opens a local file of `point` under a new identifier, which is returned
    /// with its text.
    pub fn open_local(&mut self, point: &VfsPoint, baseline: u64) -> (r: Result<
        (u128, String),
        Status,
    >)
        requires
            all_fit(old(self)@),
        ensures
            all_fit(final(self)@),
            match r {
                Ok((id, text)) => {
                    &&& is_drawn(id)
                    &&& opened(point@, baseline) matches Ok(h) && final(self)@ == old(self)@.insert(
                        id,
                        h,
                    )
                    &&& text@ == uuid_text(id)
                    &&& stands_for(text@, id)
                },
                Err(e) => {
                    &&& opened(point@, baseline) == Err::<WriteHandle, StatusView>(e@)
                    &&& final(self)@ == old(self)@
                },
            },
    {
        let id = fresh_id();
        match self.open_local_as(id, point, baseline) {
            Ok(text) => Ok((id, text)),
            Err(e) => Err(e),
        }
    }

    /// Opens a file that is not on local disk under a new identifier, which is
    /// returned with its text.
    pub fn open_remote(&mut self) -> (r: (u128, String))
        requires
            all_fit(old(self)@),
        ensures
            all_fit(final(self)@),
            is_drawn(r.0),
            r.1@ == uuid_text(r.0),
            stands_for(r.1@, r.0),
            final(self)@ == old(self)@.insert(
                r.0,
                (WriteHandle { local: false, len: 0, max_bytes: None, baseline_bytes: 0 }),
            ),
    {
        let id = fresh_id();
        let text = self.open_remote_as(id);
        (id, text)
    }

    /// Judges a write of `n` bytes at `offset` to the open file `id`.
    pub fn write_to(&self, id: u128, offset: u64, n: u64) -> (r: Result<WriteStep, Status>)
        requires
            ends_in_range(self@, Ok(id), offset, n),
        ensures
            match r {
                Ok(step) => {
                    &&& write_outcome(self@, Ok(id), offset, n) is Ok
                    &&& step.id == id
                    &&& step.local == self@[id].local
                },
                Err(e) => write_outcome(self@, Ok(id), offset, n) == Err::<u128, StatusView>(e@),
            },
    {
        let handle = match get_handle(&self.rows, id) {
            Some(h) => h,
            None => {
                return Err(
                    Status::not_found("unknown or already-closed write handle".to_owned()),
                );
            },
        };
        if handle.local {
            let end = offset + n;
            let new_len = if handle.len > end {
                handle.len
            } else {
                end
            };
            match handle.max_bytes {
                Some(max) => {
                    if handle.baseline_bytes > u64::MAX - new_len || handle.baseline_bytes + new_len
                        > max {
                        return Err(
                            Status::resource_exhausted(
                                "write would exceed point quota (".to_owned().concat(
                                    to_decimal(handle.baseline_bytes as u128).as_str(),
                                ).concat(" + ").concat(
                                    to_decimal(new_len as u128).as_str(),
                                ).concat(" > ").concat(to_decimal(max as u128).as_str()).concat(
                                    " bytes)",
                                ),
                            ),
                        );
                    }
                },
                None => {},
            }
        } else if offset != handle.len {
            return Err(
                Status::invalid_argument(
                    "write_at (random access/seeking) is restricted to local backends. Non-local backends must write sequentially.".to_owned(),
                ),
            );
        }
        Ok(WriteStep { id, local: handle.local })
    }

    /// Judges a write of `n` bytes at `offset` to the open file that the caller
    /// names.
    pub fn write_at(&self, id: &str, offset: u64, n: u64) -> (r: Result<WriteStep, Status>)
        requires
            ends_in_range(self@, parsed_uuid(id@), offset, n),
        ensures
            match r {
                Ok(step) => {
                    &&& write_outcome(self@, parsed_uuid(id@), offset, n) == Ok::<u128, StatusView>(
                        step.id,
                    )
                    &&& step.local == self@[step.id].local
                },
                Err(e) => write_outcome(self@, parsed_uuid(id@), offset, n) == Err::<
                    u128,
                    StatusView,
                >(e@),
            },
    {
        match parse_handle_id(id) {
            Ok(handle) => self.write_to(handle, offset, n),
            Err(e) => Err(e),
        }
    }

    /// Judges any write as [`write_at`](Self::write_at) does. Gives `None` where
    /// the write would end beyond what 64 bits hold.
    pub fn judge_write(&self, id: &str, offset: u64, n: u64) -> (r: Option<
        Result<WriteStep, Status>,
    >)
        ensures
            match r {
                None => !ends_in_range(self@, parsed_uuid(id@), offset, n),
                Some(Ok(step)) => {
                    &&& ends_in_range(self@, parsed_uuid(id@), offset, n)
                    &&& write_outcome(self@, parsed_uuid(id@), offset, n) == Ok::<u128, StatusView>(
                        step.id,
                    )
                    &&& step.local == self@[step.id].local
                },
                Some(Err(e)) => {
                    &&& ends_in_range(self@, parsed_uuid(id@), offset, n)
                    &&& write_outcome(self@, parsed_uuid(id@), offset, n) == Err::<
                        u128,
                        StatusView,
                    >(e@)
                },
            },
    {
        if offset > u64::MAX - n {
            match parse_handle_id(id) {
                Ok(handle) => match get_handle(&self.rows, handle) {
                    Some(h) => {
                        if h.local || h.len == offset {
                            return None;
                        }
                    },
                    None => {},
                },
                Err(_) => {},
            }
        }
        Some(self.write_at(id, offset, n))
    }

    /// A write of `n` bytes at `offset` that was allowed has reached the file
    /// `id`. Nothing changes if the file was closed meanwhile.
    pub fn wrote_at(&mut self, id: u128, offset: u64, n: u64)
        requires
            all_fit(old(self)@),
            old(self)@.contains_key(id) ==> offset + n <= u64::MAX && allowed(
                old(self)@[id],
                offset,
                n,
            ) is Ok,
        ensures
            all_fit(final(self)@),
            final(self)@ == if old(self)@.contains_key(id) {
                old(self)@.insert(id, old(self)@[id].after(offset, n))
            } else {
                old(self)@
            },
    {
        match get_handle(&self.rows, id) {
            Some(h) => {
                let mut handle = h;
                if handle.len <= offset + n {
                    handle.len = offset + n;
                }
                put_handle(&mut self.rows, id, handle);
            },
            None => {},
        }
    }

    /// Closes the open file `id`: returns what it was.
    pub fn close_id(&mut self, id: u128) -> (r: Result<WriteHandle, Status>)
        requires
            all_fit(old(self)@),
        ensures
            all_fit(final(self)@),
            final(self)@ == old(self)@.remove(id),
            match r {
                Ok(h) => old(self)@.contains_key(id) && h == old(self)@[id],
                Err(e) => !old(self)@.contains_key(id) && e@ == no_such_handle(),
            },
    {
        match take_handle(&mut self.rows, id) {
            Some(h) => Ok(h),
            None => Err(Status::not_found("unknown or already-closed write handle".to_owned())),
        }
    }

    /// Closes the open file that the caller names: returns its identifier and
    /// what it was.
    pub fn close_write(&mut self, id: &str) -> (r: Result<(u128, WriteHandle), Status>)
        requires
            all_fit(old(self)@),
        ensures
            all_fit(final(self)@),
            match handle_id(parsed_uuid(id@)) {
                Err(s) => r matches Err(e) && e@ == s && final(self)@ == old(self)@,
                Ok(id) => {
                    &&& final(self)@ == old(self)@.remove(id)
                    &&& match r {
                        Ok((i, h)) => i == id && old(self)@.contains_key(id) && h
                            == old(self)@[id],
                        Err(e) => !old(self)@.contains_key(id) && e@ == no_such_handle(),
                    }
                },
            },
    {
        match parse_handle_id(id) {
            Ok(handle) => match self.close_id(handle) {
                Ok(h) => Ok((handle, h)),
                Err(e) => Err(e),
            },
            Err(e) => Err(e),
        }
    }
}

// ── Laws ────────────────────────────────────────────────────────────────────

/// The file after writes, each of some bytes at some offset, in order. Writes
/// that are not allowed change nothing.
pub open spec fn after_writes(h: WriteHandle, writes: Seq<(u64, u64)>) -> WriteHandle
    decreases writes.len(),
{
    if writes.len() == 0 {
        h
    } else {
        let before = after_writes(h, writes.drop_last());
        let w = writes.last();
        if allowed(before, w.0, w.1) is Ok {
            before.after(w.0, w.1)
        } else {
            before
        }
    }
}

/// However much is written, and wherever, a file never grows beyond the limit
/// of its point, and never shrinks.
pub proof fn law_writes_stay_within_limit(h: WriteHandle, writes: Seq<(u64, u64)>)
    requires
        h.fits(),
        forall|i: int| 0 <= i < writes.len() ==> #[trigger] writes[i].0 + writes[i].1 <= u64::MAX,
    ensures
        after_writes(h, writes).fits(),
        after_writes(h, writes).len >= h.len,
        after_writes(h, writes).local == h.local,
        after_writes(h, writes).max_bytes == h.max_bytes,
        after_writes(h, writes).baseline_bytes == h.baseline_bytes,
    decreases writes.len(),
{
    if writes.len() > 0 {
        assert forall|i: int| 0 <= i < writes.drop_last().len() implies #[trigger] writes.drop_last()[i].0
            + writes.drop_last()[i].1 <= u64::MAX by {
            assert(writes.drop_last()[i] == writes[i]);
        }
        law_writes_stay_within_limit(h, writes.drop_last());
        assert(writes.last() == writes[writes.len() - 1]);
    }
}

/// A file that is not on local disk is written without gaps: each write that
/// is allowed begins where the last one ended.
pub proof fn law_remote_writes_are_sequential(h: WriteHandle, offset: u64, n: u64)
    requires
        !h.local,
        offset + n <= u64::MAX,
        allowed(h, offset, n) is Ok,
    ensures
        offset == h.len,
        h.after(offset, n).len == h.len + n,
{
}

/// A file that was closed cannot be written or closed again.
pub proof fn law_closed_handle_is_gone(
    handles: Map<u128, WriteHandle>,
    id: u128,
    offset: u64,
    n: u64,
)
    ensures
        write_outcome(handles.remove(id), Ok(id), offset, n) == Err::<u128, StatusView>(
            no_such_handle(),
        ),
{
}

/// Writing inside a local file that is within its limit is never refused.
pub proof fn law_overwrite_in_place_is_allowed(h: WriteHandle, offset: u64, n: u64)
    requires
        h.local,
        h.fits(),
        offset + n <= h.len,
    ensures
        allowed(h, offset, n) is Ok,
        h.after(offset, n) == h,
{
}

/// A local file is opened, empty, exactly where its point is not over its limit,
/// and what the point holds counts against that limit from then on. A refusal
/// changes nothing, and no other file is touched.
pub proof fn law_files_are_opened_within_the_limit(
    h: &mut WriteHandles,
    id: u128,
    point: &VfsPoint,
    baseline: u64,
    r: Result<String, Status>,
    other: u128,
)
    requires
        call_ensures(WriteHandles::open_local_as, (h, id, point, baseline), r),
    ensures
        r is Ok <==> (point.max_bytes matches Some(max) ==> baseline <= max),
        r is Ok ==> final(h)@.contains_key(id) && final(h)@[id].local && final(h)@[id].len == 0
            && final(h)@[id].max_bytes == point.max_bytes && final(h)@[id].baseline_bytes
            == baseline,
        r matches Err(e) ==> final(h)@ == old(h)@ && e.code
            == crate::status::Code::ResourceExhausted,
        other != id ==> {
            &&& final(h)@.contains_key(other) == old(h)@.contains_key(other)
            &&& old(h)@.contains_key(other) ==> final(h)@[other] == old(h)@[other]
        },
{
}

/// A file that is not on local disk is opened empty and without a limit here.
pub proof fn law_remote_files_are_opened_empty(
    h: &mut WriteHandles,
    id: u128,
    r: String,
    other: u128,
    fresh: WriteHandles,
)
    requires
        call_ensures(WriteHandles::new, (), fresh),
        call_ensures(WriteHandles::open_remote_as, (h, id), r),
    ensures
        !fresh@.contains_key(other),
        final(h)@.contains_key(id) && !final(h)@[id].local && final(h)@[id].len == 0
            && final(h)@[id].max_bytes is None,
        other != id ==> {
            &&& final(h)@.contains_key(other) == old(h)@.contains_key(other)
            &&& old(h)@.contains_key(other) ==> final(h)@[other] == old(h)@[other]
        },
{
}

/// A write goes ahead exactly where its file is open and, on local disk, the
/// point holds within its limit what it held before and the file as it will
/// then be; elsewhere, where it begins at the end of the file. What goes ahead
/// goes to the file that was named.
pub proof fn law_writes_are_allowed_within_the_limit(
    h: &WriteHandles,
    id: u128,
    offset: u64,
    n: u64,
    r: Result<WriteStep, Status>,
)
    requires
        call_ensures(WriteHandles::write_to, (h, id, offset, n), r),
    ensures
        r is Ok <==> h@.contains_key(id) && if h@[id].local {
            h@[id].max_bytes matches Some(max) ==> h@[id].baseline_bytes + h@[id].len <= max
                && h@[id].baseline_bytes + offset + n <= max
        } else {
            offset == h@[id].len
        },
        r matches Ok(step) ==> step.id == id && step.local == h@[id].local,
        !h@.contains_key(id) ==> (r matches Err(e) && e.code == crate::status::Code::NotFound),
        h@.contains_key(id) && !h@[id].local && offset != h@[id].len ==> (r matches Err(e) && e.code
            == crate::status::Code::InvalidArgument),
        h@.contains_key(id) && h@[id].local ==> (r matches Err(e) ==> e.code
            == crate::status::Code::ResourceExhausted),
{
}

/// A write that reached its file makes it as long as the write ends, and never
/// shorter. Nothing else of it changes, and no other file does; nor does a file
/// that was closed.
pub proof fn law_written_files_grow(
    h: &mut WriteHandles,
    id: u128,
    offset: u64,
    n: u64,
    other: u128,
)
    requires
        offset + n <= u64::MAX,
        call_ensures(WriteHandles::wrote_at, (h, id, offset, n), ()),
    ensures
        old(h)@.contains_key(id) ==> {
            &&& final(h)@.contains_key(id)
            &&& final(h)@[id].len >= old(h)@[id].len
            &&& final(h)@[id].len >= offset + n
            &&& final(h)@[id].len == old(h)@[id].len || final(h)@[id].len == offset + n
            &&& final(h)@[id].local == old(h)@[id].local
            &&& final(h)@[id].max_bytes == old(h)@[id].max_bytes
            &&& final(h)@[id].baseline_bytes == old(h)@[id].baseline_bytes
        },
        !old(h)@.contains_key(id) ==> final(h)@ == old(h)@,
        other != id ==> {
            &&& final(h)@.contains_key(other) == old(h)@.contains_key(other)
            &&& old(h)@.contains_key(other) ==> final(h)@[other] == old(h)@[other]
        },
{
}

/// A file that is closed is gone, and gives back what it was; closing takes no
/// other file with it, and what is not open cannot be closed or written.
pub proof fn law_files_are_closed_once(
    h: &mut WriteHandles,
    id: u128,
    r: Result<WriteHandle, Status>,
    offset: u64,
    n: u64,
    written: Result<WriteStep, Status>,
    g: &mut WriteHandles,
    again: Result<WriteHandle, Status>,
    other: u128,
)
    requires
        call_ensures(WriteHandles::close_id, (h, id), r),
        call_ensures(WriteHandles::write_to, (&*final(h), id, offset, n), written),
        *old(g) == *final(h),
        call_ensures(WriteHandles::close_id, (g, id), again),
    ensures
        r is Ok <==> old(h)@.contains_key(id),
        r matches Ok(file) ==> file == old(h)@[id],
        r matches Err(e) ==> e.code == crate::status::Code::NotFound,
        !final(h)@.contains_key(id),
        written is Err,
        again matches Err(e) && e.code == crate::status::Code::NotFound,
        other != id ==> {
            &&& final(h)@.contains_key(other) == old(h)@.contains_key(other)
            &&& old(h)@.contains_key(other) ==> final(h)@[other] == old(h)@[other]
        },
{
}

/// The text that is handed out for a file that is opened names it: writes under
/// that text are judged as writes to it, and it is closed under that text.
pub proof fn law_opened_files_are_named_by_their_text(
    h: &mut WriteHandles,
    point: &VfsPoint,
    baseline: u64,
    r: Result<(u128, String), Status>,
    name: &str,
    offset: u64,
    n: u64,
    by_name: Result<WriteStep, Status>,
    by_id: Result<WriteStep, Status>,
    g: &mut WriteHandles,
    closed: Result<(u128, WriteHandle), Status>,
)
    requires
        call_ensures(WriteHandles::open_local, (h, point, baseline), r),
        r matches Ok((_, text)) && name@ == text@,
        offset + n <= u64::MAX,
        call_ensures(WriteHandles::write_at, (&*final(h), name, offset, n), by_name),
        r matches Ok((id, _)) && call_ensures(
            WriteHandles::write_to,
            (&*final(h), id, offset, n),
            by_id,
        ),
        *old(g) == *final(h),
        call_ensures(WriteHandles::close_write, (g, name), closed),
    ensures
        point.max_bytes matches Some(max) ==> baseline <= max,
        by_name is Ok <==> by_id is Ok,
        by_name is Ok <==> (point.max_bytes matches Some(max) ==> baseline + offset + n <= max),
        by_name matches Ok(step) ==> step.local && (r matches Ok((id, _)) && step.id == id),
        by_name matches Err(e) ==> (by_id matches Err(f) && e@ == f@),
        closed matches Ok((i, file)) && (r matches Ok((id, _)) && i == id && file.len == 0),
{
}

/// The same holds of a file that is not on local disk, which takes its first
/// write at the start.
pub proof fn law_opened_remote_files_are_named_by_their_text(
    h: &mut WriteHandles,
    r: (u128, String),
    name: &str,
    offset: u64,
    n: u64,
    by_name: Result<WriteStep, Status>,
    g: &mut WriteHandles,
    closed: Result<(u128, WriteHandle), Status>,
)
    requires
        call_ensures(WriteHandles::open_remote, (h,), r),
        name@ == r.1@,
        offset + n <= u64::MAX,
        call_ensures(WriteHandles::write_at, (&*final(h), name, offset, n), by_name),
        *old(g) == *final(h),
        call_ensures(WriteHandles::close_write, (g, name), closed),
    ensures
        by_name is Ok <==> offset == 0,
        by_name matches Ok(step) ==> !step.local && step.id == r.0,
        closed matches Ok((i, file)) && i == r.0 && !file.local && file.len == 0,
{
}

/// Judging any write gives what judging one that ends in range gives, and tells
/// where a write to an open file would end beyond what can be counted.
pub proof fn law_writes_out_of_range_are_told(
    h: &WriteHandles,
    name: &str,
    offset: u64,
    n: u64,
    r: Option<Result<WriteStep, Status>>,
    by_name: Result<WriteStep, Status>,
)
    requires
        call_ensures(WriteHandles::judge_write, (h, name, offset, n), r),
        call_ensures(WriteHandles::write_at, (h, name, offset, n), by_name),
    ensures
        offset + n <= u64::MAX ==> r is Some,
        r matches Some(judged) ==> (judged is Ok <==> by_name is Ok),
        r matches Some(Ok(step)) ==> (by_name matches Ok(s) && s == step),
        r matches Some(Err(e)) ==> (by_name matches Err(f) && e@ == f@),
{
}

/// A text that names no identifier names no file: nothing is written or closed
/// under it.
pub proof fn law_malformed_names_are_refused(
    h: &WriteHandles,
    name: &str,
    read: Result<u128, Status>,
    offset: u64,
    n: u64,
    written: Result<WriteStep, Status>,
    g: &mut WriteHandles,
    closed: Result<(u128, WriteHandle), Status>,
)
    requires
        call_ensures(parse_handle_id, (name,), read),
        read is Err,
        call_ensures(WriteHandles::write_at, (h, name, offset, n), written),
        call_ensures(WriteHandles::close_write, (g, name), closed),
    ensures
        written matches Err(e) && e.code == crate::status::Code::InvalidArgument && e.message@
            == "malformed handle_id"@,
        closed matches Err(e) && e.code == crate::status::Code::InvalidArgument,
        final(g)@ == old(g)@,
{
}

/// A write that would end beyond what can be counted is told from all others
/// only where its end matters: for a file that is open and is on local disk or
/// ends where the write begins. Any other such write is refused as usual.
pub proof fn law_range_matters_for_open_files_only(
    h: &WriteHandles,
    id: u128,
    text: String,
    name: &str,
    offset: u64,
    n: u64,
    r: Option<Result<WriteStep, Status>>,
    junk: &str,
    read: Result<u128, Status>,
    q: Option<Result<WriteStep, Status>>,
)
    requires
        call_ensures(id_text, (id,), text),
        name@ == text@,
        call_ensures(WriteHandles::judge_write, (h, name, offset, n), r),
        call_ensures(parse_handle_id, (junk,), read),
        read is Err,
        call_ensures(WriteHandles::judge_write, (h, junk, offset, n), q),
    ensures
        r is None <==> {
            &&& offset + n > u64::MAX
            &&& h@.contains_key(id)
            &&& h@[id].local || h@[id].len == offset
        },
        !h@.contains_key(id) ==> (r matches Some(Err(e)) && e.code
            == crate::status::Code::NotFound),
        q matches Some(Err(e)) && e.code == crate::status::Code::InvalidArgument,
{
}

} // verus!
