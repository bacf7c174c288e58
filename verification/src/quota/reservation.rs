//! Limits on how many bytes are written through a store.
//!
//! Each write reserves its length before it is passed on. A write that fails,
//! or is given up, gives its reservation back. Nothing is kept in memory: the
//! total is read from the tracker and written back to it every time.

use super::counter::{minus, plus};
use super::tracker::MemoryTracker;
use crate::error::{Error, ErrorKind, ErrorView};
use crate::text::{decimal, to_decimal};
use vstd::prelude::*;

verus! {

/// What is answered where `len` more bytes would exceed `limit`.
pub open spec fn over_limit_view(id: Seq<char>, current: u64, len: u64, limit: u64) -> ErrorView {
    ErrorView::plain(
        ErrorKind::RateLimited,
        "write quota exceeded for '"@ + id + "': "@ + decimal(current as nat) + " used, "@
            + decimal(len as nat) + " requested, "@ + decimal(limit as nat) + " limit"@,
    ).with("quota_id"@, id).with("quota_limit"@, decimal(limit as nat)).with(
        "quota_used"@,
        decimal(current as nat),
    ).with("quota_requested"@, decimal(len as nat))
}

/// A limit on the bytes that are written under one id.
#[derive(Debug)]
pub struct QuotaState {
    pub id: String,
    pub limit: u64,
}

impl QuotaState {
    /// A limit of `limit` on what is written under `id`.
    pub fn new(id: &str, limit: u64) -> (r: Self)
        ensures
            r.id@ == id@,
            r.limit == limit,
    {
        QuotaState { id: id.to_owned(), limit }
    }

    /// Whether the tracker is asked at all: reserving and releasing nothing
    /// changes nothing.
    pub fn concerns(&self, len: u64) -> (r: bool)
        ensures
            r == (len != 0),
    {
        len != 0
    }

    /// The total to write to the tracker for `len` more bytes, where it holds
    /// `current`. Refuses what would exceed the limit.
    pub fn reserve(&self, current: u64, len: u64) -> (r: Result<u64, Error>)
        ensures
            match r {
                Ok(total) => total == plus(current, len) && total <= self.limit,
                Err(e) => {
                    &&& plus(current, len) > self.limit
                    &&& e@ == over_limit_view(self.id@, current, len, self.limit)
                },
            },
    {
        let new_total = if current <= u64::MAX - len {
            current + len
        } else {
            u64::MAX
        };
        if new_total > self.limit {
            let used = to_decimal(current as u128);
            let wanted = to_decimal(len as u128);
            let most = to_decimal(self.limit as u128);
            let message = "write quota exceeded for '".to_owned().concat(self.id.as_str()).concat(
                "': ",
            ).concat(used.as_str()).concat(" used, ").concat(wanted.as_str()).concat(
                " requested, ",
            ).concat(most.as_str()).concat(" limit");
            return Err(
                Error::new(ErrorKind::RateLimited, message).with_context(
                    "quota_id",
                    self.id.clone(),
                ).with_context("quota_limit", most).with_context("quota_used", used).with_context(
                    "quota_requested",
                    wanted,
                ),
            );
        }
        Ok(new_total)
    }

    /// The total to write to the tracker once `len` bytes are given back, where
    /// it holds `current`.
    pub fn release(&self, current: u64, len: u64) -> (r: u64)
        ensures
            r == minus(current, len),
    {
        if current >= len {
            current - len
        } else {
            0
        }
    }
}

/// A write in progress, and how much it reserved.
#[derive(Debug)]
pub struct QuotaWriter {
    pub reserved: u64,
}

impl QuotaWriter {
    /// A write that reserved nothing yet.
    pub fn new() -> (r: Self)
        ensures
            r.reserved == 0,
    {
        QuotaWriter { reserved: 0 }
    }

    /// `len` bytes were reserved, and are passed on.
    pub fn reserved(&mut self, len: u64)
        requires
            old(self).reserved + len <= u64::MAX,
        ensures
            final(self).reserved == old(self).reserved + len,
    {
        self.reserved = self.reserved + len;
    }

    /// The `len` bytes reserved last could not be passed on: they are to be
    /// given back.
    pub fn failed(&mut self, len: u64)
        requires
            len <= old(self).reserved,
        ensures
            final(self).reserved == old(self).reserved - len,
    {
        self.reserved = self.reserved - len;
    }

    /// The write is finished: what it reserved is used.
    pub fn close(&mut self)
        ensures
            final(self).reserved == 0,
    {
        self.reserved = 0;
    }

    /// The write is given up: returns what is to be given back.
    pub fn abort(&mut self) -> (r: u64)
        ensures
            r == old(self).reserved,
            final(self).reserved == 0,
    {
        let n = self.reserved;
        self.reserved = 0;
        n
    }
}

/// Reserves `len` bytes with a tracker in memory.
pub fn reserve_in(state: &QuotaState, tracker: &mut MemoryTracker, len: u64) -> (r: Result<
    (),
    Error,
>)
    ensures
        if len == 0 {
            r is Ok && final(tracker)@ == old(tracker)@
        } else {
            let current = super::tracker::stored(old(tracker)@, state.id@);
            match r {
                Ok(_) => {
                    &&& plus(current, len) <= state.limit
                    &&& final(tracker)@ == old(tracker)@.insert(state.id@, plus(current, len))
                },
                Err(e) => {
                    &&& plus(current, len) > state.limit
                    &&& e@ == over_limit_view(state.id@, current, len, state.limit)
                    &&& final(tracker)@ == old(tracker)@
                },
            }
        },
{
    if !state.concerns(len) {
        return Ok(());
    }
    let current = tracker.snapshot(state.id.as_str());
    match state.reserve(current, len) {
        Ok(total) => {
            tracker.set_bytes(state.id.as_str(), total);
            Ok(())
        },
        Err(e) => Err(e),
    }
}

/// Gives `len` bytes back to a tracker in memory.
pub fn release_in(state: &QuotaState, tracker: &mut MemoryTracker, len: u64)
    ensures
        final(tracker)@ == if len == 0 {
            old(tracker)@
        } else {
            old(tracker)@.insert(
                state.id@,
                minus(super::tracker::stored(old(tracker)@, state.id@), len),
            )
        },
{
    if state.concerns(len) {
        let current = tracker.snapshot(state.id.as_str());
        tracker.set_bytes(state.id.as_str(), state.release(current, len));
    }
}

// ── Laws ────────────────────────────────────────────────────────────────────

/// A write that fails consumes nothing: giving back what was reserved restores
/// the total.
pub proof fn law_failed_write_consumes_nothing(current: u64, len: u64)
    requires
        current + len <= u64::MAX,
    ensures
        minus(plus(current, len), len) == current,
{
}

/// Bytes are reserved exactly where the total stays within the limit; nothing
/// is reserved otherwise, and other ids keep what they have.
pub proof fn law_reservations_stay_within_the_limit(
    q: &QuotaState,
    t: &mut MemoryTracker,
    len: u64,
    r: Result<(), Error>,
    other: Seq<char>,
)
    requires
        call_ensures(reserve_in, (q, t, len), r),
    ensures
        ({
            let current: int = if old(t)@.contains_key(q.id@) {
                old(t)@[q.id@] as int
            } else {
                0
            };
            let needed: int = if current + len <= u64::MAX {
                current + len
            } else {
                u64::MAX as int
            };
            &&& len == 0 ==> r is Ok && final(t)@ == old(t)@
            &&& len > 0 ==> (r is Ok <==> needed <= q.limit)
            &&& len > 0 && r is Ok ==> final(t)@.contains_key(q.id@) && final(t)@[q.id@] == needed
            &&& r matches Err(e) ==> final(t)@ == old(t)@ && e.kind == ErrorKind::RateLimited
        }),
        other != q.id@ ==> {
            &&& final(t)@.contains_key(other) == old(t)@.contains_key(other)
            &&& old(t)@.contains_key(other) ==> final(t)@[other] == old(t)@[other]
        },
{
}

/// Giving back what was reserved leaves the total as it was before, where the
/// total could be counted.
pub proof fn law_given_back_is_not_used(
    q: &QuotaState,
    t: &mut MemoryTracker,
    len: u64,
    r: Result<(), Error>,
    back: &mut MemoryTracker,
)
    requires
        call_ensures(reserve_in, (q, t, len), r),
        r is Ok,
        old(t)@.contains_key(q.id@) ==> old(t)@[q.id@] + len <= u64::MAX,
        *old(back) == *final(t),
        call_ensures(release_in, (q, back, len), ()),
    ensures
        old(t)@.contains_key(q.id@) ==> final(back)@.contains_key(q.id@) && final(back)@[q.id@]
            == old(t)@[q.id@],
        !old(t)@.contains_key(q.id@) && len > 0 ==> final(back)@.contains_key(q.id@)
            && final(back)@[q.id@] == 0,
        len == 0 ==> final(back)@ == old(t)@,
{
}

/// What is to be written to the tracker is what was used and what is reserved,
/// or what was used without what is given back, down to zero.
pub proof fn law_reserving_adds_and_releasing_takes_off(
    id: &str,
    limit: u64,
    q: QuotaState,
    current: u64,
    len: u64,
    r: Result<u64, Error>,
    left: u64,
    asked: bool,
)
    requires
        call_ensures(QuotaState::new, (id, limit), q),
        call_ensures(QuotaState::reserve, (&q, current, len), r),
        call_ensures(QuotaState::release, (&q, current, len), left),
        call_ensures(QuotaState::concerns, (&q, len), asked),
    ensures
        q.id@ == id@ && q.limit == limit,
        asked <==> len > 0,
        current + len <= limit ==> (r matches Ok(total) && total == current + len),
        current + len > limit && limit < u64::MAX ==> (r matches Err(e) && e.kind
            == ErrorKind::RateLimited),
        r matches Ok(total) ==> total <= limit,
        left == if current >= len {
            current - len
        } else {
            0
        },
{
}

/// What is answered over the limit names the id, what is used, what was
/// requested, and the limit.
pub proof fn law_refused_reservations_are_explained(
    q: &QuotaState,
    current: u64,
    len: u64,
    e: Error,
)
    requires
        call_ensures(QuotaState::reserve, (q, current, len), Err(e)),
    ensures
        e.message@ == "write quota exceeded for '"@ + q.id@ + "': "@ + decimal(current as nat)
            + " used, "@ + decimal(len as nat) + " requested, "@ + decimal(q.limit as nat)
            + " limit"@,
        e.context@.len() == 4,
        e.context@[0].0@ == "quota_id"@ && e.context@[0].1@ == q.id@,
        e.context@[1].0@ == "quota_limit"@ && e.context@[1].1@ == decimal(q.limit as nat),
        e.context@[2].0@ == "quota_used"@ && e.context@[2].1@ == decimal(current as nat),
        e.context@[3].0@ == "quota_requested"@ && e.context@[3].1@ == decimal(len as nat),
{
    assert(e@.context.len() == e.context@.len());
    assert(e@.context[0] == ("quota_id"@, q.id@));
    assert(e@.context[1] == ("quota_limit"@, decimal(q.limit as nat)));
    assert(e@.context[2] == ("quota_used"@, decimal(current as nat)));
    assert(e@.context[3] == ("quota_requested"@, decimal(len as nat)));
}

/// A writer knows what it reserved and has not given back; finishing uses it,
/// and giving up gives all of it back.
pub proof fn law_writers_know_what_they_reserved(
    fresh: QuotaWriter,
    a: &mut QuotaWriter,
    len: u64,
    b: &mut QuotaWriter,
    c: &mut QuotaWriter,
    d: &mut QuotaWriter,
    back: u64,
)
    requires
        call_ensures(QuotaWriter::new, (), fresh),
        old(a).reserved + len <= u64::MAX,
        call_ensures(QuotaWriter::reserved, (a, len), ()),
        *old(b) == *final(a),
        call_ensures(QuotaWriter::failed, (b, len), ()),
        call_ensures(QuotaWriter::close, (c,), ()),
        call_ensures(QuotaWriter::abort, (d,), back),
    ensures
        fresh.reserved == 0,
        final(a).reserved == old(a).reserved + len,
        final(b).reserved == old(a).reserved,
        final(c).reserved == 0,
        back == old(d).reserved && final(d).reserved == 0,
{
}

} // verus!
