//! The running total of one quota id.

use crate::error::{Error, ErrorKind, ErrorView};
use crate::text::{decimal, to_decimal};
use vstd::prelude::*;

verus! {

/// `a + b`, or the greatest number where that is too much.
pub open spec fn plus(a: u64, b: u64) -> u64 {
    if a + b <= u64::MAX {
        (a + b) as u64
    } else {
        u64::MAX
    }
}

/// `a - b`, or zero where that is too little.
pub open spec fn minus(a: u64, b: u64) -> u64 {
    if a >= b {
        (a - b) as u64
    } else {
        0
    }
}

/// The total once `old_size` bytes are replaced by `new_size` bytes.
pub open spec fn total_after(current: u64, old_size: u64, new_size: u64) -> u64 {
    plus(minus(current, old_size), new_size)
}

/// What is answered where `hypothetical` bytes would be needed.
pub open spec fn quota_exceeded_view(
    id: Seq<char>,
    current: u64,
    hypothetical: u64,
    limit: u64,
) -> ErrorView {
    ErrorView::plain(
        ErrorKind::RateLimited,
        "write quota exceeded for '"@ + id + "': "@ + decimal(current as nat) + " used, "@
            + decimal(hypothetical as nat) + " would be needed, "@ + decimal(limit as nat)
            + " limit"@,
    ).with("quota_id"@, id).with("quota_limit"@, decimal(limit as nat)).with(
        "quota_used"@,
        decimal(current as nat),
    )
}

/// `hypothetical` bytes would be needed under `id`, which is over `limit`.
pub fn quota_exceeded_error(id: &str, current: u64, hypothetical: u64, limit: u64) -> (r: Error)
    ensures
        r@ == quota_exceeded_view(id@, current, hypothetical, limit),
{
    let used = to_decimal(current as u128);
    let most = to_decimal(limit as u128);
    let message = "write quota exceeded for '".to_owned().concat(id).concat("': ").concat(
        used.as_str(),
    ).concat(" used, ").concat(to_decimal(hypothetical as u128).as_str()).concat(
        " would be needed, ",
    ).concat(most.as_str()).concat(" limit");
    Error::new(ErrorKind::RateLimited, message).with_context("quota_id", id.to_owned()).with_context(
        "quota_limit",
        most,
    ).with_context("quota_used", used)
}

/// The running total of one quota id.
#[derive(Clone, Copy, Debug, PartialEq, Eq, Structural)]
pub struct QuotaCounter {
    pub bytes: u64,
    /// Whether the total changed since it was last written to the tracker.
    pub dirty: bool,
}

impl QuotaCounter {
    /// The counter once `old_size` bytes are replaced by `new_size` bytes, where
    /// that keeps within `limit`; unchanged where it does not.
    pub open spec fn after(self, old_size: u64, new_size: u64, limit: u64) -> Self {
        let total = total_after(self.bytes, old_size, new_size);
        if total <= limit {
            QuotaCounter { bytes: total, dirty: true }
        } else {
            self
        }
    }

    /// A counter that agrees with the tracker.
    pub fn new(initial: u64) -> (r: Self)
        ensures
            r == (QuotaCounter { bytes: initial, dirty: false }),
    {
        QuotaCounter { bytes: initial, dirty: false }
    }

    /// The total.
    pub fn get(&self) -> (r: u64)
        ensures
            r == self.bytes,
    {
        self.bytes
    }

    /// Sets the total to zero.
    pub fn reset(&mut self)
        ensures
            *final(self) == (QuotaCounter { bytes: 0, dirty: true }),
    {
        self.bytes = 0;
        self.dirty = true;
    }

    /// The total must be written to the tracker.
    pub fn mark_dirty(&mut self)
        ensures
            *final(self) == (QuotaCounter { bytes: old(self).bytes, dirty: true }),
    {
        self.dirty = true;
    }

    /// Replaces `old_size` bytes by `new_size` bytes and returns the new total.
    /// Refuses, and changes nothing, where that would exceed `limit`.
    pub fn apply_delta(&mut self, id: &str, old_size: u64, new_size: u64, limit: u64) -> (r: Result<
        u64,
        Error,
    >)
        ensures
            *final(self) == old(self).after(old_size, new_size, limit),
            match r {
                Ok(total) => {
                    &&& total == total_after(old(self).bytes, old_size, new_size)
                    &&& total <= limit
                },
                Err(e) => {
                    let needed = total_after(old(self).bytes, old_size, new_size);
                    &&& needed > limit
                    &&& e@ == quota_exceeded_view(id@, old(self).bytes, needed, limit)
                },
            },
    {
        let current = self.bytes;
        let left = if current >= old_size {
            current - old_size
        } else {
            0
        };
        let new_total = if left <= u64::MAX - new_size {
            left + new_size
        } else {
            u64::MAX
        };
        if new_total > limit {
            return Err(quota_exceeded_error(id, current, new_total, limit));
        }
        self.bytes = new_total;
        self.dirty = true;
        Ok(new_total)
    }
}

// ── Laws ────────────────────────────────────────────────────────────────────

/// Something that is committed: an object written over one of `old_size` bytes,
/// within the limit, or an object deleted, whatever the limit.
pub enum Commit {
    Write { old_size: u64, new_size: u64 },
    Delete { size: u64 },
}

/// The counter after commits, in order.
pub open spec fn after_all(counter: QuotaCounter, commits: Seq<Commit>, limit: u64) -> QuotaCounter
    decreases commits.len(),
{
    if commits.len() == 0 {
        counter
    } else {
        let before = after_all(counter, commits.drop_last(), limit);
        match commits.last() {
            Commit::Write { old_size, new_size } => before.after(old_size, new_size, limit),
            Commit::Delete { size } => before.after(size, 0, u64::MAX),
        }
    }
}

/// However much is written and deleted, the total never exceeds the limit that
/// it started within.
pub proof fn law_total_stays_within_limit(counter: QuotaCounter, commits: Seq<Commit>, limit: u64)
    requires
        counter.bytes <= limit,
    ensures
        after_all(counter, commits, limit).bytes <= limit,
    decreases commits.len(),
{
    if commits.len() > 0 {
        law_total_stays_within_limit(counter, commits.drop_last(), limit);
    }
}

/// Overwriting an object that is part of the total changes it by the
/// difference of the two sizes only.
pub proof fn law_overwrite_replaces(current: u64, old_size: u64, new_size: u64)
    requires
        old_size <= current,
        current - old_size + new_size <= u64::MAX,
    ensures
        total_after(current, old_size, new_size) == current - old_size + new_size,
{
}

/// Deleting an object gives back exactly what writing it took.
pub proof fn law_delete_undoes_write(current: u64, size: u64)
    requires
        current + size <= u64::MAX,
    ensures
        total_after(total_after(current, 0, size), size, 0) == current,
{
}

/// Taking a replacement back, whatever the limit allows, restores the total.
pub proof fn law_rollback_restores(current: u64, old_size: u64, new_size: u64)
    requires
        old_size <= current,
        current - old_size + new_size <= u64::MAX,
    ensures
        total_after(total_after(current, old_size, new_size), new_size, old_size) == current,
        forall|c: QuotaCounter|
            c.bytes == total_after(current, old_size, new_size) ==> #[trigger] c.after(
                new_size,
                old_size,
                u64::MAX,
            ).bytes == current,
{
}

/// Replacing an object by one of the same size leaves a total that holds it
/// as it is.
pub proof fn law_same_size_keeps_total(current: u64, size: u64)
    requires
        size <= current,
    ensures
        total_after(current, size, size) == current,
{
}

/// A replacement is counted exactly where the total stays within the limit:
/// what was there is taken off, as far as it was counted, and what is there now
/// is added, as far as can be counted. Otherwise nothing changes.
pub proof fn law_replacements_are_counted_within_the_limit(
    c: &mut QuotaCounter,
    id: &str,
    old_size: u64,
    new_size: u64,
    limit: u64,
    r: Result<u64, Error>,
)
    requires
        call_ensures(QuotaCounter::apply_delta, (c, id, old_size, new_size, limit), r),
    ensures
        ({
            let kept: int = if old(c).bytes >= old_size {
                old(c).bytes - old_size
            } else {
                0
            };
            let needed: int = if kept + new_size <= u64::MAX {
                kept + new_size
            } else {
                u64::MAX as int
            };
            &&& r is Ok <==> needed <= limit
            &&& r matches Ok(total) ==> total == needed && final(c).bytes == needed && final(c).dirty
            &&& r matches Err(e) ==> *final(c) == *old(c) && e.kind == ErrorKind::RateLimited
        }),
{
}

/// A counter starts with what the tracker holds, agrees with it until it
/// changes, and starts anew from zero.
pub proof fn law_counters_start_in_agreement(
    initial: u64,
    fresh: QuotaCounter,
    bytes: u64,
    zeroed: &mut QuotaCounter,
    marked: &mut QuotaCounter,
)
    requires
        call_ensures(QuotaCounter::new, (initial,), fresh),
        call_ensures(QuotaCounter::get, (&fresh,), bytes),
        call_ensures(QuotaCounter::reset, (zeroed,), ()),
        call_ensures(QuotaCounter::mark_dirty, (marked,), ()),
    ensures
        bytes == initial,
        fresh.bytes == initial && !fresh.dirty,
        final(zeroed).bytes == 0 && final(zeroed).dirty,
        final(marked).bytes == old(marked).bytes && final(marked).dirty,
{
}

/// What is answered over the limit names the id, what is used, what would be
/// needed, and the limit.
pub proof fn law_exceeded_limits_are_explained(
    id: &str,
    current: u64,
    hypothetical: u64,
    limit: u64,
    r: Error,
)
    requires
        call_ensures(quota_exceeded_error, (id, current, hypothetical, limit), r),
    ensures
        r.kind == ErrorKind::RateLimited,
        r.message@ == "write quota exceeded for '"@ + id@ + "': "@ + decimal(current as nat)
            + " used, "@ + decimal(hypothetical as nat) + " would be needed, "@ + decimal(
            limit as nat,
        ) + " limit"@,
        r.context@.len() == 3,
        r.context@[0].0@ == "quota_id"@ && r.context@[0].1@ == id@,
        r.context@[1].0@ == "quota_limit"@ && r.context@[1].1@ == decimal(limit as nat),
        r.context@[2].0@ == "quota_used"@ && r.context@[2].1@ == decimal(current as nat),
{
    assert(r@.context.len() == r.context@.len());
    assert(r@.context[0] == ("quota_id"@, id@));
    assert(r@.context[1] == ("quota_limit"@, decimal(limit as nat)));
    assert(r@.context[2] == ("quota_used"@, decimal(current as nat)));
}

} // verus!
