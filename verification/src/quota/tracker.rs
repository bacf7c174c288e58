//! Totals that outlive the counters.

use crate::error::{Error, ErrorKind, ErrorView};
use crate::strmap::StrMap;
use vstd::prelude::*;

verus! {

/// The total that a tracker holds for `id`; zero where it holds none.
pub open spec fn stored(totals: Map<Seq<char>, u64>, id: Seq<char>) -> u64 {
    if totals.contains_key(id) {
        totals[id]
    } else {
        0
    }
}

/// What is answered for an id that was never written.
pub open spec fn id_not_found_view() -> ErrorView {
    ErrorView::plain(ErrorKind::NotFound, "id not found"@)
}

/// A tracker that holds its totals in memory.
#[derive(Debug)]
pub struct MemoryTracker {
    totals: StrMap<u64>,
}

impl View for MemoryTracker {
    type V = Map<Seq<char>, u64>;

    closed spec fn view(&self) -> Map<Seq<char>, u64> {
        self.totals@
    }
}

impl Default for MemoryTracker {
    fn default() -> (r: Self)
        ensures
            r@ == Map::<Seq<char>, u64>::empty(),
    {
        MemoryTracker { totals: StrMap::new() }
    }
}

impl MemoryTracker {
    /// Replaces the total of `id`.
    pub fn set_bytes(&mut self, id: &str, bytes: u64)
        ensures
            final(self)@ == old(self)@.insert(id@, bytes),
    {
        self.totals.insert(id.to_owned(), bytes);
    }

    /// The total of `id`. Fails with [`ErrorKind::NotFound`] where it was never
    /// written, which tells first use from a failed lookup.
    pub fn get_bytes(&self, id: &str) -> (r: Result<u64, Error>)
        ensures
            match r {
                Ok(bytes) => self@.contains_key(id@) && bytes == self@[id@],
                Err(e) => !self@.contains_key(id@) && e@ == id_not_found_view(),
            },
    {
        match self.totals.get(id) {
            Some(bytes) => Ok(*bytes),
            None => Err(Error::new(ErrorKind::NotFound, "id not found".to_owned())),
        }
    }

    /// Sets the total of `id` to zero.
    pub fn clear(&mut self, id: &str)
        ensures
            final(self)@ == old(self)@.insert(id@, 0u64),
    {
        self.set_bytes(id, 0)
    }

    /// The total of `id`; zero where it was never written.
    pub fn snapshot(&self, id: &str) -> (r: u64)
        ensures
            r == stored(self@, id@),
    {
        match self.totals.get(id) {
            Some(bytes) => *bytes,
            None => 0,
        }
    }
}

// ── Laws ────────────────────────────────────────────────────────────────────

/// A tracker gives back what was written last under an id, and keeps what is
/// under other ids. An id that was never written is told from one that holds
/// zero.
pub proof fn law_trackers_give_back_what_was_written(
    t: &mut MemoryTracker,
    id: &str,
    bytes: u64,
    got: Result<u64, Error>,
    shown: u64,
    other: &str,
    before: Result<u64, Error>,
    after: Result<u64, Error>,
    cleared: &mut MemoryTracker,
    zero: Result<u64, Error>,
)
    requires
        call_ensures(MemoryTracker::set_bytes, (t, id, bytes), ()),
        call_ensures(MemoryTracker::get_bytes, (&*final(t), id), got),
        call_ensures(MemoryTracker::snapshot, (&*final(t), id), shown),
        other@ != id@,
        call_ensures(MemoryTracker::get_bytes, (&*old(t), other), before),
        call_ensures(MemoryTracker::get_bytes, (&*final(t), other), after),
        call_ensures(MemoryTracker::clear, (cleared, id), ()),
        call_ensures(MemoryTracker::get_bytes, (&*final(cleared), id), zero),
    ensures
        got == Ok::<u64, Error>(bytes),
        shown == bytes,
        before is Ok <==> after is Ok,
        before matches Ok(n) ==> after == Ok::<u64, Error>(n),
        zero == Ok::<u64, Error>(0),
{
}

/// An id that was never written is not found, and counts as zero.
pub proof fn law_unwritten_ids_are_not_found(
    t: MemoryTracker,
    id: &str,
    got: Result<u64, Error>,
    shown: u64,
)
    requires
        call_ensures(MemoryTracker::default, (), t),
        call_ensures(MemoryTracker::get_bytes, (&t, id), got),
        call_ensures(MemoryTracker::snapshot, (&t, id), shown),
    ensures
        got matches Err(e) && e.kind == ErrorKind::NotFound,
        shown == 0,
{
}

} // verus!
