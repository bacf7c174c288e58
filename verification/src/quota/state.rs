//! The running totals of all quota ids.

use super::counter::{quota_exceeded_view, total_after, QuotaCounter};
use super::tracker::{stored, MemoryTracker};
use crate::error::{Error, ErrorKind};
use crate::strmap::StrMap;
use vstd::prelude::*;

verus! {

/// Seconds between two rounds of writing totals back to the tracker.
pub const DEFAULT_SYNC_INTERVAL: u64 = 30;

/// What is known of an id that was touched.
#[derive(Clone, Copy, Debug, PartialEq, Eq, Structural)]
pub enum Bucket {
    /// Its total is being loaded from the tracker.
    Loading,
    /// Its total.
    Ready(QuotaCounter),
}

/// Whether an id can be used at once.
#[derive(Clone, Copy, Debug, PartialEq, Eq, Structural)]
pub enum Touch {
    /// It can.
    Ready,
    /// The caller has to load it from the tracker.
    Load,
    /// Another caller is loading it.
    Wait,
}

/// The outcome of an operation on an id.
#[derive(Debug)]
pub enum Step<T> {
    Done(T),
    /// Nothing was done: the caller has to load the id from the tracker, report
    /// to [`QuotaState::finish_load`], and try again.
    Load,
    /// Nothing was done: another caller is loading the id. Try again once it
    /// has finished.
    Wait,
}

/// The totals of all ids that were touched.
///
/// Ids are discovered lazily. The total of each is loaded from the tracker the
/// first time that it is touched, and only once: while a load is under way, no
/// other caller is asked to load the same id.
#[derive(Debug)]
pub struct QuotaState {
    buckets: StrMap<Bucket>,
}

impl View for QuotaState {
    type V = Map<Seq<char>, Bucket>;

    closed spec fn view(&self) -> Map<Seq<char>, Bucket> {
        self.buckets@
    }
}

/// Whether an id is touched for the first time, or is being loaded, or ready.
pub open spec fn touch_of(buckets: Map<Seq<char>, Bucket>, id: Seq<char>) -> Touch {
    if !buckets.contains_key(id) {
        Touch::Load
    } else if buckets[id] is Loading {
        Touch::Wait
    } else {
        Touch::Ready
    }
}

/// The counter of an id that is ready.
pub open spec fn counter_of(buckets: Map<Seq<char>, Bucket>, id: Seq<char>) -> QuotaCounter {
    buckets[id]->Ready_0
}

/// The buckets once `id` was touched.
pub open spec fn touched(buckets: Map<Seq<char>, Bucket>, id: Seq<char>) -> Map<
    Seq<char>,
    Bucket,
> {
    if touch_of(buckets, id) is Load {
        buckets.insert(id, Bucket::Loading)
    } else {
        buckets
    }
}

/// The buckets once `old_size` bytes were to be replaced by `new_size` bytes
/// under an id that is ready.
pub open spec fn committed(
    buckets: Map<Seq<char>, Bucket>,
    id: Seq<char>,
    limit: u64,
    old_size: u64,
    new_size: u64,
) -> Map<Seq<char>, Bucket> {
    buckets.insert(id, Bucket::Ready(counter_of(buckets, id).after(old_size, new_size, limit)))
}

/// The buckets once a load of `id` ended. What was set meanwhile stands; a
/// failed load leaves the id as if it had never been touched.
pub open spec fn loaded(
    buckets: Map<Seq<char>, Bucket>,
    id: Seq<char>,
    bytes: Option<u64>,
) -> Map<Seq<char>, Bucket> {
    if touch_of(buckets, id) is Ready {
        buckets
    } else {
        match bytes {
            Some(n) => buckets.insert(
                id,
                Bucket::Ready(QuotaCounter { bytes: n, dirty: false }),
            ),
            None => buckets.remove(id),
        }
    }
}

impl QuotaState {
    /// A state in which no id was touched yet.
    pub fn new() -> (r: Self)
        ensures
            r@ == Map::<Seq<char>, Bucket>::empty(),
    {
        QuotaState { buckets: StrMap::new() }
    }

    /// Touches `id`: says whether it can be used, or who loads it.
    pub fn touch(&mut self, id: &str) -> (r: Touch)
        ensures
            r == touch_of(old(self)@, id@),
            final(self)@ == touched(old(self)@, id@),
    {
        let known = match self.buckets.get(id) {
            Some(Bucket::Loading) => Some(Touch::Wait),
            Some(Bucket::Ready(_)) => Some(Touch::Ready),
            None => None,
        };
        match known {
            Some(t) => t,
            None => {
                self.buckets.insert(id.to_owned(), Bucket::Loading);
                Touch::Load
            },
        }
    }

    /// Ends a load of `id` that [`Touch::Load`] asked for. That nothing was
    /// persisted yet means that nothing is used; any other failure is handed
    /// back, and the next touch loads again.
    pub fn finish_load<E>(&mut self, id: &str, outcome: Result<u64, (ErrorKind, E)>) -> (r: Result<
        (),
        E,
    >)
        ensures
            match outcome {
                Ok(bytes) => {
                    &&& final(self)@ == loaded(old(self)@, id@, Some(bytes))
                    &&& r is Ok
                },
                Err((kind, e)) => if kind == ErrorKind::NotFound {
                    &&& final(self)@ == loaded(old(self)@, id@, Some(0u64))
                    &&& r is Ok
                } else {
                    &&& final(self)@ == loaded(old(self)@, id@, None)
                    &&& r == Err::<(), E>(e)
                },
            },
    {
        let ready = match self.buckets.get(id) {
            Some(Bucket::Ready(_)) => true,
            _ => false,
        };
        match outcome {
            Ok(bytes) => {
                if !ready {
                    self.buckets.insert(id.to_owned(), Bucket::Ready(QuotaCounter::new(bytes)));
                }
                Ok(())
            },
            Err((kind, e)) => {
                if kind == ErrorKind::NotFound {
                    if !ready {
                        self.buckets.insert(id.to_owned(), Bucket::Ready(QuotaCounter::new(0)));
                    }
                    Ok(())
                } else {
                    if !ready {
                        self.buckets.remove(id);
                    }
                    Err(e)
                }
            },
        }
    }

    /// The counter of `id`, where it is ready.
    fn counter(&self, id: &str) -> (r: Option<QuotaCounter>)
        ensures
            match r {
                Some(c) => touch_of(self@, id@) is Ready && c == counter_of(self@, id@),
                None => !(touch_of(self@, id@) is Ready),
            },
    {
        match self.buckets.get(id) {
            Some(Bucket::Ready(c)) => Some(*c),
            _ => None,
        }
    }

    /// The total of `id`. It reflects every commit at once, ahead of what the
    /// tracker holds.
    pub fn current_bytes(&mut self, id: &str) -> (r: Step<u64>)
        ensures
            final(self)@ == touched(old(self)@, id@),
            match touch_of(old(self)@, id@) {
                Touch::Ready => r == Step::Done(counter_of(old(self)@, id@).bytes),
                Touch::Load => r is Load,
                Touch::Wait => r is Wait,
            },
    {
        match self.counter(id) {
            Some(c) => Step::Done(c.get()),
            None => match self.touch(id) {
                Touch::Load => Step::Load,
                _ => Step::Wait,
            },
        }
    }

    /// Sets the total of `id` to zero, whatever the tracker holds for it and
    /// whether or not it was loaded.
    pub fn reset(&mut self, id: &str)
        ensures
            final(self)@ == old(self)@.insert(
                id@,
                Bucket::Ready(QuotaCounter { bytes: 0, dirty: true }),
            ),
    {
        let mut counter = QuotaCounter::new(0);
        counter.mark_dirty();
        self.buckets.insert(id.to_owned(), Bucket::Ready(counter));
    }

    /// The same as [`reset`](Self::reset).
    pub fn clear(&mut self, id: &str)
        ensures
            final(self)@ == old(self)@.insert(
                id@,
                Bucket::Ready(QuotaCounter { bytes: 0, dirty: true }),
            ),
    {
        self.reset(id)
    }

    /// Commits a finished write or copy: `old_size` bytes are replaced by
    /// `new_size` bytes, where that keeps within `limit`. Returns the new total.
    pub fn commit_write(&mut self, id: &str, limit: u64, old_size: u64, new_size: u64) -> (r: Step<
        Result<u64, Error>,
    >)
        ensures
            match touch_of(old(self)@, id@) {
                Touch::Ready => {
                    let needed = total_after(counter_of(old(self)@, id@).bytes, old_size, new_size);
                    &&& final(self)@ == committed(old(self)@, id@, limit, old_size, new_size)
                    &&& match r {
                        Step::Done(Ok(total)) => total == needed && needed <= limit,
                        Step::Done(Err(e)) => {
                            &&& needed > limit
                            &&& e@ == quota_exceeded_view(
                                id@,
                                counter_of(old(self)@, id@).bytes,
                                needed,
                                limit,
                            )
                        },
                        _ => false,
                    }
                },
                Touch::Load => r is Load && final(self)@ == touched(old(self)@, id@),
                Touch::Wait => r is Wait && final(self)@ == old(self)@,
            },
    {
        match self.counter(id) {
            Some(c) => {
                let mut counter = c;
                let r = counter.apply_delta(id, old_size, new_size, limit);
                self.buckets.insert(id.to_owned(), Bucket::Ready(counter));
                Step::Done(r)
            },
            None => match self.touch(id) {
                Touch::Load => Step::Load,
                _ => Step::Wait,
            },
        }
    }

    /// Commits a finished delete: `size` bytes are subtracted. This is never
    /// refused.
    pub fn commit_delete(&mut self, id: &str, size: u64) -> (r: Step<()>)
        ensures
            match touch_of(old(self)@, id@) {
                Touch::Ready => {
                    &&& final(self)@ == committed(old(self)@, id@, u64::MAX, size, 0)
                    &&& r is Done
                },
                Touch::Load => r is Load && final(self)@ == touched(old(self)@, id@),
                Touch::Wait => r is Wait && final(self)@ == old(self)@,
            },
    {
        match self.commit_write(id, u64::MAX, size, 0) {
            Step::Done(_) => Step::Done(()),
            Step::Load => Step::Load,
            Step::Wait => Step::Wait,
        }
    }

    /// The ids that were touched, in dictionary order.
    pub fn ids(&self) -> (r: Vec<String>)
        ensures
            crate::vfs::util::sorted(crate::text::views(r@)),
            forall|k: Seq<char>| #[trigger]
                crate::text::views(r@).contains(k) <==> self@.contains_key(k),
    {
        let count = self.buckets.len();
        let mut out: Vec<String> = Vec::new();
        let mut i: usize = 0;
        while i < count
            invariant
                count == self.buckets.keys().len(),
                i <= count,
                out@.len() == i,
                forall|j: int| 0 <= j < i ==> #[trigger] out@[j]@ == self.buckets.keys()[j],
            decreases count - i,
        {
            out.push(self.buckets.key_at(i).clone());
            i += 1;
        }
        assert(crate::text::views(out@) =~= self.buckets.keys());
        out
    }

    /// Takes the total of `id` for writing it to the tracker, where it changed
    /// since it was last written.
    pub fn take_dirty(&mut self, id: &str) -> (r: Option<u64>)
        ensures
            match r {
                Some(bytes) => {
                    let c = counter_of(old(self)@, id@);
                    &&& is_dirty(old(self)@, id@)
                    &&& bytes == c.bytes
                    &&& final(self)@ == cleaned(old(self)@, id@)
                },
                None => !is_dirty(old(self)@, id@) && final(self)@ == old(self)@,
            },
    {
        match self.counter(id) {
            Some(c) => {
                if c.dirty {
                    self.buckets.insert(id.to_owned(), Bucket::Ready(QuotaCounter::new(c.bytes)));
                    Some(c.bytes)
                } else {
                    None
                }
            },
            None => None,
        }
    }

    /// The total of `id` could not be written to the tracker: it will be tried
    /// again.
    pub fn sync_failed(&mut self, id: &str)
        ensures
            final(self)@ == marked(old(self)@, id@),
    {
        match self.counter(id) {
            Some(c) => {
                let mut counter = c;
                counter.mark_dirty();
                self.buckets.insert(id.to_owned(), Bucket::Ready(counter));
            },
            None => {},
        }
    }
}

/// Whether the total of `id` changed since it was last written.
pub open spec fn is_dirty(buckets: Map<Seq<char>, Bucket>, id: Seq<char>) -> bool {
    touch_of(buckets, id) is Ready && counter_of(buckets, id).dirty
}

/// The buckets once the total of `id` was taken for writing.
pub open spec fn cleaned(buckets: Map<Seq<char>, Bucket>, id: Seq<char>) -> Map<
    Seq<char>,
    Bucket,
> {
    buckets.insert(
        id,
        Bucket::Ready(QuotaCounter { bytes: counter_of(buckets, id).bytes, dirty: false }),
    )
}

/// The buckets once the total of `id` is to be written again.
pub open spec fn marked(buckets: Map<Seq<char>, Bucket>, id: Seq<char>) -> Map<Seq<char>, Bucket> {
    if touch_of(buckets, id) is Ready {
        buckets.insert(
            id,
            Bucket::Ready(QuotaCounter { bytes: counter_of(buckets, id).bytes, dirty: true }),
        )
    } else {
        buckets
    }
}

/// Whether the tracker holds the total of every id that did not change since.
pub open spec fn in_sync(buckets: Map<Seq<char>, Bucket>, totals: Map<Seq<char>, u64>) -> bool {
    forall|id: Seq<char>|
        (#[trigger] touch_of(buckets, id)) is Ready && !counter_of(buckets, id).dirty
            ==> counter_of(buckets, id).bytes == stored(totals, id)
}

/// Whether `id` is among the first `n` ids.
spec fn among(ids: Seq<Seq<char>>, n: int, id: Seq<char>) -> bool {
    exists|j: int| 0 <= j < n && #[trigger] ids[j] == id
}

/// One more id is among the first ones if it is the next one.
proof fn lemma_among(ids: Seq<Seq<char>>, n: int, id: Seq<char>)
    requires
        0 <= n < ids.len(),
    ensures
        among(ids, n + 1, id) == (among(ids, n, id) || ids[n] == id),
{
    if among(ids, n, id) {
        let j = choose|j: int| 0 <= j < n && #[trigger] ids[j] == id;
        assert(0 <= j < n + 1 && ids[j] == id);
    }
}

/// The counter of `id` once the first `n` of `ids` were written.
spec fn synced(
    before: Map<Seq<char>, Bucket>,
    ids: Seq<Seq<char>>,
    n: int,
    id: Seq<char>,
) -> QuotaCounter {
    if among(ids, n, id) {
        QuotaCounter { bytes: counter_of(before, id).bytes, dirty: false }
    } else {
        counter_of(before, id)
    }
}

/// What the tracker holds for `id` once the first `n` of `ids` were written.
spec fn written(
    before: Map<Seq<char>, Bucket>,
    totals: Map<Seq<char>, u64>,
    ids: Seq<Seq<char>>,
    n: int,
    id: Seq<char>,
) -> u64 {
    if is_dirty(before, id) && among(ids, n, id) {
        counter_of(before, id).bytes
    } else {
        stored(totals, id)
    }
}

/// Writes the total of every id that changed since the last round to a tracker
/// in memory, and of no other.
pub fn sync_all(state: &mut QuotaState, tracker: &mut MemoryTracker)
    ensures
        final(state)@.dom() == old(state)@.dom(),
        forall|id: Seq<char>|
            (#[trigger] touch_of(final(state)@, id)) == touch_of(old(state)@, id) && (touch_of(
                old(state)@,
                id,
            ) is Ready ==> counter_of(final(state)@, id) == (QuotaCounter {
                bytes: counter_of(old(state)@, id).bytes,
                dirty: false,
            })),
        forall|id: Seq<char>| #[trigger]
            stored(final(tracker)@, id) == if is_dirty(old(state)@, id) {
                counter_of(old(state)@, id).bytes
            } else {
                stored(old(tracker)@, id)
            },
        forall|id: Seq<char>| #[trigger]
            final(tracker)@.contains_key(id) <==> old(tracker)@.contains_key(id) || is_dirty(
                old(state)@,
                id,
            ),
{
    let ids = state.ids();
    let ghost names = crate::text::views(ids@);
    let ghost before = state@;
    let ghost totals = tracker@;
    let mut i: usize = 0;
    while i < ids.len()
        invariant
            i <= ids@.len(),
            names == crate::text::views(ids@),
            before == old(state)@,
            totals == old(tracker)@,
            crate::vfs::util::sorted(names),
            forall|k: Seq<char>| #[trigger] names.contains(k) <==> before.contains_key(k),
            state@.dom() == before.dom(),
            forall|id: Seq<char>| #[trigger]
                touch_of(state@, id) == touch_of(before, id) && (touch_of(before, id) is Ready
                    ==> counter_of(state@, id) == synced(before, names, i as int, id)),
            forall|id: Seq<char>| #[trigger]
                stored(tracker@, id) == written(before, totals, names, i as int, id),
            forall|id: Seq<char>| #[trigger]
                tracker@.contains_key(id) <==> totals.contains_key(id) || (is_dirty(before, id)
                    && among(names, i as int, id)),
        decreases ids@.len() - i,
    {
        let ghost s0 = state@;
        let ghost t0 = tracker@;
        let ghost this = names[i as int];
        proof {
            if among(names, i as int, this) {
                let j = choose|j: int| 0 <= j < i && #[trigger] names[j] == this;
                assert(crate::text::precedes(names[j], names[i as int]));
                crate::text::lemma_precedes_total(this, this);
            }
            assert(names.contains(this));
            assert(touch_of(s0, this) == touch_of(before, this));
            assert(stored(t0, this) == stored(totals, this));
        }
        match state.take_dirty(ids[i].as_str()) {
            Some(bytes) => {
                tracker.set_bytes(ids[i].as_str(), bytes);
                assert(state@.dom() =~= before.dom());
            },
            None => {},
        }
        proof {
            assert forall|id: Seq<char>| #[trigger]
                touch_of(state@, id) == touch_of(before, id) && (touch_of(before, id) is Ready
                    ==> counter_of(state@, id) == synced(before, names, i + 1, id)) by {
                assert(touch_of(s0, id) == touch_of(before, id));
                lemma_among(names, i as int, id);
            }
            assert forall|id: Seq<char>| #[trigger]
                stored(tracker@, id) == written(before, totals, names, i + 1, id) by {
                assert(stored(t0, id) == written(before, totals, names, i as int, id));
                lemma_among(names, i as int, id);
            }
            assert forall|id: Seq<char>| #[trigger]
                tracker@.contains_key(id) <==> totals.contains_key(id) || (is_dirty(before, id)
                    && among(names, i + 1, id)) by {
                assert(t0.contains_key(id) <==> totals.contains_key(id) || (is_dirty(before, id)
                    && among(names, i as int, id)));
                lemma_among(names, i as int, id);
            }
        }
        i += 1;
    }
    proof {
        assert forall|id: Seq<char>| before.contains_key(id) implies #[trigger] among(
            names,
            ids@.len() as int,
            id,
        ) by {
            assert(names.contains(id));
        }
        assert forall|id: Seq<char>| #[trigger]
            touch_of(state@, id) == touch_of(before, id) && (touch_of(before, id) is Ready
                ==> counter_of(state@, id) == (QuotaCounter {
                bytes: counter_of(before, id).bytes,
                dirty: false,
            })) by {
            assert(before.contains_key(id) ==> among(names, ids@.len() as int, id));
        }
        assert forall|id: Seq<char>| #[trigger]
            stored(tracker@, id) == if is_dirty(before, id) {
                counter_of(before, id).bytes
            } else {
                stored(totals, id)
            } by {
            assert(before.contains_key(id) ==> among(names, ids@.len() as int, id));
        }
    }
}

// ── Laws ────────────────────────────────────────────────────────────────────

/// One id never affects another: a commit under `id` leaves the bucket of
/// every other id as it was.
pub proof fn law_ids_are_independent(
    buckets: Map<Seq<char>, Bucket>,
    id: Seq<char>,
    other: Seq<char>,
    limit: u64,
    old_size: u64,
    new_size: u64,
)
    requires
        id != other,
    ensures
        touch_of(committed(buckets, id, limit, old_size, new_size), other) == touch_of(
            buckets,
            other,
        ),
        counter_of(committed(buckets, id, limit, old_size, new_size), other) == counter_of(
            buckets,
            other,
        ),
{
}

/// An id is loaded once: after the touch that asks for a load, no touch asks
/// for another one until the load has ended, nor once it has succeeded.
pub proof fn law_loaded_once(buckets: Map<Seq<char>, Bucket>, id: Seq<char>, bytes: u64)
    requires
        touch_of(buckets, id) is Load,
    ensures
        touch_of(touched(buckets, id), id) is Wait,
        touch_of(loaded(touched(buckets, id), id, Some(bytes)), id) is Ready,
        counter_of(loaded(touched(buckets, id), id, Some(bytes)), id).bytes == bytes,
        touch_of(loaded(touched(buckets, id), id, None), id) is Load,
{
}

/// A reset is never undone by a load that was under way.
pub proof fn law_reset_survives_load(
    buckets: Map<Seq<char>, Bucket>,
    id: Seq<char>,
    outcome: Option<u64>,
)
    ensures
        ({
            let zero = buckets.insert(id, Bucket::Ready(QuotaCounter { bytes: 0, dirty: true }));
            loaded(zero, id, outcome) == zero
        }),
{
}

/// A change to one id only keeps the others in sync.
proof fn lemma_sync_one(
    buckets: Map<Seq<char>, Bucket>,
    totals: Map<Seq<char>, u64>,
    next: Map<Seq<char>, Bucket>,
    next_totals: Map<Seq<char>, u64>,
    id: Seq<char>,
)
    requires
        in_sync(buckets, totals),
        forall|x: Seq<char>|
            x != id ==> #[trigger] touch_of(next, x) == touch_of(buckets, x) && counter_of(next, x)
                == counter_of(buckets, x) && stored(next_totals, x) == stored(totals, x),
        touch_of(next, id) is Ready && !counter_of(next, id).dirty ==> counter_of(next, id).bytes
            == stored(next_totals, id) || (next[id] == buckets[id] && touch_of(buckets, id) is Ready
            && stored(next_totals, id) == stored(totals, id)),
    ensures
        in_sync(next, next_totals),
{
    assert forall|x: Seq<char>|
        (#[trigger] touch_of(next, x)) is Ready && !counter_of(next, x).dirty implies counter_of(
        next,
        x,
    ).bytes == stored(next_totals, x) by {
        assert(touch_of(buckets, x) == touch_of(buckets, x));
    }
}

/// Every operation keeps the tracker in sync with the ids that are not marked
/// as changed: loading what it holds, committing, resetting, and writing a
/// total that was taken.
pub proof fn law_operations_keep_sync(
    buckets: Map<Seq<char>, Bucket>,
    totals: Map<Seq<char>, u64>,
    id: Seq<char>,
    limit: u64,
    old_size: u64,
    new_size: u64,
)
    requires
        in_sync(buckets, totals),
    ensures
        in_sync(touched(buckets, id), totals),
        in_sync(loaded(buckets, id, Some(stored(totals, id))), totals),
        in_sync(loaded(buckets, id, None), totals),
        touch_of(buckets, id) is Ready ==> in_sync(
            committed(buckets, id, limit, old_size, new_size),
            totals,
        ),
        in_sync(
            buckets.insert(id, Bucket::Ready(QuotaCounter { bytes: 0, dirty: true })),
            totals,
        ),
        is_dirty(buckets, id) ==> in_sync(
            cleaned(buckets, id),
            totals.insert(id, counter_of(buckets, id).bytes),
        ),
{
    lemma_sync_one(buckets, totals, touched(buckets, id), totals, id);
    lemma_sync_one(buckets, totals, loaded(buckets, id, Some(stored(totals, id))), totals, id);
    lemma_sync_one(buckets, totals, loaded(buckets, id, None), totals, id);
    if touch_of(buckets, id) is Ready {
        let after = committed(buckets, id, limit, old_size, new_size);
        lemma_sync_one(buckets, totals, after, totals, id);
    }
    let zero = buckets.insert(id, Bucket::Ready(QuotaCounter { bytes: 0, dirty: true }));
    lemma_sync_one(buckets, totals, zero, totals, id);
    if is_dirty(buckets, id) {
        let after = totals.insert(id, counter_of(buckets, id).bytes);
        lemma_sync_one(buckets, totals, cleaned(buckets, id), after, id);
    }
}

/// After a restart, an id whose total was written back starts with the total
/// that it had.
pub proof fn law_restart_restores(
    buckets: Map<Seq<char>, Bucket>,
    totals: Map<Seq<char>, u64>,
    id: Seq<char>,
)
    requires
        in_sync(buckets, totals),
        touch_of(buckets, id) is Ready,
        !is_dirty(buckets, id),
    ensures
        counter_of(
            loaded(
                touched(Map::<Seq<char>, Bucket>::empty(), id),
                id,
                Some(stored(totals, id)),
            ),
            id,
        ).bytes == counter_of(buckets, id).bytes,
{
}

/// The buckets and the tracker once it was tried to write the total of `id`
/// back, where the tracker refuses the ids in `refused`.
pub open spec fn tried(
    buckets: Map<Seq<char>, Bucket>,
    totals: Map<Seq<char>, u64>,
    id: Seq<char>,
    refused: Set<Seq<char>>,
) -> (Map<Seq<char>, Bucket>, Map<Seq<char>, u64>) {
    if !is_dirty(buckets, id) {
        (buckets, totals)
    } else if refused.contains(id) {
        (marked(cleaned(buckets, id), id), totals)
    } else {
        (cleaned(buckets, id), totals.insert(id, counter_of(buckets, id).bytes))
    }
}

/// The buckets and the tracker after a round over `ids`, in order.
pub open spec fn after_round(
    buckets: Map<Seq<char>, Bucket>,
    totals: Map<Seq<char>, u64>,
    ids: Seq<Seq<char>>,
    refused: Set<Seq<char>>,
) -> (Map<Seq<char>, Bucket>, Map<Seq<char>, u64>)
    decreases ids.len(),
{
    if ids.len() == 0 {
        (buckets, totals)
    } else {
        let before = after_round(buckets, totals, ids.drop_last(), refused);
        tried(before.0, before.1, ids.last(), refused)
    }
}

/// A round of writing back reaches every id that changed, whichever others are
/// refused, and no other: one that is written counts as unchanged from then on,
/// one that is refused is still to be written, and no total changes.
pub proof fn law_refused_ids_are_tried_again(
    buckets: Map<Seq<char>, Bucket>,
    totals: Map<Seq<char>, u64>,
    ids: Seq<Seq<char>>,
    refused: Set<Seq<char>>,
    id: Seq<char>,
)
    ensures
        ({
            let after = after_round(buckets, totals, ids, refused);
            let reached = ids.contains(id) && is_dirty(buckets, id) && !refused.contains(id);
            &&& touch_of(after.0, id) == touch_of(buckets, id)
            &&& touch_of(buckets, id) is Ready ==> counter_of(after.0, id).bytes == counter_of(
                buckets,
                id,
            ).bytes
            &&& is_dirty(after.0, id) == (is_dirty(buckets, id) && !reached)
            &&& after.1.contains_key(id) == (totals.contains_key(id) || reached)
            &&& after.1.contains_key(id) ==> after.1[id] == if reached {
                counter_of(buckets, id).bytes
            } else {
                totals[id]
            }
        }),
    decreases ids.len(),
{
    if ids.len() > 0 {
        let front = ids.drop_last();
        law_refused_ids_are_tried_again(buckets, totals, front, refused, id);
        assert(ids[ids.len() - 1] == ids.last());
        if front.contains(id) {
            let i = choose|i: int| 0 <= i < front.len() && front[i] == id;
            assert(ids[i] == id);
        }
        if ids.contains(id) && id != ids.last() {
            let i = choose|i: int| 0 <= i < ids.len() && ids[i] == id;
            assert(front[i] == id);
        }
    }
}

/// A finished write is counted under its id exactly where the total stays
/// within the limit, and one that is not changes nothing. Nothing is counted
/// under an id that was not loaded, and no other id is touched.
pub proof fn law_writes_are_counted_within_the_limit(
    s: &mut QuotaState,
    id: &str,
    limit: u64,
    old_size: u64,
    new_size: u64,
    r: Step<Result<u64, Error>>,
    other: Seq<char>,
)
    requires
        call_ensures(QuotaState::commit_write, (s, id, limit, old_size, new_size), r),
    ensures
        r is Load <==> !old(s)@.contains_key(id@),
        r is Wait <==> old(s)@.contains_key(id@) && old(s)@[id@] is Loading,
        r is Load ==> final(s)@.contains_key(id@) && final(s)@[id@] is Loading,
        r is Wait ==> final(s)@[id@] is Loading,
        old(s)@.contains_key(id@) ==> (old(s)@[id@] matches Bucket::Ready(c) ==> {
            let kept: int = if c.bytes >= old_size {
                c.bytes - old_size
            } else {
                0
            };
            let needed: int = if kept + new_size <= u64::MAX {
                kept + new_size
            } else {
                u64::MAX as int
            };
            &&& (r matches Step::Done(Ok(_))) <==> needed <= limit
            &&& (r matches Step::Done(Err(_))) <==> needed > limit
            &&& r matches Step::Done(Ok(total)) ==> total == needed && (
            final(s)@[id@] matches Bucket::Ready(d) && d.bytes == needed && d.dirty)
            &&& r matches Step::Done(Err(e)) ==> final(s)@[id@] == old(s)@[id@] && e.kind
                == ErrorKind::RateLimited
        }),
        other != id@ ==> {
            &&& final(s)@.contains_key(other) == old(s)@.contains_key(other)
            &&& old(s)@.contains_key(other) ==> final(s)@[other] == old(s)@[other]
        },
{
}

/// A finished delete takes off what it freed, down to zero, and is never
/// refused.
pub proof fn law_deletes_are_never_refused(
    s: &mut QuotaState,
    id: &str,
    size: u64,
    r: Step<()>,
    other: Seq<char>,
)
    requires
        call_ensures(QuotaState::commit_delete, (s, id, size), r),
    ensures
        r is Load <==> !old(s)@.contains_key(id@),
        r is Wait <==> old(s)@.contains_key(id@) && old(s)@[id@] is Loading,
        old(s)@.contains_key(id@) ==> (old(s)@[id@] matches Bucket::Ready(c) ==> (
        final(s)@[id@] matches Bucket::Ready(d) && d.dirty && d.bytes == if c.bytes >= size {
            c.bytes - size
        } else {
            0
        })),
        other != id@ ==> {
            &&& final(s)@.contains_key(other) == old(s)@.contains_key(other)
            &&& old(s)@.contains_key(other) ==> final(s)@[other] == old(s)@[other]
        },
{
}

/// The first to touch an id has to load it, everyone else waits until that has
/// ended, and then nobody does. Touching and reading change no total.
pub proof fn law_first_touch_loads(
    s: &mut QuotaState,
    id: &str,
    t: Touch,
    again: Touch,
    next: &mut QuotaState,
    bytes: Step<u64>,
    read: &mut QuotaState,
    other: Seq<char>,
)
    requires
        call_ensures(QuotaState::touch, (s, id), t),
        *old(next) == *final(s),
        call_ensures(QuotaState::touch, (next, id), again),
        *old(read) == *old(s),
        call_ensures(QuotaState::current_bytes, (read, id), bytes),
    ensures
        t == Touch::Load <==> !old(s)@.contains_key(id@),
        t == Touch::Load ==> again == Touch::Wait,
        t != Touch::Load ==> again == t,
        bytes is Load <==> t == Touch::Load,
        bytes is Wait <==> t == Touch::Wait,
        bytes matches Step::Done(n) ==> (old(s)@[id@] matches Bucket::Ready(c) && n == c.bytes),
        final(s)@.contains_key(id@),
        old(s)@.contains_key(id@) ==> final(s)@[id@] == old(s)@[id@],
        other != id@ ==> {
            &&& final(s)@.contains_key(other) == old(s)@.contains_key(other)
            &&& old(s)@.contains_key(other) ==> final(s)@[other] == old(s)@[other]
            &&& final(read)@.contains_key(other) == old(s)@.contains_key(other)
            &&& old(s)@.contains_key(other) ==> final(read)@[other] == old(s)@[other]
        },
{
}

/// A load that ends gives the id its total, which agrees with the tracker; that
/// the tracker has none means zero; any other failure is handed back, and the
/// id is as if it had not been touched. What was set meanwhile stands.
pub proof fn law_loads_set_what_was_not_set<E>(
    s: &mut QuotaState,
    id: &str,
    outcome: Result<u64, (ErrorKind, E)>,
    r: Result<(), E>,
    other: Seq<char>,
)
    requires
        call_ensures(QuotaState::finish_load::<E>, (s, id, outcome), r),
    ensures
        r is Err <==> (outcome matches Err((kind, _)) && kind != ErrorKind::NotFound),
        r matches Err(e) ==> (outcome matches Err((_, f)) && e == f),
        old(s)@.contains_key(id@) && old(s)@[id@] is Ready ==> final(s)@.contains_key(id@)
            && final(s)@[id@] == old(s)@[id@],
        !(old(s)@.contains_key(id@) && old(s)@[id@] is Ready) ==> {
            &&& r is Err <==> !final(s)@.contains_key(id@)
            &&& outcome matches Ok(n) ==> (final(s)@[id@] matches Bucket::Ready(c) && c.bytes == n
                && !c.dirty)
            &&& outcome is Err && r is Ok ==> (final(s)@[id@] matches Bucket::Ready(c) && c.bytes
                == 0 && !c.dirty)
        },
        other != id@ ==> {
            &&& final(s)@.contains_key(other) == old(s)@.contains_key(other)
            &&& old(s)@.contains_key(other) ==> final(s)@[other] == old(s)@[other]
        },
{
}

/// A reset sets a total to zero, whatever it was and whether or not it was
/// known, and has it written back.
pub proof fn law_resets_start_from_zero(
    s: &mut QuotaState,
    c: &mut QuotaState,
    id: &str,
    other: Seq<char>,
)
    requires
        call_ensures(QuotaState::reset, (s, id), ()),
        call_ensures(QuotaState::clear, (c, id), ()),
    ensures
        final(s)@.contains_key(id@) && (final(s)@[id@] matches Bucket::Ready(n) && n.bytes == 0
            && n.dirty),
        final(c)@.contains_key(id@) && (final(c)@[id@] matches Bucket::Ready(n) && n.bytes == 0
            && n.dirty),
        other != id@ ==> {
            &&& final(s)@.contains_key(other) == old(s)@.contains_key(other)
            &&& old(s)@.contains_key(other) ==> final(s)@[other] == old(s)@[other]
            &&& final(c)@.contains_key(other) == old(c)@.contains_key(other)
            &&& old(c)@.contains_key(other) ==> final(c)@[other] == old(c)@[other]
        },
{
}

/// A total that changed is taken for writing once, until it changes again or
/// could not be written. Neither taking it nor that changes the total, and a
/// total that did not change is not taken.
pub proof fn law_totals_are_written_until_they_are(
    s: &mut QuotaState,
    id: &str,
    r: Option<u64>,
    f: &mut QuotaState,
    other: Seq<char>,
)
    requires
        call_ensures(QuotaState::take_dirty, (s, id), r),
        call_ensures(QuotaState::sync_failed, (f, id), ()),
    ensures
        r is Some <==> old(s)@.contains_key(id@) && (old(s)@[id@] matches Bucket::Ready(c)
            && c.dirty),
        r matches Some(n) ==> (old(s)@[id@] matches Bucket::Ready(c) && n == c.bytes) && (
        final(s)@[id@] matches Bucket::Ready(d) && d.bytes == n && !d.dirty),
        r is None ==> final(s)@ == old(s)@,
        old(f)@.contains_key(id@) ==> (old(f)@[id@] matches Bucket::Ready(c) ==> (
        final(f)@[id@] matches Bucket::Ready(d) && d.bytes == c.bytes && d.dirty)),
        !old(f)@.contains_key(id@) || old(f)@[id@] is Loading ==> final(f)@ == old(f)@,
        other != id@ ==> {
            &&& final(s)@.contains_key(other) == old(s)@.contains_key(other)
            &&& old(s)@.contains_key(other) ==> final(s)@[other] == old(s)@[other]
            &&& final(f)@.contains_key(other) == old(f)@.contains_key(other)
            &&& old(f)@.contains_key(other) ==> final(f)@[other] == old(f)@[other]
        },
{
}

/// After a round of writing back, the tracker holds the total of every id that
/// had changed, and of every other id what it held; no total changes, and none
/// is left to be written.
pub proof fn law_rounds_write_every_changed_total(
    s: &mut QuotaState,
    t: &mut MemoryTracker,
    id: Seq<char>,
)
    requires
        call_ensures(sync_all, (s, t), ()),
    ensures
        old(s)@.contains_key(id) <==> final(s)@.contains_key(id),
        old(s)@.contains_key(id) && old(s)@[id] is Loading ==> final(s)@[id] is Loading,
        old(s)@.contains_key(id) ==> (old(s)@[id] matches Bucket::Ready(c) ==> (
        final(s)@[id] matches Bucket::Ready(d) && d.bytes == c.bytes && !d.dirty)),
        old(s)@.contains_key(id) && (old(s)@[id] matches Bucket::Ready(c) && c.dirty) ==> final(t)@.contains_key(id) && (old(s)@[id] matches Bucket::Ready(c) && final(t)@[id] == c.bytes),
        !(old(s)@.contains_key(id) && (old(s)@[id] matches Bucket::Ready(c) && c.dirty)) ==> {
            &&& final(t)@.contains_key(id) == old(t)@.contains_key(id)
            &&& old(t)@.contains_key(id) ==> final(t)@[id] == old(t)@[id]
        },
{
    let args = (s, t);
    assert(final(s)@.dom().contains(id) == old(s)@.dom().contains(id));
    assert(touch_of(final(args.0)@, id) == touch_of(s@, id));
    assert(stored(final(args.1)@, id) == if is_dirty(s@, id) {
        counter_of(s@, id).bytes
    } else {
        stored(t@, id)
    });
    assert(final(args.1)@.contains_key(id) <==> t@.contains_key(id) || is_dirty(s@, id));
}

} // verus!
