//! Writes, copies and deletes under a limit.
//!
//! A write or a copy goes to a staging path next to its destination, so that
//! one that is refused or given up never touches the destination. It is
//! counted once, when it is finished, and only then moved into place.

use super::counter::{minus, quota_exceeded_view, total_after, QuotaCounter};
use super::state::{committed, counter_of, touch_of, touched, Bucket, QuotaState, Step, Touch};
use crate::error::Error;
use crate::text::{after_last, decimal, to_decimal};
use crate::vfs::Operation;
use vstd::prelude::*;

verus! {

/// A limit on the bytes that are counted under one id.
#[derive(Debug)]
pub struct QuotaLayer {
    pub id: String,
    pub limit: u64,
}

/// How the limit treats an operation of the store that it guards.
#[derive(Clone, Copy, Debug, PartialEq, Eq, Structural)]
pub enum Accounting {
    /// It changes no total and is passed on.
    PassedOn,
    /// It goes to a staging path and is counted when it is finished.
    Staged,
    /// It is passed on, and the sizes that it frees are subtracted.
    Freed,
}

impl QuotaLayer {
    /// A limit of `limit_bytes` on what is counted under `id`.
    pub fn new(id: &str, limit_bytes: u64) -> (r: Self)
        ensures
            r.id@ == id@,
            r.limit == limit_bytes,
    {
        QuotaLayer { id: id.to_owned(), limit: limit_bytes }
    }

    /// The total under this layer's id.
    pub fn current_bytes(&self, state: &mut QuotaState) -> (r: Step<u64>)
        ensures
            final(state)@ == touched(old(state)@, self.id@),
            match touch_of(old(state)@, self.id@) {
                Touch::Ready => r == Step::Done(counter_of(old(state)@, self.id@).bytes),
                Touch::Load => r is Load,
                Touch::Wait => r is Wait,
            },
    {
        state.current_bytes(self.id.as_str())
    }

    /// How `op` is treated. Directories occupy no bytes, and renaming gains and
    /// loses none.
    pub fn accounting(&self, op: Operation) -> (r: Accounting)
        ensures
            r == match op {
                Operation::Write | Operation::Copy => Accounting::Staged,
                Operation::Delete => Accounting::Freed,
                _ => Accounting::PassedOn,
            },
    {
        match op {
            Operation::Write | Operation::Copy => Accounting::Staged,
            Operation::Delete => Accounting::Freed,
            _ => Accounting::PassedOn,
        }
    }
}

// ── Staging paths ───────────────────────────────────────────────────────────

/// The staging path next to `path`.
pub open spec fn tmp_path(path: Seq<char>, nanos: u128, n: u64) -> Seq<char> {
    path + ".quota-tmp-"@ + decimal(nanos as nat) + "-"@ + decimal(n as nat)
}

/// The staging path next to `path`, given the time and a number that no other
/// staging path of this process has.
pub fn tmp_path_for(path: &str, nanos: u128, n: u64) -> (r: String)
    ensures
        r@ == tmp_path(path@, nanos, n),
{
    path.to_owned().concat(".quota-tmp-").concat(to_decimal(nanos).as_str()).concat("-").concat(
        to_decimal(n as u128).as_str(),
    )
}

/// What follows a try to move a staged object into place.
#[derive(Clone, Copy, Debug, PartialEq, Eq, Structural)]
pub enum RenameStep {
    /// It is in place.
    Placed,
    /// Remove the destination and try once more: some stores refuse to rename
    /// onto an object that exists.
    RemoveThenRetry,
    /// It cannot be moved.
    GiveUp,
}

/// What follows the first (`retried` is `false`) or the second try to move a
/// staged object into place.
pub fn after_rename(retried: bool, succeeded: bool) -> (r: RenameStep)
    ensures
        r == if succeeded {
            RenameStep::Placed
        } else if !retried {
            RenameStep::RemoveThenRetry
        } else {
            RenameStep::GiveUp
        },
{
    if succeeded {
        RenameStep::Placed
    } else if !retried {
        RenameStep::RemoveThenRetry
    } else {
        RenameStep::GiveUp
    }
}

// ── Writes and copies ───────────────────────────────────────────────────────

/// What follows the attempt to count a staged object.
#[derive(Debug)]
pub enum CloseStep {
    /// It was not counted: load the id from the tracker first.
    Load,
    /// It was not counted: another caller is loading the id.
    Wait,
    /// It is over the limit: remove the staged object.
    Reject { error: Error, remove: String },
    /// It was counted: move the staged object into place.
    Rename { from: String, to: String },
}

/// What [`CloseStep`] says and does for a staged object.
pub open spec fn closes(
    before: Map<Seq<char>, Bucket>,
    after: Map<Seq<char>, Bucket>,
    id: Seq<char>,
    limit: u64,
    old_size: u64,
    new_size: u64,
    staging: Seq<char>,
    dest: Seq<char>,
    step: CloseStep,
) -> bool {
    match touch_of(before, id) {
        Touch::Ready => {
            let current = counter_of(before, id).bytes;
            let needed = total_after(current, old_size, new_size);
            if needed <= limit {
                &&& step matches CloseStep::Rename { from, to } && from@ == staging && to@ == dest
                &&& after == before.insert(
                    id,
                    Bucket::Ready(QuotaCounter { bytes: needed, dirty: true }),
                )
            } else {
                &&& step matches CloseStep::Reject { error, remove } && error@
                    == quota_exceeded_view(id, current, needed, limit) && remove@ == staging
                &&& after == before
            }
        },
        Touch::Load => step is Load && after == touched(before, id),
        Touch::Wait => step is Wait && after == before,
    }
}

/// Counts a staged object that replaces `old_size` bytes by `new_size` bytes.
fn count_staged(
    state: &mut QuotaState,
    id: &str,
    limit: u64,
    old_size: u64,
    new_size: u64,
    staging: &str,
    dest: &str,
) -> (r: CloseStep)
    ensures
        closes(
            old(state)@,
            final(state)@,
            id@,
            limit,
            old_size,
            new_size,
            staging@,
            dest@,
            r,
        ),
{
    let ghost before = state@;
    match state.commit_write(id, limit, old_size, new_size) {
        Step::Done(Ok(_)) => CloseStep::Rename { from: staging.to_owned(), to: dest.to_owned() },
        Step::Done(Err(error)) => {
            assert(state@ =~= before);
            CloseStep::Reject { error, remove: staging.to_owned() }
        },
        Step::Load => CloseStep::Load,
        Step::Wait => CloseStep::Wait,
    }
}

/// The buckets once a staged object that was counted under an id, which is
/// therefore ready, could not be moved into place.
pub open spec fn taken_back(
    buckets: Map<Seq<char>, Bucket>,
    id: Seq<char>,
    old_size: u64,
    new_size: u64,
) -> Map<Seq<char>, Bucket> {
    committed(buckets, id, u64::MAX, new_size, old_size)
}

/// A write that was not counted yet.
#[derive(Debug)]
pub struct QuotaWriter {
    pub id: String,
    pub limit: u64,
    /// Where the object will stand.
    pub path: String,
    /// Where it is being written.
    pub tmp_path: String,
    /// Bytes written so far.
    pub written: u64,
}

impl QuotaWriter {
    /// Starts a write to `path` by way of `tmp_path`.
    pub fn new(layer: &QuotaLayer, path: &str, tmp_path: String) -> (r: Self)
        ensures
            r.id@ == layer.id@,
            r.limit == layer.limit,
            r.path@ == path@,
            r.tmp_path == tmp_path,
            r.written == 0,
    {
        QuotaWriter {
            id: layer.id.clone(),
            limit: layer.limit,
            path: path.to_owned(),
            tmp_path,
            written: 0,
        }
    }

    /// `len` more bytes were written to the staging path.
    pub fn wrote(&mut self, len: u64)
        requires
            old(self).written + len <= u64::MAX,
        ensures
            *final(self) == (QuotaWriter {
                written: (old(self).written + len) as u64,
                ..*old(self)
            }),
    {
        self.written = self.written + len;
    }

    /// The staged object is finished, and `old_size` bytes stand at the
    /// destination: counts the write.
    pub fn close(&mut self, state: &mut QuotaState, old_size: u64) -> (r: CloseStep)
        ensures
            closes(
                old(state)@,
                final(state)@,
                old(self).id@,
                old(self).limit,
                old_size,
                old(self).written,
                old(self).tmp_path@,
                old(self).path@,
                r,
            ),
            *final(self) == (QuotaWriter {
                written: if r is Reject {
                    0
                } else {
                    old(self).written
                },
                ..*old(self)
            }),
    {
        let step = count_staged(
            state,
            self.id.as_str(),
            self.limit,
            old_size,
            self.written,
            self.tmp_path.as_str(),
            self.path.as_str(),
        );
        match &step {
            CloseStep::Reject { .. } => {
                self.written = 0;
            },
            _ => {},
        }
        step
    }

    /// The object stands at its destination.
    pub fn placed(&mut self)
        ensures
            *final(self) == (QuotaWriter { written: 0, ..*old(self) }),
    {
        self.written = 0;
    }

    /// The object was counted but could not be moved into place: takes the
    /// count back, so that the total is not left overstated, and returns the
    /// staging path, which is to be removed.
    pub fn rename_failed(&mut self, state: &mut QuotaState, old_size: u64) -> (r: String)
        requires
            touch_of(old(state)@, old(self).id@) is Ready,
        ensures
            r@ == old(self).tmp_path@,
            final(state)@ == taken_back(old(state)@, old(self).id@, old_size, old(self).written),
            *final(self) == (QuotaWriter { written: 0, ..*old(self) }),
    {
        let _ = state.commit_write(self.id.as_str(), u64::MAX, self.written, old_size);
        self.written = 0;
        self.tmp_path.clone()
    }

    /// The write was given up: nothing was counted, and only the staging path
    /// is to be removed.
    pub fn abort(&mut self) -> (r: String)
        ensures
            r@ == old(self).tmp_path@,
            *final(self) == (QuotaWriter { written: 0, ..*old(self) }),
    {
        self.written = 0;
        self.tmp_path.clone()
    }
}

/// A copy that was not counted yet.
#[derive(Debug)]
pub struct QuotaCopier {
    pub id: String,
    pub limit: u64,
    pub from: String,
    /// Where the copy will stand.
    pub to: String,
    /// Where it is being made.
    pub tmp_to: String,
}

impl QuotaCopier {
    /// Starts a copy of `from` to `to` by way of `tmp_to`.
    pub fn new(layer: &QuotaLayer, from: &str, to: &str, tmp_to: String) -> (r: Self)
        ensures
            r.id@ == layer.id@,
            r.limit == layer.limit,
            r.from@ == from@,
            r.to@ == to@,
            r.tmp_to == tmp_to,
    {
        QuotaCopier {
            id: layer.id.clone(),
            limit: layer.limit,
            from: from.to_owned(),
            to: to.to_owned(),
            tmp_to,
        }
    }

    /// The staged copy is finished: counts it like a write of `from_size` bytes
    /// that replaces the `to_size` bytes at the destination.
    pub fn close(&self, state: &mut QuotaState, from_size: u64, to_size: u64) -> (r: CloseStep)
        ensures
            closes(
                old(state)@,
                final(state)@,
                self.id@,
                self.limit,
                to_size,
                from_size,
                self.tmp_to@,
                self.to@,
                r,
            ),
    {
        count_staged(
            state,
            self.id.as_str(),
            self.limit,
            to_size,
            from_size,
            self.tmp_to.as_str(),
            self.to.as_str(),
        )
    }

    /// The copy was counted but could not be moved into place: takes the count
    /// back, and returns the staging path, which is to be removed.
    pub fn rename_failed(&self, state: &mut QuotaState, from_size: u64, to_size: u64) -> (r: String)
        requires
            touch_of(old(state)@, self.id@) is Ready,
        ensures
            r@ == self.tmp_to@,
            final(state)@ == taken_back(old(state)@, self.id@, to_size, from_size),
    {
        let _ = state.commit_write(self.id.as_str(), u64::MAX, from_size, to_size);
        self.tmp_to.clone()
    }
}

// ── Deletes ─────────────────────────────────────────────────────────────────

/// The sum of all sizes.
pub open spec fn sum(sizes: Seq<u64>) -> nat
    decreases sizes.len(),
{
    if sizes.len() == 0 {
        0
    } else {
        sum(sizes.drop_last()) + sizes.last() as nat
    }
}

/// `bytes` without `freed`, or zero where that is too little.
pub open spec fn left_after(bytes: u64, freed: nat) -> u64 {
    if bytes >= freed {
        (bytes - freed) as u64
    } else {
        0
    }
}

/// Deletes whose sizes were not subtracted yet.
#[derive(Debug)]
pub struct QuotaDeleter {
    pub id: String,
    /// The sizes, taken before each delete was passed on.
    pub pending_sizes: Vec<u64>,
}

impl QuotaDeleter {
    /// Starts a batch of deletes.
    pub fn new(layer: &QuotaLayer) -> (r: Self)
        ensures
            r.id@ == layer.id@,
            r.pending_sizes@.len() == 0,
    {
        QuotaDeleter { id: layer.id.clone(), pending_sizes: Vec::new() }
    }

    /// An object of `size` bytes was put into the batch.
    pub fn queued(&mut self, size: u64)
        ensures
            final(self).id@ == old(self).id@,
            final(self).pending_sizes@ == old(self).pending_sizes@.push(size),
    {
        self.pending_sizes.push(size);
    }

    /// The store has deleted the whole batch: subtracts all sizes. Where the id
    /// must be loaded first, nothing is subtracted and the sizes are kept.
    pub fn close(&mut self, state: &mut QuotaState) -> (r: Step<()>)
        ensures
            final(self).id@ == old(self).id@,
            if old(self).pending_sizes@.len() == 0 {
                &&& r is Done
                &&& final(state)@ == old(state)@
                &&& final(self).pending_sizes@ == old(self).pending_sizes@
            } else {
                match touch_of(old(state)@, old(self).id@) {
                    Touch::Ready => {
                        &&& r is Done
                        &&& final(self).pending_sizes@.len() == 0
                        &&& final(state)@ == old(state)@.insert(
                            old(self).id@,
                            Bucket::Ready(
                                QuotaCounter {
                                    bytes: left_after(
                                        counter_of(old(state)@, old(self).id@).bytes,
                                        sum(old(self).pending_sizes@),
                                    ),
                                    dirty: true,
                                },
                            ),
                        )
                    },
                    Touch::Load => {
                        &&& r is Load
                        &&& final(state)@ == touched(old(state)@, old(self).id@)
                        &&& final(self).pending_sizes@ == old(self).pending_sizes@
                    },
                    Touch::Wait => {
                        &&& r is Wait
                        &&& final(state)@ == old(state)@
                        &&& final(self).pending_sizes@ == old(self).pending_sizes@
                    },
                }
            },
    {
        if self.pending_sizes.len() == 0 {
            return Step::Done(());
        }
        match state.touch(self.id.as_str()) {
            Touch::Load => {
                return Step::Load;
            },
            Touch::Wait => {
                return Step::Wait;
            },
            Touch::Ready => {},
        }
        let ghost before = state@;
        let ghost id = self.id@;
        let ghost all = self.pending_sizes@;
        let mut i: usize = 0;
        while i < self.pending_sizes.len()
            invariant
                i <= all.len(),
                all.len() > 0,
                all == self.pending_sizes@,
                id == self.id@,
                touch_of(before, id) is Ready,
                i == 0 ==> state@ == before,
                i > 0 ==> state@ == before.insert(
                    id,
                    Bucket::Ready(
                        QuotaCounter {
                            bytes: left_after(
                                counter_of(before, id).bytes,
                                sum(all.take(i as int)),
                            ),
                            dirty: true,
                        },
                    ),
                ),
            decreases all.len() - i,
        {
            let ghost s0 = state@;
            let size = self.pending_sizes[i];
            let _ = state.commit_delete(self.id.as_str(), size);
            proof {
                assert(all.take(i + 1).drop_last() =~= all.take(i as int));
                assert(all.take(0) =~= Seq::empty());
                assert(left_after(counter_of(before, id).bytes, sum(all.take(i + 1))) == minus(
                    counter_of(s0, id).bytes,
                    size,
                ));
                assert(state@ =~= before.insert(id, state@[id]));
            }
            i += 1;
        }
        assert(all.take(all.len() as int) =~= all);
        self.pending_sizes = Vec::new();
        Step::Done(())
    }

    /// The id could not be loaded: the sizes are given up.
    pub fn discard(&mut self)
        ensures
            final(self).id@ == old(self).id@,
            final(self).pending_sizes@.len() == 0,
    {
        self.pending_sizes = Vec::new();
    }
}

// ── Laws ────────────────────────────────────────────────────────────────────

/// A staging path is never the path that it stands for, and two staging paths
/// with different numbers differ, whatever they stand for.
pub proof fn law_staging_paths_differ(
    path: Seq<char>,
    nanos: u128,
    n: u64,
    other: Seq<char>,
    other_nanos: u128,
    m: u64,
)
    ensures
        tmp_path(path, nanos, n) != path,
        n != m ==> tmp_path(path, nanos, n) != tmp_path(other, other_nanos, m),
{
    lemma_staging_number(path, nanos, n);
    lemma_staging_number(other, other_nanos, m);
    crate::text::lemma_decimal_digits(n as nat);
    if n != m {
        if decimal(n as nat) == decimal(m as nat) {
            crate::text::lemma_decimal_injective(n as nat, m as nat);
        }
    }
    reveal_strlit("-");
    assert(tmp_path(path, nanos, n).len() > path.len());
}

/// What follows the last dash of a staging path is its number.
proof fn lemma_staging_number(path: Seq<char>, nanos: u128, n: u64)
    ensures
        after_last(tmp_path(path, nanos, n), '-') == decimal(n as nat),
{
    let front = path + ".quota-tmp-"@ + decimal(nanos as nat);
    let digits = decimal(n as nat);
    let s = tmp_path(path, nanos, n);
    reveal_strlit("-");
    crate::text::lemma_decimal_digits(n as nat);
    let k = front.len() as int + 1;
    assert(s.skip(k) =~= digits);
    assert(s[k - 1] == '-');
    assert forall|j: int| k <= j < s.len() implies s[j] != '-' by {
        assert(s[j] == digits[j - k]);
    }
    crate::text::lemma_after_last(s, '-', k);
}

/// A write or copy that was counted and then taken back leaves every total as
/// it was before.
pub proof fn law_taking_back_restores(
    buckets: Map<Seq<char>, Bucket>,
    id: Seq<char>,
    limit: u64,
    old_size: u64,
    new_size: u64,
)
    requires
        touch_of(buckets, id) is Ready,
        old_size <= counter_of(buckets, id).bytes,
        counter_of(buckets, id).bytes - old_size + new_size <= limit,
    ensures
        ({
            let after = taken_back(
                committed(buckets, id, limit, old_size, new_size),
                id,
                old_size,
                new_size,
            );
            &&& counter_of(after, id).bytes == counter_of(buckets, id).bytes
            &&& forall|other: Seq<char>|
                other != id ==> #[trigger] after[other] == buckets[other]
        }),
{
}

/// Deleting objects in one batch subtracts as much as deleting them one by one
/// in two batches.
pub proof fn law_batches_add_up(bytes: u64, first: Seq<u64>, second: Seq<u64>)
    ensures
        left_after(bytes, sum(first + second)) == left_after(
            left_after(bytes, sum(first)),
            sum(second),
        ),
{
    lemma_sum_add(first, second);
}

/// The sum of two lists put together.
proof fn lemma_sum_add(a: Seq<u64>, b: Seq<u64>)
    ensures
        sum(a + b) == sum(a) + sum(b),
    decreases b.len(),
{
    if b.len() == 0 {
        assert(a + b =~= a);
    } else {
        assert((a + b).drop_last() =~= a + b.drop_last());
        lemma_sum_add(a, b.drop_last());
    }
}

/// A staged write that is finished is counted exactly where the total stays
/// within the limit of its layer, and only then moved from its staging path to
/// its destination. One that is over the limit counts nothing, and only its
/// staging path is removed. Before the id is loaded, neither happens.
pub proof fn law_writes_are_placed_within_the_limit(
    w: &mut QuotaWriter,
    s: &mut QuotaState,
    old_size: u64,
    r: CloseStep,
    other: Seq<char>,
)
    requires
        call_ensures(QuotaWriter::close, (w, s, old_size), r),
    ensures
        r is Load <==> !old(s)@.contains_key(old(w).id@),
        r is Wait <==> old(s)@.contains_key(old(w).id@) && old(s)@[old(w).id@] is Loading,
        old(s)@.contains_key(old(w).id@) ==> (old(s)@[old(w).id@] matches Bucket::Ready(c) ==> {
            let kept: int = if c.bytes >= old_size {
                c.bytes - old_size
            } else {
                0
            };
            let needed: int = if kept + old(w).written <= u64::MAX {
                kept + old(w).written
            } else {
                u64::MAX as int
            };
            &&& r is Rename <==> needed <= old(w).limit
            &&& r is Reject <==> needed > old(w).limit
            &&& r is Rename ==> (final(s)@[old(w).id@] matches Bucket::Ready(d) && d.bytes == needed
                && d.dirty)
            &&& r is Reject ==> final(s)@[old(w).id@] == old(s)@[old(w).id@]
        }),
        r matches CloseStep::Rename { from, to } ==> from@ == old(w).tmp_path@ && to@ == old(w).path@,
        r matches CloseStep::Reject { error, remove } ==> remove@ == old(w).tmp_path@ && error.kind
            == crate::error::ErrorKind::RateLimited,
        r is Reject ==> final(w).written == 0,
        !(r is Reject) ==> final(w).written == old(w).written,
        final(w).id@ == old(w).id@ && final(w).limit == old(w).limit && final(w).path@
            == old(w).path@ && final(w).tmp_path@ == old(w).tmp_path@,
        other != old(w).id@ ==> {
            &&& final(s)@.contains_key(other) == old(s)@.contains_key(other)
            &&& old(s)@.contains_key(other) ==> final(s)@[other] == old(s)@[other]
        },
{
}

/// A staged copy is counted like a write of what it copies over what stands at
/// its destination.
pub proof fn law_copies_are_placed_within_the_limit(
    c: &QuotaCopier,
    s: &mut QuotaState,
    from_size: u64,
    to_size: u64,
    r: CloseStep,
    other: Seq<char>,
)
    requires
        call_ensures(QuotaCopier::close, (c, s, from_size, to_size), r),
    ensures
        r is Load <==> !old(s)@.contains_key(c.id@),
        r is Wait <==> old(s)@.contains_key(c.id@) && old(s)@[c.id@] is Loading,
        old(s)@.contains_key(c.id@) ==> (old(s)@[c.id@] matches Bucket::Ready(n) ==> {
            let kept: int = if n.bytes >= to_size {
                n.bytes - to_size
            } else {
                0
            };
            let needed: int = if kept + from_size <= u64::MAX {
                kept + from_size
            } else {
                u64::MAX as int
            };
            &&& r is Rename <==> needed <= c.limit
            &&& r is Reject <==> needed > c.limit
            &&& r is Rename ==> (final(s)@[c.id@] matches Bucket::Ready(d) && d.bytes == needed
                && d.dirty)
            &&& r is Reject ==> final(s)@[c.id@] == old(s)@[c.id@]
        }),
        r matches CloseStep::Rename { from, to } ==> from@ == c.tmp_to@ && to@ == c.to@,
        r matches CloseStep::Reject { error, remove } ==> remove@ == c.tmp_to@ && error.kind
            == crate::error::ErrorKind::RateLimited,
        other != c.id@ ==> {
            &&& final(s)@.contains_key(other) == old(s)@.contains_key(other)
            &&& old(s)@.contains_key(other) ==> final(s)@[other] == old(s)@[other]
        },
{
}

/// A write or a copy that was counted and could not be moved into place leaves
/// the total as it was before it was counted, where it held what was replaced.
pub proof fn law_failed_moves_count_nothing(
    w: &mut QuotaWriter,
    s: &mut QuotaState,
    old_size: u64,
    step: CloseStep,
    w2: &mut QuotaWriter,
    s2: &mut QuotaState,
    removed: String,
)
    requires
        old(s)@.contains_key(old(w).id@),
        old(s)@[old(w).id@] matches Bucket::Ready(c) && c.bytes >= old_size && c.bytes - old_size
            + old(w).written <= u64::MAX,
        call_ensures(QuotaWriter::close, (w, s, old_size), step),
        step is Rename,
        *old(w2) == *final(w),
        *old(s2) == *final(s),
        call_ensures(QuotaWriter::rename_failed, (w2, s2, old_size), removed),
    ensures
        removed@ == old(w).tmp_path@,
        old(s)@[old(w).id@] matches Bucket::Ready(c) && (
        final(s2)@[old(w).id@] matches Bucket::Ready(d) && d.bytes == c.bytes),
        final(w2).written == 0,
{
}

/// The same holds of a copy.
pub proof fn law_failed_copies_count_nothing(
    c: &QuotaCopier,
    s: &mut QuotaState,
    from_size: u64,
    to_size: u64,
    step: CloseStep,
    s2: &mut QuotaState,
    removed: String,
)
    requires
        old(s)@.contains_key(c.id@),
        old(s)@[c.id@] matches Bucket::Ready(n) && n.bytes >= to_size && n.bytes - to_size
            + from_size <= u64::MAX,
        call_ensures(QuotaCopier::close, (c, s, from_size, to_size), step),
        step is Rename,
        *old(s2) == *final(s),
        call_ensures(QuotaCopier::rename_failed, (c, s2, from_size, to_size), removed),
    ensures
        removed@ == c.tmp_to@,
        old(s)@[c.id@] matches Bucket::Ready(n) && (final(s2)@[c.id@] matches Bucket::Ready(d)
            && d.bytes == n.bytes),
{
}

/// A batch of deletes takes off the sizes of all that it holds, down to zero,
/// once. Before the id is loaded it keeps them.
pub proof fn law_deleted_sizes_are_taken_off_once(
    d: &mut QuotaDeleter,
    s: &mut QuotaState,
    r: Step<()>,
    other: Seq<char>,
)
    requires
        call_ensures(QuotaDeleter::close, (d, s), r),
        old(d).pending_sizes@.len() > 0,
    ensures
        r is Load <==> !old(s)@.contains_key(old(d).id@),
        r is Wait <==> old(s)@.contains_key(old(d).id@) && old(s)@[old(d).id@] is Loading,
        !(r is Done) ==> final(d).pending_sizes@ == old(d).pending_sizes@,
        r is Done ==> {
            let freed = old(d).pending_sizes@.fold_left(0int, |n: int, size: u64| n + size);
            &&& final(d).pending_sizes@.len() == 0
            &&& old(s)@[old(d).id@] matches Bucket::Ready(c) && (
            final(s)@[old(d).id@] matches Bucket::Ready(n) && n.dirty && n.bytes == if c.bytes
                >= freed {
                c.bytes - freed
            } else {
                0
            })
        },
        final(d).id@ == old(d).id@,
        other != old(d).id@ ==> {
            &&& final(s)@.contains_key(other) == old(s)@.contains_key(other)
            &&& old(s)@.contains_key(other) ==> final(s)@[other] == old(s)@[other]
        },
{
    lemma_sum_is(d.pending_sizes@);
}

/// The sum of sizes, one after the other.
proof fn lemma_sum_is(sizes: Seq<u64>)
    ensures
        sizes.fold_left(0int, |n: int, size: u64| n + size) == sum(sizes),
    decreases sizes.len(),
{
    reveal(Seq::fold_left);
    if sizes.len() > 0 {
        lemma_sum_is(sizes.drop_last());
    }
}

/// Nothing is taken off for an empty batch; what is put into a batch is kept in
/// order; and one that is given up holds nothing.
pub proof fn law_batches_hold_what_was_put_in(
    layer: &QuotaLayer,
    fresh: QuotaDeleter,
    d: &mut QuotaDeleter,
    size: u64,
    empty: &mut QuotaDeleter,
    s: &mut QuotaState,
    r: Step<()>,
    dropped: &mut QuotaDeleter,
)
    requires
        call_ensures(QuotaDeleter::new, (layer,), fresh),
        call_ensures(QuotaDeleter::queued, (d, size), ()),
        old(empty).pending_sizes@.len() == 0,
        call_ensures(QuotaDeleter::close, (empty, s), r),
        call_ensures(QuotaDeleter::discard, (dropped,), ()),
    ensures
        fresh.id@ == layer.id@ && fresh.pending_sizes@.len() == 0,
        final(d).id@ == old(d).id@ && final(d).pending_sizes@ == old(d).pending_sizes@.push(size),
        r is Done && final(s)@ == old(s)@,
        final(dropped).id@ == old(dropped).id@ && final(dropped).pending_sizes@.len() == 0,
{
}

/// Writes and copies start under the id and limit of their layer, with nothing
/// written, and count what is written to their staging path, which is what is
/// removed when they are given up.
pub proof fn law_staged_writes_count_what_is_written(
    layer: &QuotaLayer,
    path: &str,
    tmp: String,
    w: QuotaWriter,
    from: &str,
    c: QuotaCopier,
    more: &mut QuotaWriter,
    len: u64,
    given_up: &mut QuotaWriter,
    removed: String,
    placed: &mut QuotaWriter,
)
    requires
        call_ensures(QuotaWriter::new, (layer, path, tmp), w),
        call_ensures(QuotaCopier::new, (layer, from, path, tmp), c),
        old(more).written + len <= u64::MAX,
        call_ensures(QuotaWriter::wrote, (more, len), ()),
        call_ensures(QuotaWriter::abort, (given_up,), removed),
        call_ensures(QuotaWriter::placed, (placed,), ()),
    ensures
        w.id@ == layer.id@ && w.limit == layer.limit && w.path@ == path@ && w.tmp_path@ == tmp@
            && w.written == 0,
        c.id@ == layer.id@ && c.limit == layer.limit && c.from@ == from@ && c.to@ == path@
            && c.tmp_to@ == tmp@,
        final(more).written == old(more).written + len,
        final(more).id@ == old(more).id@ && final(more).limit == old(more).limit && final(more).path@
            == old(more).path@ && final(more).tmp_path@ == old(more).tmp_path@,
        removed@ == old(given_up).tmp_path@ && final(given_up).written == 0,
        final(placed).written == 0,
{
}

/// Writes and copies are counted when they are finished, deletes free what they
/// delete, and nothing else changes a total. A layer reads the total of its own
/// id.
pub proof fn law_only_bytes_are_counted(
    id: &str,
    limit: u64,
    layer: QuotaLayer,
    op: Operation,
    r: Accounting,
    s: &mut QuotaState,
    bytes: Step<u64>,
)
    requires
        call_ensures(QuotaLayer::new, (id, limit), layer),
        call_ensures(QuotaLayer::accounting, (&layer, op), r),
        call_ensures(QuotaLayer::current_bytes, (&layer, s), bytes),
    ensures
        layer.id@ == id@ && layer.limit == limit,
        r == Accounting::Staged <==> op == Operation::Write || op == Operation::Copy,
        r == Accounting::Freed <==> op == Operation::Delete,
        bytes matches Step::Done(n) ==> (old(s)@[id@] matches Bucket::Ready(c) && n == c.bytes),
        bytes is Load <==> !old(s)@.contains_key(id@),
{
}

/// A staged object is moved once, and once more after its destination was
/// removed; then it is given up.
pub proof fn law_moves_are_tried_twice(
    ok: RenameStep,
    ok_again: RenameStep,
    failed: RenameStep,
    failed_again: RenameStep,
)
    requires
        call_ensures(after_rename, (false, true), ok),
        call_ensures(after_rename, (true, true), ok_again),
        call_ensures(after_rename, (false, false), failed),
        call_ensures(after_rename, (true, false), failed_again),
    ensures
        ok == RenameStep::Placed,
        ok_again == RenameStep::Placed,
        failed == RenameStep::RemoveThenRetry,
        failed_again == RenameStep::GiveUp,
{
}

/// A staging path stands next to the path that it is for, in the same
/// directory, and bears the time and the number that it was given.
pub proof fn law_staging_paths_stand_next_to_theirs(path: &str, nanos: u128, n: u64, r: String)
    requires
        call_ensures(tmp_path_for, (path, nanos, n), r),
    ensures
        r@ == path@ + ".quota-tmp-"@ + decimal(nanos as nat) + "-"@ + decimal(n as nat),
{
}

} // verus!
