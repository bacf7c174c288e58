//! Totals that are kept in a table.
//!
//! A table holds signed numbers, so limits and sizes stay within them.

use crate::error::{Error, ErrorKind, ErrorView};
use crate::quota::counter::{quota_exceeded_error, quota_exceeded_view, total_after};
use crate::strmap::StrMap;
use vstd::prelude::*;

verus! {

/// The greatest number that a table holds.
pub const MAX_STORED: u64 = 0x7fff_ffff_ffff_ffff;

/// The limit that a table keeps for `limit`.
pub open spec fn kept_limit(limit: u64) -> u64 {
    if limit < MAX_STORED {
        limit
    } else {
        MAX_STORED
    }
}

/// The total of a row, zero where there is none.
pub open spec fn row_total(row: Option<u64>) -> u64 {
    match row {
        Some(bytes) => bytes,
        None => 0,
    }
}

/// The total of a row.
pub fn bytes_written(row: Option<u64>) -> (r: u64)
    ensures
        r == row_total(row),
{
    match row {
        Some(bytes) => bytes,
        None => 0,
    }
}

/// Judges the replacement of `old_size` bytes by `new_size` bytes, where `row`
/// is what the table holds for `id`: gives the total to store. Refuses what
/// exceeds the limit.
pub fn apply_delta(row: Option<u64>, id: &str, old_size: u64, new_size: u64, limit: u64) -> (r:
    Result<u64, Error>)
    requires
        row matches Some(bytes) ==> bytes <= MAX_STORED,
        old_size <= MAX_STORED,
        new_size <= MAX_STORED,
    ensures
        match r {
            Ok(total) => {
                &&& total == total_after(row_total(row), old_size, new_size)
                &&& total <= kept_limit(limit)
            },
            Err(e) => {
                let needed = total_after(row_total(row), old_size, new_size);
                &&& needed > kept_limit(limit)
                &&& e@ == quota_exceeded_view(id@, row_total(row), needed, kept_limit(limit))
            },
        },
{
    let current = bytes_written(row);
    let most = if limit < MAX_STORED {
        limit
    } else {
        MAX_STORED
    };
    let left = if current >= old_size {
        current - old_size
    } else {
        0
    };
    let total = left + new_size;
    if total > most {
        return Err(quota_exceeded_error(id, current, total, most));
    }
    Ok(total)
}

/// The table of totals.
#[derive(Debug)]
pub struct QuotaTable {
    rows: StrMap<u64>,
}

impl View for QuotaTable {
    type V = Map<Seq<char>, u64>;

    closed spec fn view(&self) -> Map<Seq<char>, u64> {
        self.rows@
    }
}

/// What a table holds for `id`.
pub open spec fn row_of(rows: Map<Seq<char>, u64>, id: Seq<char>) -> Option<u64> {
    if rows.contains_key(id) {
        Some(rows[id])
    } else {
        None
    }
}

impl QuotaTable {
    /// Whether every total is one that a table can hold.
    #[verifier::type_invariant]
    spec fn inv(self) -> bool {
        forall|id: Seq<char>| #[trigger] self.rows@.contains_key(id) ==> self.rows@[id] <= MAX_STORED
    }

    /// A table without rows.
    pub fn new() -> (r: Self)
        ensures
            r@ == Map::<Seq<char>, u64>::empty(),
    {
        QuotaTable { rows: StrMap::new() }
    }

    /// The total of `id`; zero where there is none.
    pub fn get_bytes_written(&self, id: &str) -> (r: u64)
        ensures
            r == row_total(row_of(self@, id@)),
    {
        match self.rows.get(id) {
            Some(bytes) => *bytes,
            None => 0,
        }
    }

    /// Takes the row of `id` out.
    pub fn clear(&mut self, id: &str)
        ensures
            final(self)@ == old(self)@.remove(id@),
    {
        proof {
            use_type_invariant(&*self);
        }
        let mut rows: StrMap<u64> = StrMap::new();
        std::mem::swap(&mut rows, &mut self.rows);
        rows.remove(id);
        self.rows = rows;
    }

    /// Replaces `old_size` bytes by `new_size` bytes under `id` and returns the
    /// new total. Refuses, and changes nothing, where that exceeds the limit.
    pub fn apply_delta(&mut self, id: &str, old_size: u64, new_size: u64, limit: u64) -> (r: Result<
        u64,
        Error,
    >)
        requires
            old_size <= MAX_STORED,
            new_size <= MAX_STORED,
        ensures
            ({
                let current = row_total(row_of(old(self)@, id@));
                let needed = total_after(current, old_size, new_size);
                match r {
                    Ok(total) => {
                        &&& total == needed
                        &&& needed <= kept_limit(limit)
                        &&& final(self)@ == old(self)@.insert(id@, needed)
                    },
                    Err(e) => {
                        &&& needed > kept_limit(limit)
                        &&& e@ == quota_exceeded_view(id@, current, needed, kept_limit(limit))
                        &&& final(self)@ == old(self)@
                    },
                }
            }),
    {
        proof {
            use_type_invariant(&*self);
        }
        let row = match self.rows.get(id) {
            Some(bytes) => Some(*bytes),
            None => None,
        };
        match apply_delta(row, id, old_size, new_size, limit) {
            Ok(total) => {
                let mut rows: StrMap<u64> = StrMap::new();
                std::mem::swap(&mut rows, &mut self.rows);
                rows.insert(id.to_owned(), total);
                self.rows = rows;
                Ok(total)
            },
            Err(e) => Err(e),
        }
    }
}

/// What is answered where the table could not be used.
pub open spec fn db_error_view(context: Seq<char>) -> ErrorView {
    ErrorView::plain(ErrorKind::Unexpected, "Failed to "@ + context)
}

/// The table could not be used for what `context` says.
pub fn db_error(context: &'static str) -> (r: Error)
    ensures
        r@ == db_error_view(context@),
{
    Error::new(ErrorKind::Unexpected, "Failed to ".to_owned().concat(context))
}

// ── Laws ────────────────────────────────────────────────────────────────────

/// A replacement is stored exactly where the total stays within the limit, and
/// within what a table can hold: what was there is taken off, as far as it was
/// counted, and what is there now is added. Otherwise no row changes, and no
/// other row ever does.
pub proof fn law_rows_stay_within_the_limit(
    t: &mut QuotaTable,
    id: &str,
    old_size: u64,
    new_size: u64,
    limit: u64,
    r: Result<u64, Error>,
    other: Seq<char>,
)
    requires
        old_size <= 0x7fff_ffff_ffff_ffff,
        new_size <= 0x7fff_ffff_ffff_ffff,
        old(t)@.contains_key(id@) ==> old(t)@[id@] <= 0x7fff_ffff_ffff_ffff,
        call_ensures(QuotaTable::apply_delta, (t, id, old_size, new_size, limit), r),
    ensures
        ({
            let current: int = if old(t)@.contains_key(id@) {
                old(t)@[id@] as int
            } else {
                0
            };
            let needed: int = if current >= old_size {
                current - old_size + new_size
            } else {
                new_size as int
            };
            &&& r is Ok <==> needed <= limit && needed <= 0x7fff_ffff_ffff_ffff
            &&& r matches Ok(total) ==> total == needed && final(t)@.contains_key(id@)
                && final(t)@[id@] == needed
            &&& r matches Err(e) ==> final(t)@ == old(t)@ && e.kind == ErrorKind::RateLimited
        }),
        other != id@ ==> {
            &&& final(t)@.contains_key(other) == old(t)@.contains_key(other)
            &&& old(t)@.contains_key(other) ==> final(t)@[other] == old(t)@[other]
        },
{
}

/// A replacement is judged by its row alone, which counts as zero where it is
/// not there.
pub proof fn law_rows_are_judged_alone(
    row: Option<u64>,
    id: &str,
    old_size: u64,
    new_size: u64,
    limit: u64,
    r: Result<u64, Error>,
    current: u64,
)
    requires
        old_size <= 0x7fff_ffff_ffff_ffff,
        new_size <= 0x7fff_ffff_ffff_ffff,
        row matches Some(n) ==> n <= 0x7fff_ffff_ffff_ffff,
        call_ensures(apply_delta, (row, id, old_size, new_size, limit), r),
        call_ensures(bytes_written, (row,), current),
    ensures
        row matches Some(n) ==> current == n,
        row is None ==> current == 0,
        ({
            let needed: int = if current >= old_size {
                current - old_size + new_size
            } else {
                new_size as int
            };
            &&& r is Ok <==> needed <= limit && needed <= 0x7fff_ffff_ffff_ffff
            &&& r matches Ok(total) ==> total == needed
            &&& r matches Err(e) ==> e.kind == ErrorKind::RateLimited
        }),
{
}

/// A table gives back what is stored under an id, and zero once that was taken
/// out. Other rows stay.
pub proof fn law_rows_are_given_back(
    fresh: QuotaTable,
    t: &QuotaTable,
    id: &str,
    bytes: u64,
    c: &mut QuotaTable,
    gone: u64,
    other: Seq<char>,
)
    requires
        call_ensures(QuotaTable::new, (), fresh),
        call_ensures(QuotaTable::get_bytes_written, (t, id), bytes),
        call_ensures(QuotaTable::clear, (c, id), ()),
        call_ensures(QuotaTable::get_bytes_written, (&*final(c), id), gone),
    ensures
        !fresh@.contains_key(other),
        t@.contains_key(id@) ==> bytes == t@[id@],
        !t@.contains_key(id@) ==> bytes == 0,
        gone == 0,
        !final(c)@.contains_key(id@),
        other != id@ ==> {
            &&& final(c)@.contains_key(other) == old(c)@.contains_key(other)
            &&& old(c)@.contains_key(other) ==> final(c)@[other] == old(c)@[other]
        },
{
}

/// A failure of the table says what could not be done.
pub proof fn law_table_failures_say_what_failed(context: &'static str, e: Error)
    requires
        call_ensures(db_error, (context,), e),
    ensures
        e.kind == ErrorKind::Unexpected,
        e.message@ == "Failed to "@ + context@,
{
}

} // verus!
