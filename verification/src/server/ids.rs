//! Identifiers of jobs, handles and snapshots.

use crate::status::{invalid, Status, StatusView};
use vstd::prelude::*;

verus! {

// ── Texts ───────────────────────────────────────────────────────────────────

/// The lower-case hexadecimal digit `d`.
pub open spec fn hex_digit(d: nat) -> char {
    if d < 10 {
        ('0' as nat + d) as char
    } else {
        ('a' as nat + d - 10) as char
    }
}

/// The last `n` hexadecimal digits of `v`.
pub open spec fn hex_text(v: nat, n: nat) -> Seq<char>
    decreases n,
{
    if n == 0 {
        Seq::empty()
    } else {
        hex_text(v / 16, (n - 1) as nat).push(hex_digit(v % 16))
    }
}

/// The text of an identifier: its 32 digits in groups of 8, 4, 4, 4 and 12.
pub open spec fn uuid_text(id: u128) -> Seq<char> {
    let h = hex_text(id as nat, 32);
    h.subrange(0, 8).push('-') + h.subrange(8, 12).push('-') + h.subrange(12, 16).push('-')
        + h.subrange(16, 20).push('-') + h.subrange(20, 32)
}

/// The identifier that a text stands for, or why it stands for none.
pub uninterp spec fn parsed_uuid(s: Seq<char>) -> Result<u128, Seq<char>>;

/// Whether `s` is read as the identifier `id`.
pub open spec fn stands_for(s: Seq<char>, id: u128) -> bool {
    parsed_uuid(s) == Ok::<u128, Seq<char>>(id)
}

/// Whether `id` is marked as a random identifier of the usual layout.
pub open spec fn is_drawn(id: u128) -> bool {
    &&& (id as nat / 0x1000_0000_0000_0000_0000) % 16 == 4
    &&& (id as nat / 0x4000_0000_0000_0000) % 4 == 2
}

// ── Trusted items ───────────────────────────────────────────────────────────

/// Calls `uuid::Uuid::new_v4`, which makes an identifier at random. Claimed of
/// it: it is marked as a random identifier of the usual layout.
#[verifier::external_body]
fn new_uuid() -> (r: u128)
    ensures
        is_drawn(r),
{
    uuid::Uuid::new_v4().as_u128()
}

/// Calls `uuid::Uuid::parse_str`. Claimed of it: its outcome, an identifier or
/// the text of its error, depends on the text alone.
#[verifier::external_body]
fn parse_uuid(s: &str) -> (r: Result<u128, String>)
    ensures
        match r {
            Ok(id) => stands_for(s@, id),
            Err(text) => parsed_uuid(s@) matches Err(t) && t == text@,
        },
{
    match uuid::Uuid::parse_str(s) {
        Ok(id) => Ok(id.as_u128()),
        Err(e) => Err(e.to_string()),
    }
}

/// Calls the `Display` of `uuid::Uuid`. Claimed of it: it writes the digits in
/// groups, in lower case, and `uuid::Uuid::parse_str` reads that text as the
/// same identifier.
#[verifier::external_body]
fn show_uuid(id: u128) -> (r: String)
    ensures
        r@ == uuid_text(id),
        stands_for(r@, id),
{
    uuid::Uuid::from_u128(id).to_string()
}

/// Calls the `FromStr` of `rustic_core::repofile::SnapshotId`. Claimed of it:
/// it takes exactly the texts of 64 hexadecimal digits, and the identifier that
/// it gives is written with the same digits in lower case. What the text of its
/// error says is left open, since it holds a backtrace where the environment
/// asks for one.
#[verifier::external_body]
fn parse_snapshot(s: &str) -> (r: Result<String, String>)
    ensures
        match r {
            Ok(id) => is_snapshot_text(s@) && id@ == lowered(s@),
            Err(_) => !is_snapshot_text(s@),
        },
{
    match s.parse::<rustic_core::repofile::SnapshotId>() {
        Ok(id) => Ok(id.to_hex().as_str().to_owned()),
        Err(e) => Err(e.to_string()),
    }
}

/// Whether `c` is a hexadecimal digit.
pub open spec fn is_hex(c: char) -> bool {
    ('0' <= c && c <= '9') || ('a' <= c && c <= 'f') || ('A' <= c && c <= 'F')
}

/// Whether `s` is 64 hexadecimal digits.
pub open spec fn is_snapshot_text(s: Seq<char>) -> bool {
    s.len() == 64 && forall|i: int| 0 <= i < 64 ==> #[trigger] is_hex(s[i])
}

/// Hexadecimal digits in lower case.
pub open spec fn lowered(s: Seq<char>) -> Seq<char> {
    s.map_values(
        |c: char|
            if 'A' <= c && c <= 'F' {
                (c as nat + 32) as char
            } else {
                c
            },
    )
}

// ── Identifiers ─────────────────────────────────────────────────────────────

/// A new identifier, drawn at random.
pub fn fresh_id() -> (r: u128)
    ensures
        is_drawn(r),
{
    new_uuid()
}

/// The text of an identifier, which is read as the same identifier.
pub fn id_text(id: u128) -> (r: String)
    ensures
        r@ == uuid_text(id),
        stands_for(r@, id),
{
    show_uuid(id)
}

/// The identifier of a write handle, once its text was read.
pub open spec fn handle_id(parsed: Result<u128, Seq<char>>) -> Result<u128, StatusView> {
    match parsed {
        Ok(id) => Ok(id),
        Err(_) => Err(invalid("malformed handle_id"@)),
    }
}

/// The identifier of a job, once its text was read.
pub open spec fn job_id(parsed: Result<u128, Seq<char>>) -> Result<u128, StatusView> {
    match parsed {
        Ok(id) => Ok(id),
        Err(text) => Err(invalid("bad job_id: "@ + text)),
    }
}

/// What the outcome of reading an identifier says.
pub open spec fn outcome(r: Result<u128, String>) -> Result<u128, Seq<char>> {
    match r {
        Ok(id) => Ok(id),
        Err(text) => Err(text@),
    }
}

/// Whether a request was answered as it should be.
pub open spec fn answers(r: Result<u128, Status>, s: Result<u128, StatusView>) -> bool {
    match r {
        Ok(id) => s == Ok::<u128, StatusView>(id),
        Err(e) => s == Err::<u128, StatusView>(e@),
    }
}

/// Judges the outcome of reading the identifier of a write handle.
pub fn handle_id_from(parsed: Result<u128, String>) -> (r: Result<u128, Status>)
    ensures
        answers(r, handle_id(outcome(parsed))),
{
    match parsed {
        Ok(id) => Ok(id),
        Err(_) => Err(Status::invalid_argument("malformed handle_id".to_owned())),
    }
}

/// Judges the outcome of reading the identifier of a job.
pub fn job_id_from(parsed: Result<u128, String>) -> (r: Result<u128, Status>)
    ensures
        answers(r, job_id(outcome(parsed))),
{
    match parsed {
        Ok(id) => Ok(id),
        Err(text) => Err(Status::invalid_argument("bad job_id: ".to_owned().concat(text.as_str()))),
    }
}

/// Reads the identifier of a write handle.
pub fn parse_handle_id(id: &str) -> (r: Result<u128, Status>)
    ensures
        answers(r, handle_id(parsed_uuid(id@))),
{
    handle_id_from(parse_uuid(id))
}

/// Reads the identifier of a job.
pub fn parse_job_id(id: &str) -> (r: Result<u128, Status>)
    ensures
        answers(r, job_id(parsed_uuid(id@))),
{
    job_id_from(parse_uuid(id))
}

// ── Snapshots ───────────────────────────────────────────────────────────────

/// What precedes the reason for which `s` names no snapshot.
pub open spec fn bad_snapshot(s: Seq<char>) -> Seq<char> {
    "invalid snapshot id '"@ + s + "': "@
}

/// `s` names no snapshot, for the reason `text`.
pub fn invalid_snapshot(s: &str, text: &str) -> (r: Status)
    ensures
        r@ == invalid(bad_snapshot(s@) + text@),
{
    Status::invalid_argument(
        "invalid snapshot id '".to_owned().concat(s).concat("': ").concat(text),
    )
}

/// Reads the identifiers of snapshots. The first text that is none decides; the
/// reason that is given for it is the one that the repository library gives.
pub fn snapshot_ids(snapshots: &Vec<String>) -> (r: Result<Vec<String>, Status>)
    ensures
        match r {
            Ok(ids) => {
                &&& forall|i: int|
                    0 <= i < snapshots@.len() ==> is_snapshot_text(#[trigger] snapshots@[i]@)
                &&& ids@.len() == snapshots@.len()
                &&& forall|i: int|
                    0 <= i < snapshots@.len() ==> #[trigger] ids@[i]@ == lowered(snapshots@[i]@)
            },
            Err(e) => exists|i: int|
                {
                    &&& 0 <= i < snapshots@.len()
                    &&& !is_snapshot_text(#[trigger] snapshots@[i]@)
                    &&& forall|j: int|
                        0 <= j < i ==> is_snapshot_text(#[trigger] snapshots@[j]@)
                    &&& e@.code == crate::status::Code::InvalidArgument
                    &&& bad_snapshot(snapshots@[i]@).is_prefix_of(e@.message)
                },
        },
{
    let mut ids: Vec<String> = Vec::new();
    let mut i: usize = 0;
    while i < snapshots.len()
        invariant
            i <= snapshots@.len(),
            ids@.len() == i,
            forall|j: int| 0 <= j < i ==> is_snapshot_text(#[trigger] snapshots@[j]@),
            forall|j: int| 0 <= j < i ==> #[trigger] ids@[j]@ == lowered(snapshots@[j]@),
        decreases snapshots@.len() - i,
    {
        match parse_snapshot(snapshots[i].as_str()) {
            Ok(id) => {
                ids.push(id);
            },
            Err(text) => {
                let e = invalid_snapshot(snapshots[i].as_str(), text.as_str());
                assert(!is_snapshot_text(snapshots@[i as int]@));
                assert(bad_snapshot(snapshots@[i as int]@) =~= e@.message.subrange(
                    0,
                    bad_snapshot(snapshots@[i as int]@).len() as int,
                ));
                return Err(e);
            },
        }
        i += 1;
    }
    Ok(ids)
}

// ── Laws ────────────────────────────────────────────────────────────────────

/// The text of an identifier is read as the same identifier, whether it names a
/// job or a write handle.
pub proof fn law_written_identifiers_are_read_back(
    id: u128,
    text: String,
    s: &str,
    handle: Result<u128, Status>,
    job: Result<u128, Status>,
)
    requires
        call_ensures(id_text, (id,), text),
        s@ == text@,
        call_ensures(parse_handle_id, (s,), handle),
        call_ensures(parse_job_id, (s,), job),
    ensures
        handle == Ok::<u128, Status>(id),
        job == Ok::<u128, Status>(id),
{
}

/// The text of an identifier is its hexadecimal digits, in lower case, the most
/// significant first, with dashes behind the eighth, twelfth, sixteenth and
/// twentieth.
pub proof fn law_identifiers_are_written_in_groups(id: u128, r: String, v: nat, n: nat, d: nat)
    requires
        call_ensures(id_text, (id,), r),
        d < 16,
    ensures
        r@.len() == 36,
        r@[8] == '-' && r@[13] == '-' && r@[18] == '-' && r@[23] == '-',
        r@.subrange(0, 8) + r@.subrange(9, 13) + r@.subrange(14, 18) + r@.subrange(19, 23)
            + r@.subrange(24, 36) == hex_text(id as nat, 32),
        hex_text(v, 0) == Seq::<char>::empty(),
        hex_text(16 * v + d, n + 1) == hex_text(v, n).push("0123456789abcdef"@[d as int]),
{
    lemma_hex_len(id as nat, 32);
    let h = hex_text(id as nat, 32);
    assert(r@.len() == 36);
    assert(r@.subrange(0, 8) =~= h.subrange(0, 8));
    assert(r@.subrange(9, 13) =~= h.subrange(8, 12));
    assert(r@.subrange(14, 18) =~= h.subrange(12, 16));
    assert(r@.subrange(19, 23) =~= h.subrange(16, 20));
    assert(r@.subrange(24, 36) =~= h.subrange(20, 32));
    assert(h.subrange(0, 8) + h.subrange(8, 12) + h.subrange(12, 16) + h.subrange(16, 20)
        + h.subrange(20, 32) =~= h);
    assert((16 * v + d) / 16 == v && (16 * v + d) % 16 == d) by (nonlinear_arith)
        requires
            d < 16,
    ;
    reveal_strlit("0123456789abcdef");
    assert(hex_digit(d) == "0123456789abcdef"@[d as int]);
}

/// As many digits are written as are asked for.
proof fn lemma_hex_len(v: nat, n: nat)
    ensures
        hex_text(v, n).len() == n,
    decreases n,
{
    if n > 0 {
        lemma_hex_len(v / 16, (n - 1) as nat);
    }
}

/// A new identifier is marked as one that was drawn at random.
pub proof fn law_new_identifiers_are_marked(r: u128)
    requires
        call_ensures(fresh_id, (), r),
    ensures
        (r as nat / 0x1000_0000_0000_0000_0000) % 16 == 4,
        8 <= (r as nat / 0x1000_0000_0000_0000) % 16 < 12,
{
    let x = r as int / 0x1000_0000_0000_0000;
    assert(r as int / 0x4000_0000_0000_0000 == x / 4) by (nonlinear_arith)
        requires
            x == r as int / 0x1000_0000_0000_0000,
    ;
    assert(8 <= x % 16 < 12) by (nonlinear_arith)
        requires
            (x / 4) % 4 == 2,
    ;
}

/// What was read as an identifier is that identifier, and what was not is
/// refused: for a job with the reason, for a write handle without.
pub proof fn law_readings_are_judged(
    parsed: Result<u128, String>,
    handle: Result<u128, Status>,
    job: Result<u128, Status>,
)
    requires
        call_ensures(handle_id_from, (parsed,), handle),
        call_ensures(job_id_from, (parsed,), job),
    ensures
        parsed matches Ok(id) ==> handle == Ok::<u128, Status>(id) && job == Ok::<u128, Status>(id),
        parsed matches Err(text) ==> {
            &&& handle matches Err(e) && e.code == crate::status::Code::InvalidArgument
                && e.message@ == "malformed handle_id"@
            &&& job matches Err(e) && e.code == crate::status::Code::InvalidArgument && e.message@
                == "bad job_id: "@ + text@
        },
{
}

/// Snapshots are named by texts of 64 hexadecimal digits, and taken with the
/// letters in lower case. They are taken together, in order, exactly where all
/// of them are such texts; the first that is not is named in the refusal.
pub proof fn law_snapshots_are_named_by_their_digits(
    snapshots: &Vec<String>,
    r: Result<Vec<String>, Status>,
    k: int,
    c: int,
)
    requires
        call_ensures(snapshot_ids, (snapshots,), r),
    ensures
        r is Ok <==> forall|i: int|
            0 <= i < snapshots@.len() ==> (#[trigger] snapshots@[i])@.len() == 64 && forall|j: int|
                0 <= j < 64 ==> "0123456789abcdefABCDEF"@.contains(#[trigger] snapshots@[i]@[j]),
        r matches Ok(ids) ==> {
            &&& ids@.len() == snapshots@.len()
            &&& 0 <= k < ids@.len() && 0 <= c < 64 ==> {
                let from = snapshots@[k]@[c];
                ids@[k]@.len() == 64 && ids@[k]@[c] == if from == 'A' {
                    'a'
                } else if from == 'B' {
                    'b'
                } else if from == 'C' {
                    'c'
                } else if from == 'D' {
                    'd'
                } else if from == 'E' {
                    'e'
                } else if from == 'F' {
                    'f'
                } else {
                    from
                }
            }
        },
        r matches Err(e) ==> e.code == crate::status::Code::InvalidArgument && exists|i: int|
            0 <= i < snapshots@.len() && ("invalid snapshot id '"@ + (#[trigger] snapshots@[i])@
                + "': "@).is_prefix_of(e.message@),
{
    let digits = "0123456789abcdefABCDEF"@;
    assert forall|x: char| #[trigger] is_hex(x) <==> digits.contains(x) by {
        lemma_digits(x);
    }
    match r {
        Ok(ids) => {
            assert forall|i: int| 0 <= i < snapshots@.len() implies (
            #[trigger] snapshots@[i])@.len() == 64 && forall|j: int|
                0 <= j < 64 ==> digits.contains(#[trigger] snapshots@[i]@[j]) by {
                assert(is_snapshot_text(snapshots@[i]@));
                assert forall|j: int| 0 <= j < 64 implies digits.contains(
                    #[trigger] snapshots@[i]@[j],
                ) by {
                    assert(is_hex(snapshots@[i]@[j]));
                }
            }
            if 0 <= k < ids@.len() && 0 <= c < 64 {
                assert(is_snapshot_text(snapshots@[k]@));
                assert(ids@[k]@ == lowered(snapshots@[k]@));
                assert(is_hex(snapshots@[k]@[c]));
            }
        },
        Err(e) => {
            let i = choose|i: int|
                {
                    &&& 0 <= i < snapshots@.len()
                    &&& !is_snapshot_text(#[trigger] snapshots@[i]@)
                    &&& forall|j: int|
                        0 <= j < i ==> is_snapshot_text(#[trigger] snapshots@[j]@)
                    &&& e@.code == crate::status::Code::InvalidArgument
                    &&& bad_snapshot(snapshots@[i]@).is_prefix_of(e@.message)
                };
            assert(!is_snapshot_text(snapshots@[i]@));
            let text = snapshots@[i];
            if text@.len() == 64 {
                let j = choose|j: int| 0 <= j < 64 && !#[trigger] is_hex(text@[j]);
                assert(!digits.contains(snapshots@[i]@[j]));
            }
        },
    }
}

/// The hexadecimal digits, one by one.
proof fn lemma_digits(x: char)
    ensures
        is_hex(x) <==> "0123456789abcdefABCDEF"@.contains(x),
{
    let digits = "0123456789abcdefABCDEF"@;
    reveal_strlit("0123456789abcdefABCDEF");
    if is_hex(x) {
        let i: int = if x <= '9' {
            x as int - '0' as int
        } else if x <= 'F' {
            x as int - 'A' as int + 16
        } else {
            x as int - 'a' as int + 10
        };
        assert(digits[i] == x);
    }
    if digits.contains(x) {
        let i = choose|i: int| 0 <= i < digits.len() && digits[i] == x;
        assert(is_hex(digits[i]));
    }
}

/// The refusal of a snapshot names it, and the reason.
pub proof fn law_refused_snapshots_are_named(s: &str, text: &str, r: Status)
    requires
        call_ensures(invalid_snapshot, (s, text), r),
    ensures
        r.code == crate::status::Code::InvalidArgument,
        r.message@ == "invalid snapshot id '"@ + s@ + "': "@ + text@,
{
}

} // verus!
