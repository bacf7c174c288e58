//! Jobs that run in the background, and what they report.

use super::ids::{fresh_id, id_text, is_drawn, job_id, parse_job_id, parsed_uuid, stands_for,
    uuid_text};
use crate::model::opt_text;
use crate::status::{missing, Status, StatusView};
use crate::text::{same, views};
use dashmap::DashMap;
use vstd::prelude::*;

verus! {

// ── Events ──────────────────────────────────────────────────────────────────

/// A point in time: seconds since the epoch, and nanoseconds within a second.
#[derive(Clone, Copy, Debug, PartialEq, Eq, Structural)]
pub struct Timestamp {
    pub seconds: i64,
    pub nanos: i32,
}

/// How much a message matters.
#[derive(Clone, Copy, Debug, PartialEq, Eq, Structural)]
pub enum Priority {
    Error,
}

/// What an [`Event`] says.
#[verifier::ext_equal]
pub enum EventView {
    JobMessage { job_id: Seq<char>, priority: Priority, message: Seq<char>, time: Timestamp },
    JobFinished {
        job_id: Seq<char>,
        success: bool,
        snapshot: Option<Seq<char>>,
        time: Timestamp,
    },
    BarLength { job_id: Seq<char>, bar_id: Seq<char>, length: u64, time: Timestamp },
    BarTitle { job_id: Seq<char>, bar_id: Seq<char>, title: Seq<char>, time: Timestamp },
    BarIncrement { job_id: Seq<char>, bar_id: Seq<char>, increment: u64, time: Timestamp },
    BarFinished { job_id: Seq<char>, bar_id: Seq<char>, time: Timestamp },
}

/// Something that a job reports.
#[derive(Debug, PartialEq, Eq)]
pub enum Event {
    JobMessage { job_id: String, priority: Priority, message: String, time: Timestamp },
    JobFinished { job_id: String, success: bool, snapshot: Option<String>, time: Timestamp },
    BarLength { job_id: String, bar_id: String, length: u64, time: Timestamp },
    BarTitle { job_id: String, bar_id: String, title: String, time: Timestamp },
    BarIncrement { job_id: String, bar_id: String, increment: u64, time: Timestamp },
    BarFinished { job_id: String, bar_id: String, time: Timestamp },
}

impl View for Event {
    type V = EventView;

    open spec fn view(&self) -> EventView {
        match *self {
            Event::JobMessage { job_id, priority, message, time } => EventView::JobMessage {
                job_id: job_id@,
                priority,
                message: message@,
                time,
            },
            Event::JobFinished { job_id, success, snapshot, time } => EventView::JobFinished {
                job_id: job_id@,
                success,
                snapshot: opt_text(snapshot),
                time,
            },
            Event::BarLength { job_id, bar_id, length, time } => EventView::BarLength {
                job_id: job_id@,
                bar_id: bar_id@,
                length,
                time,
            },
            Event::BarTitle { job_id, bar_id, title, time } => EventView::BarTitle {
                job_id: job_id@,
                bar_id: bar_id@,
                title: title@,
                time,
            },
            Event::BarIncrement { job_id, bar_id, increment, time } => EventView::BarIncrement {
                job_id: job_id@,
                bar_id: bar_id@,
                increment,
                time,
            },
            Event::BarFinished { job_id, bar_id, time } => EventView::BarFinished {
                job_id: job_id@,
                bar_id: bar_id@,
                time,
            },
        }
    }
}

/// What a list of events says.
pub open spec fn event_views(events: Seq<Event>) -> Seq<EventView> {
    events.map_values(|e: Event| e@)
}

// ── Trusted items ───────────────────────────────────────────────────────────

/// The jobs that a map holds: by identifier, the user that each runs for.
pub uninterp spec fn jobs_in(m: DashMap<u128, String>) -> Map<u128, Seq<char>>;

/// Calls `dashmap::DashMap::new`. Claimed of it: the map is empty.
#[verifier::external_body]
fn no_jobs() -> (r: DashMap<u128, String>)
    ensures
        jobs_in(r).dom() == Set::<u128>::empty(),
{
    DashMap::new()
}

/// Calls `dashmap::DashMap::insert`. Claimed of it: the map holds the user
/// under `id`, in place of any other, and is otherwise unchanged.
#[verifier::external_body]
fn put_job(m: &mut DashMap<u128, String>, id: u128, user: String)
    ensures
        jobs_in(*final(m)) == jobs_in(*old(m)).insert(id, user@),
{
    m.insert(id, user);
}

/// Calls `dashmap::DashMap::get`. Claimed of it: it gives what the map holds
/// under `id`.
#[verifier::external_body]
fn get_job(m: &DashMap<u128, String>, id: u128) -> (r: Option<String>)
    ensures
        match r {
            Some(user) => jobs_in(*m).contains_key(id) && user@ == jobs_in(*m)[id],
            None => !jobs_in(*m).contains_key(id),
        },
{
    m.get(&id).map(|user| user.value().clone())
}

/// Calls `dashmap::DashMap::remove`. Claimed of it: the map no longer holds
/// anything under `id`, and is otherwise unchanged.
#[verifier::external_body]
fn drop_job(m: &mut DashMap<u128, String>, id: u128)
    ensures
        jobs_in(*final(m)) == jobs_in(*old(m)).remove(id),
{
    m.remove(&id);
}

/// Calls `dashmap::DashMap::iter`. Claimed of it: it walks over everything that
/// the map holds, and over nothing else, in no particular order.
#[verifier::external_body]
fn list_jobs(m: &DashMap<u128, String>) -> (r: Vec<(u128, String)>)
    ensures
        forall|i: int|
            0 <= i < r@.len() ==> jobs_in(*m).contains_key((#[trigger] r@[i]).0) && r@[i].1@
                == jobs_in(*m)[r@[i].0],
        forall|id: u128| #[trigger]
            jobs_in(*m).contains_key(id) ==> exists|i: int|
                0 <= i < r@.len() && (#[trigger] r@[i]).0 == id,
{
    m.iter().map(|job| (*job.key(), job.value().clone())).collect()
}

// ── Jobs ────────────────────────────────────────────────────────────────────

/// What a job ended with: the snapshot that it made, if any, or why it failed.
pub type JobOutcome = Result<Option<String>, String>;

/// What is reported when a job ends: the reason if it failed, and that it is
/// finished.
pub open spec fn closing_events(id: u128, outcome: JobOutcome, time: Timestamp) -> Seq<EventView> {
    match outcome {
        Ok(snapshot) => seq![
            EventView::JobFinished {
                job_id: uuid_text(id),
                success: true,
                snapshot: opt_text(snapshot),
                time,
            },
        ],
        Err(text) => seq![
            EventView::JobMessage {
                job_id: uuid_text(id),
                priority: Priority::Error,
                message: text@,
                time,
            },
            EventView::JobFinished {
                job_id: uuid_text(id),
                success: false,
                snapshot: None,
                time,
            },
        ],
    }
}

/// The answer to cancelling the job that `parsed`, read from `text`, names.
pub open spec fn cancel_outcome(
    jobs: Map<u128, Seq<char>>,
    parsed: Result<u128, Seq<char>>,
    text: Seq<char>,
) -> Result<u128, StatusView> {
    match job_id(parsed) {
        Err(e) => Err(e),
        Ok(id) => if jobs.contains_key(id) {
            Ok(id)
        } else {
            Err(missing("job '"@ + text + "' not found or already finished"@))
        },
    }
}

/// The jobs that are running, and what was reported since the last poll.
pub struct Jobs {
    running: DashMap<u128, String>,
    events: Vec<Event>,
}

impl Jobs {
    /// The jobs that are running: by identifier, the user that each runs for.
    pub closed spec fn running(&self) -> Map<u128, Seq<char>> {
        jobs_in(self.running)
    }

    /// What was reported since the last poll.
    pub closed spec fn events(&self) -> Seq<EventView> {
        event_views(self.events@)
    }

    /// No job is running, and nothing was reported.
    pub fn new() -> (r: Self)
        ensures
            r.running() == Map::<u128, Seq<char>>::empty(),
            r.events() == Seq::<EventView>::empty(),
    {
        let r = Jobs { running: no_jobs(), events: Vec::new() };
        assert(r.running() =~= Map::empty());
        assert(r.events() =~= Seq::empty());
        r
    }

    /// Starts a job of `user` under `id`, and returns the text of `id`.
    pub fn start(&mut self, id: u128, user: &str) -> (r: String)
        ensures
            r@ == uuid_text(id),
            stands_for(r@, id),
            final(self).running() == old(self).running().insert(id, user@),
            final(self).events() == old(self).events(),
    {
        put_job(&mut self.running, id, user.to_owned());
        id_text(id)
    }

    /// Starts a job of `user` under a new identifier, which is returned with its
    /// text.
    pub fn spawn_job(&mut self, user: &str) -> (r: (u128, String))
        ensures
            is_drawn(r.0),
            r.1@ == uuid_text(r.0),
            stands_for(r.1@, r.0),
            final(self).running() == old(self).running().insert(r.0, user@),
            final(self).events() == old(self).events(),
    {
        let id = fresh_id();
        let text = self.start(id, user);
        (id, text)
    }

    /// Keeps what a job reports until the next poll.
    pub fn report(&mut self, event: Event)
        ensures
            final(self).events() == old(self).events().push(event@),
            final(self).running() == old(self).running(),
    {
        let ghost before = self.events@;
        self.events.push(event);
        assert(event_views(self.events@) =~= event_views(before).push(event@));
    }

    /// The job `id` has ended: reports it, and forgets the job.
    pub fn finish(&mut self, id: u128, outcome: JobOutcome, time: Timestamp)
        ensures
            final(self).running() == old(self).running().remove(id),
            final(self).events() == old(self).events() + closing_events(id, outcome, time),
    {
        let ghost before = self.events();
        match outcome {
            Ok(snapshot) => {
                self.report(
                    Event::JobFinished { job_id: id_text(id), success: true, snapshot, time },
                );
            },
            Err(message) => {
                self.report(
                    Event::JobMessage {
                        job_id: id_text(id),
                        priority: Priority::Error,
                        message,
                        time,
                    },
                );
                self.report(
                    Event::JobFinished {
                        job_id: id_text(id),
                        success: false,
                        snapshot: None,
                        time,
                    },
                );
            },
        }
        assert(self.events() =~= before + closing_events(id, outcome, time));
        drop_job(&mut self.running, id);
    }

    /// Judges a request to cancel the running job `id`, which the caller calls
    /// `text`.
    pub fn cancel_id(&self, id: u128, text: &str) -> (r: Result<u128, Status>)
        ensures
            super::ids::answers(r, cancel_outcome(self.running(), Ok(id), text@)),
    {
        match get_job(&self.running, id) {
            Some(_) => Ok(id),
            None => Err(
                Status::not_found(
                    "job '".to_owned().concat(text).concat("' not found or already finished"),
                ),
            ),
        }
    }

    /// Judges a request to cancel a job: gives the job that is to be cancelled.
    pub fn cancel_job(&self, id: &str) -> (r: Result<u128, Status>)
        ensures
            super::ids::answers(r, cancel_outcome(self.running(), parsed_uuid(id@), id@)),
    {
        match parse_job_id(id) {
            Ok(job) => self.cancel_id(job, id),
            Err(e) => Err(e),
        }
    }

    /// Hands out what was reported since the last poll, oldest first.
    pub fn poll(&mut self) -> (r: Vec<Event>)
        ensures
            event_views(r@) == old(self).events(),
            final(self).events() == Seq::<EventView>::empty(),
            final(self).running() == old(self).running(),
    {
        let mut out: Vec<Event> = Vec::new();
        std::mem::swap(&mut out, &mut self.events);
        assert(self.events() =~= Seq::empty());
        out
    }

    /// The running jobs of the given users, in no particular order.
    pub fn jobs_of(&self, users: &Vec<String>) -> (r: Vec<u128>)
        ensures
            forall|id: u128| #[trigger]
                r@.contains(id) <==> self.running().contains_key(id) && views(users@).contains(
                    self.running()[id],
                ),
    {
        let all = list_jobs(&self.running);
        let mut out: Vec<u128> = Vec::new();
        let mut i: usize = 0;
        while i < all.len()
            invariant
                i <= all@.len(),
                forall|k: int|
                    0 <= k < all@.len() ==> self.running().contains_key((#[trigger] all@[k]).0)
                        && all@[k].1@ == self.running()[all@[k].0],
                forall|k: int|
                    0 <= k < out@.len() ==> self.running().contains_key(#[trigger] out@[k])
                        && views(users@).contains(self.running()[out@[k]]),
                forall|k: int|
                    0 <= k < i && views(users@).contains((#[trigger] all@[k]).1@)
                        ==> out@.contains(all@[k].0),
            decreases all@.len() - i,
        {
            let ghost before = out@;
            let mut named = false;
            let mut j: usize = 0;
            while j < users.len()
                invariant
                    i < all@.len(),
                    j <= users@.len(),
                    named == exists|k: int| 0 <= k < j && #[trigger] users@[k]@ == all@[i as int].1@,
                decreases users@.len() - j,
            {
                if same(users[j].as_str(), all[i].1.as_str()) {
                    assert(users@[j as int]@ == all@[i as int].1@);
                    named = true;
                }
                j += 1;
            }
            proof {
                if named {
                    let k = choose|k: int|
                        0 <= k < users@.len() && #[trigger] users@[k]@ == all@[i as int].1@;
                    assert(views(users@)[k] == all@[i as int].1@);
                } else if views(users@).contains(all@[i as int].1@) {
                    let k = choose|k: int|
                        0 <= k < users@.len() && views(users@)[k] == all@[i as int].1@;
                    assert(users@[k]@ == all@[i as int].1@);
                }
            }
            if named {
                out.push(all[i].0);
                proof {
                    assert(out@[before.len() as int] == all@[i as int].0);
                    assert forall|k: int|
                        0 <= k < i + 1 && views(users@).contains(
                            (#[trigger] all@[k]).1@,
                        ) implies out@.contains(all@[k].0) by {
                        if k < i {
                            let m = choose|m: int| 0 <= m < before.len() && before[m] == all@[k].0;
                            assert(out@[m] == all@[k].0);
                        }
                    }
                }
            }
            i += 1;
        }
        proof {
            assert forall|id: u128| #[trigger]
                out@.contains(id) <==> self.running().contains_key(id) && views(users@).contains(
                    self.running()[id],
                ) by {
                if self.running().contains_key(id) && views(users@).contains(
                    self.running()[id],
                ) {
                    let k = choose|k: int| 0 <= k < all@.len() && (#[trigger] all@[k]).0 == id;
                    assert(all@[k].1@ == self.running()[id]);
                }
            }
        }
        out
    }
}

// ── Progress ────────────────────────────────────────────────────────────────

/// Identifies a progress bar of a job.
#[derive(Clone, Copy, Debug, PartialEq, Eq, Structural)]
pub struct RepoBar {
    pub job_id: u128,
    pub bar_id: u128,
}

/// A progress bar that reports events.
#[derive(Debug)]
pub struct TxProgress {
    pub bar: RepoBar,
    /// What its titles start with.
    pub prefix: String,
}

/// Makes the progress bars of a job.
#[derive(Clone, Copy, Debug, PartialEq, Eq, Structural)]
pub struct RusticProgressBars {
    pub job_id: u128,
}

impl RusticProgressBars {
    /// Makes the progress bars of the job `job_id`.
    pub fn new(job_id: u128) -> (r: Self)
        ensures
            r.job_id == job_id,
    {
        RusticProgressBars { job_id }
    }

    /// A bar under the identifier `bar_id`.
    pub fn create_as(&self, bar_id: u128, prefix: &str) -> (r: TxProgress)
        ensures
            r.bar == (RepoBar { job_id: self.job_id, bar_id }),
            r.prefix@ == prefix@,
    {
        TxProgress { bar: RepoBar { job_id: self.job_id, bar_id }, prefix: prefix.to_owned() }
    }

    /// A bar under a new identifier.
    pub fn create_new(&self, prefix: &str) -> (r: TxProgress)
        ensures
            r.bar.job_id == self.job_id,
            is_drawn(r.bar.bar_id),
            r.prefix@ == prefix@,
    {
        self.create_as(fresh_id(), prefix)
    }
}

/// The title that a bar shows.
pub open spec fn bar_title(prefix: Seq<char>, title: Seq<char>) -> Seq<char> {
    "["@ + prefix + "] "@ + title
}

impl TxProgress {
    /// The bar is `length` long.
    pub fn set_length(&self, length: u64, time: Timestamp) -> (r: Event)
        ensures
            r@ == (EventView::BarLength {
                job_id: uuid_text(self.bar.job_id),
                bar_id: uuid_text(self.bar.bar_id),
                length,
                time,
            }),
    {
        Event::BarLength {
            job_id: id_text(self.bar.job_id),
            bar_id: id_text(self.bar.bar_id),
            length,
            time,
        }
    }

    /// The bar shows `title`.
    pub fn set_title(&self, title: &str, time: Timestamp) -> (r: Event)
        ensures
            r@ == (EventView::BarTitle {
                job_id: uuid_text(self.bar.job_id),
                bar_id: uuid_text(self.bar.bar_id),
                title: bar_title(self.prefix@, title@),
                time,
            }),
    {
        Event::BarTitle {
            job_id: id_text(self.bar.job_id),
            bar_id: id_text(self.bar.bar_id),
            title: "[".to_owned().concat(self.prefix.as_str()).concat("] ").concat(title),
            time,
        }
    }

    /// The bar moves on by `increment`.
    pub fn inc(&self, increment: u64, time: Timestamp) -> (r: Event)
        ensures
            r@ == (EventView::BarIncrement {
                job_id: uuid_text(self.bar.job_id),
                bar_id: uuid_text(self.bar.bar_id),
                increment,
                time,
            }),
    {
        Event::BarIncrement {
            job_id: id_text(self.bar.job_id),
            bar_id: id_text(self.bar.bar_id),
            increment,
            time,
        }
    }

    /// The bar is done.
    pub fn finish(&self, time: Timestamp) -> (r: Event)
        ensures
            r@ == (EventView::BarFinished {
                job_id: uuid_text(self.bar.job_id),
                bar_id: uuid_text(self.bar.bar_id),
                time,
            }),
    {
        Event::BarFinished { job_id: id_text(self.bar.job_id), bar_id: id_text(self.bar.bar_id), time }
    }
}

// ── Laws ────────────────────────────────────────────────────────────────────

/// A job that is running can be cancelled, and one that has ended cannot.
pub proof fn law_only_running_jobs_cancel(
    jobs: Map<u128, Seq<char>>,
    id: u128,
    user: Seq<char>,
    text: Seq<char>,
)
    ensures
        cancel_outcome(jobs.insert(id, user), Ok(id), text) == Ok::<u128, StatusView>(id),
        cancel_outcome(jobs.insert(id, user).remove(id), Ok(id), text) is Err,
{
}

/// A job that ends reports exactly once that it is finished, last of all, and
/// that it failed exactly where it did.
pub proof fn law_job_finishes_once(id: u128, outcome: JobOutcome, time: Timestamp)
    ensures
        ({
            let e = closing_events(id, outcome, time);
            &&& e.len() > 0
            &&& e.last() matches EventView::JobFinished { success, .. } && success == (outcome is Ok)
            &&& forall|i: int| 0 <= i < e.len() - 1 ==> !(#[trigger] e[i] is JobFinished)
        }),
{
}

/// A job runs for its user from when it is started until it ends, and starting
/// or ending one touches no other.
pub proof fn law_jobs_run_until_they_end(
    fresh: Jobs,
    s: &mut Jobs,
    id: u128,
    user: &str,
    text: String,
    e: &mut Jobs,
    outcome: JobOutcome,
    time: Timestamp,
    other: u128,
)
    requires
        call_ensures(Jobs::new, (), fresh),
        call_ensures(Jobs::start, (s, id, user), text),
        call_ensures(Jobs::finish, (e, id, outcome, time), ()),
    ensures
        !fresh.running().contains_key(other) && fresh.events().len() == 0,
        final(s).running().contains_key(id) && final(s).running()[id] == user@,
        final(s).events() == old(s).events(),
        !final(e).running().contains_key(id),
        other != id ==> {
            &&& final(s).running().contains_key(other) == old(s).running().contains_key(other)
            &&& old(s).running().contains_key(other) ==> final(s).running()[other]
                == old(s).running()[other]
            &&& final(e).running().contains_key(other) == old(e).running().contains_key(other)
            &&& old(e).running().contains_key(other) ==> final(e).running()[other]
                == old(e).running()[other]
        },
{
}

/// A job that is started under a new identifier runs for its user under it, and
/// the text that is handed out names it.
pub proof fn law_spawned_jobs_can_be_cancelled(
    s: &mut Jobs,
    user: &str,
    r: (u128, String),
    name: &str,
    cancelled: Result<u128, Status>,
)
    requires
        call_ensures(Jobs::spawn_job, (s, user), r),
        name@ == r.1@,
        call_ensures(Jobs::cancel_job, (&*final(s), name), cancelled),
    ensures
        final(s).running().contains_key(r.0) && final(s).running()[r.0] == user@,
        cancelled == Ok::<u128, Status>(r.0),
{
}

/// Exactly the jobs that are running can be cancelled; any other is not found.
pub proof fn law_jobs_are_cancelled_while_they_run(
    jobs: &Jobs,
    id: u128,
    text: &str,
    r: Result<u128, Status>,
)
    requires
        call_ensures(Jobs::cancel_id, (jobs, id, text), r),
    ensures
        r is Ok <==> jobs.running().contains_key(id),
        r matches Ok(n) ==> n == id,
        r matches Err(e) ==> e.code == crate::status::Code::NotFound && e.message@ == "job '"@
            + text@ + "' not found or already finished"@,
{
}

/// A job that ends well reports that, with the snapshot that it made, if any.
/// One that fails reports why, and then that it ended without success and
/// without a snapshot. What was reported before stays before it.
pub proof fn law_jobs_report_how_they_ended(
    e: &mut Jobs,
    id: u128,
    outcome: JobOutcome,
    time: Timestamp,
    text: String,
)
    requires
        call_ensures(Jobs::finish, (e, id, outcome, time), ()),
        call_ensures(id_text, (id,), text),
    ensures
        final(e).events().len() == old(e).events().len() + if outcome is Ok {
            1int
        } else {
            2
        },
        forall|i: int|
            0 <= i < old(e).events().len() ==> #[trigger] final(e).events()[i] == old(
                e,
            ).events()[i],
        outcome matches Ok(snapshot) ==> (final(e).events().last() matches EventView::JobFinished {
            job_id,
            success,
            snapshot: s,
            time: t,
        } && job_id == text@ && success && t == time && (snapshot is None <==> s is None) && (
        snapshot matches Some(x) ==> s == Some(x@))),
        outcome matches Err(why) ==> {
            &&& final(e).events()[old(e).events().len() as int] matches EventView::JobMessage {
                job_id,
                priority,
                message,
                time: t,
            } && job_id == text@ && priority == Priority::Error && message == why@ && t == time
            &&& final(e).events().last() matches EventView::JobFinished {
                job_id,
                success,
                snapshot,
                time: t,
            } && job_id == text@ && !success && snapshot is None && t == time
        },
{
}

/// A poll hands out what was reported since the last one, in order, and nothing
/// twice; a report is handed out last. Neither starts nor ends a job.
pub proof fn law_reports_are_handed_out_once(
    a: &mut Jobs,
    event: Event,
    b: &mut Jobs,
    r: Vec<Event>,
    c: &mut Jobs,
    again: Vec<Event>,
)
    requires
        call_ensures(Jobs::report, (a, event), ()),
        *old(b) == *final(a),
        call_ensures(Jobs::poll, (b,), r),
        *old(c) == *final(b),
        call_ensures(Jobs::poll, (c,), again),
    ensures
        r@.len() == old(a).events().len() + 1,
        forall|i: int| 0 <= i < old(a).events().len() ==> (#[trigger] r@[i])@ == old(a).events()[i],
        r@[r@.len() - 1]@ == event@,
        again@.len() == 0,
        final(a).running() == old(a).running(),
        final(b).running() == old(a).running(),
{
    let v = event_views(r@);
    assert(v.len() == r@.len());
    assert(v == old(a).events().push(event@));
    assert forall|i: int| 0 <= i < old(a).events().len() implies (#[trigger] r@[i])@ == old(
        a,
    ).events()[i] by {
        assert(v[i] == r@[i]@);
    }
    assert(v[v.len() - 1] == r@[r@.len() - 1]@);
    assert(event_views(again@).len() == again@.len());
}

/// The jobs of users are those that run for one of them.
pub proof fn law_jobs_belong_to_their_user(
    jobs: &Jobs,
    users: &Vec<String>,
    r: Vec<u128>,
    id: u128,
)
    requires
        call_ensures(Jobs::jobs_of, (jobs, users), r),
    ensures
        r@.contains(id) <==> jobs.running().contains_key(id) && exists|i: int|
            0 <= i < users@.len() && (#[trigger] users@[i])@ == jobs.running()[id],
{
    let all = views(users@);
    if r@.contains(id) {
        let i = choose|i: int| 0 <= i < all.len() && all[i] == jobs.running()[id];
        assert(users@[i]@ == jobs.running()[id]);
    }
    if jobs.running().contains_key(id) && exists|i: int|
        0 <= i < users@.len() && (#[trigger] users@[i])@ == jobs.running()[id] {
        let i = choose|i: int|
            0 <= i < users@.len() && (#[trigger] users@[i])@ == jobs.running()[id];
        assert(all[i] == jobs.running()[id]);
        let args = (jobs, users);
        assert(views(args.1@).contains(args.0.running()[id]));
    }
}

/// What a progress bar reports bears its job, its own identifier and the time;
/// its titles start with what it is for.
pub proof fn law_bars_report_what_they_are_told(
    job_id: u128,
    bars: RusticProgressBars,
    bar_id: u128,
    prefix: &str,
    bar: TxProgress,
    job_text: String,
    bar_text: String,
    n: u64,
    title: &str,
    time: Timestamp,
    a: Event,
    b: Event,
    c: Event,
    d: Event,
)
    requires
        call_ensures(RusticProgressBars::new, (job_id,), bars),
        call_ensures(RusticProgressBars::create_as, (&bars, bar_id, prefix), bar),
        call_ensures(id_text, (job_id,), job_text),
        call_ensures(id_text, (bar_id,), bar_text),
        call_ensures(TxProgress::set_length, (&bar, n, time), a),
        call_ensures(TxProgress::set_title, (&bar, title, time), b),
        call_ensures(TxProgress::inc, (&bar, n, time), c),
        call_ensures(TxProgress::finish, (&bar, time), d),
    ensures
        a matches Event::BarLength { job_id: j, bar_id: i, length, time: t } && j@ == job_text@
            && i@ == bar_text@ && length == n && t == time,
        b matches Event::BarTitle { job_id: j, bar_id: i, title: x, time: t } && j@ == job_text@
            && i@ == bar_text@ && x@ == "["@ + prefix@ + "] "@ + title@ && t == time,
        c matches Event::BarIncrement { job_id: j, bar_id: i, increment, time: t } && j@
            == job_text@ && i@ == bar_text@ && increment == n && t == time,
        d matches Event::BarFinished { job_id: j, bar_id: i, time: t } && j@ == job_text@ && i@
            == bar_text@ && t == time,
{
}

/// An event says what its fields say.
pub proof fn law_events_say_what_they_hold(e: &Event)
    ensures
        match *e {
            Event::JobMessage { job_id, priority, message, time } => e@ matches EventView::JobMessage {
                job_id: j,
                priority: p,
                message: m,
                time: t,
            } && j == job_id@ && p == priority && m == message@ && t == time,
            Event::JobFinished { job_id, success, snapshot, time } => {
                e@ matches EventView::JobFinished { job_id: j, success: s, snapshot: x, time: t }
                    && j == job_id@ && s == success && (snapshot is None <==> x is None) && (
                snapshot matches Some(y) ==> x == Some(y@)) && t == time
            },
            Event::BarLength { job_id, bar_id, length, time } => e@ matches EventView::BarLength {
                job_id: j,
                bar_id: b,
                length: n,
                time: t,
            } && j == job_id@ && b == bar_id@ && n == length && t == time,
            Event::BarTitle { job_id, bar_id, title, time } => e@ matches EventView::BarTitle {
                job_id: j,
                bar_id: b,
                title: n,
                time: t,
            } && j == job_id@ && b == bar_id@ && n == title@ && t == time,
            Event::BarIncrement { job_id, bar_id, increment, time } => {
                e@ matches EventView::BarIncrement { job_id: j, bar_id: b, increment: n, time: t }
                    && j == job_id@ && b == bar_id@ && n == increment && t == time
            },
            Event::BarFinished { job_id, bar_id, time } => e@ matches EventView::BarFinished {
                job_id: j,
                bar_id: b,
                time: t,
            } && j == job_id@ && b == bar_id@ && t == time,
        },
{
}

/// A bar under a new identifier belongs to its job, and bears what it is for.
pub proof fn law_new_bars_belong_to_their_job(
    bars: &RusticProgressBars,
    prefix: &str,
    r: TxProgress,
)
    requires
        call_ensures(RusticProgressBars::create_new, (bars, prefix), r),
    ensures
        r.bar.job_id == bars.job_id,
        r.prefix@ == prefix@,
{
}

} // verus!
