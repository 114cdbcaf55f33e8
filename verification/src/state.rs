//! The conversion queue and the pending target picks: the state the worker
//! and the window share, and how commands change it.

use vstd::prelude::*;

use crate::error::{spec_message, ConversionError};
use crate::format::{spec_display_name, Format};
use crate::registry::{formats_sorted, ConverterRegistry};
use crate::converter::spec_backend_available;
use crate::text::{owned, push_signed, signed_decimal};
use crate::update::UpdateInfo;

verus! {

/// One conversion job as shown in the UI. The worker owns the authoritative
/// list and sends full snapshots on every change.
#[derive(Debug, Clone, PartialEq, Eq)]
pub struct JobView {
    pub id: u64,
    pub input: String,
    pub to: Format,
    pub status: JobStatus,
}

#[derive(Debug, Clone, PartialEq, Eq)]
pub enum JobStatus {
    Queued,
    /// Running, with percent complete.
    Running(i32),
    Done(String),
    Failed(String),
    Canceled,
}

/// Commands into the worker.
#[derive(Debug, PartialEq, Eq)]
pub enum WorkerCmd {
    Enqueue { input: String, to: Format },
    /// Cancel a job; only has an effect while it is still queued.
    Cancel(u64),
}

/// Messages into the thread that shows the state.
#[derive(Debug, PartialEq, Eq)]
pub enum UiMsg {
    /// Snapshot of all jobs.
    Jobs(Vec<JobView>),
    /// A file arrived (drop, argument, or IPC): offer its targets.
    Pick(String),
    /// A newer release exists.
    UpdateAvailable(UpdateInfo),
    /// Progress of installing an update.
    UpdateStatus(String),
    OpenWindow,
    Quit,
}

/// Whether some job is running: the tray then shows the busy indicator.
pub fn any_running(jobs: &Vec<JobView>) -> (r: bool)
    ensures
        r == exists|k: int| 0 <= k < jobs@.len() && #[trigger] jobs@[k].status is Running,
{
    let n = jobs.len();
    for i in 0..n
        invariant
            n == jobs@.len(),
            forall|k: int| 0 <= k < i ==> !(#[trigger] jobs@[k].status is Running),
    {
        if matches!(jobs[i].status, JobStatus::Running(_)) {
            assert(jobs@[i as int].status is Running);
            return true;
        }
    }
    false
}

/// The status a job ends in: done with its output, or failed with the
/// error's message.
pub fn finished_status(outcome: &Result<String, ConversionError>) -> (s: JobStatus)
    ensures
        match outcome {
            Ok(output) => s matches JobStatus::Done(o) && o@ == output@,
            Err(e) => s matches JobStatus::Failed(m) && m@ == spec_message(*e),
        },
{
    match outcome {
        Ok(output) => JobStatus::Done(owned(output.as_str())),
        Err(e) => JobStatus::Failed(e.message()),
    }
}

/// The desktop notification (summary, body) for a finished job on the file
/// named `file_name`.
pub fn job_notification(file_name: &str, outcome: &Result<String, ConversionError>) -> (n: (
    String,
    String,
))
    ensures
        match outcome {
            Ok(output) => n.0@ == "Converted "@ + file_name@ && n.1@ == "Saved as "@ + output@,
            Err(e) => n.0@ == "Could not convert "@ + file_name@ && n.1@ == spec_message(*e),
        },
{
    match outcome {
        Ok(output) => {
            let mut summary = owned("Converted ");
            summary.append(file_name);
            let mut body = owned("Saved as ");
            body.append(output.as_str());
            (summary, body)
        },
        Err(e) => {
            let mut summary = owned("Could not convert ");
            summary.append(file_name);
            (summary, e.message())
        },
    }
}

/// A file waiting for the user to pick a target format.
#[derive(Debug, PartialEq, Eq)]
pub struct PendingPick {
    pub input: String,
    pub targets: Vec<Format>,
    /// Set when the file can't be converted (unknown format, no targets).
    pub error: Option<String>,
}

/// Position of the first queued job with id `id`, if any.
pub open spec fn first_queued_with_id(jobs: Seq<JobView>, id: u64) -> Option<int>
    decreases jobs.len(),
{
    if jobs.len() == 0 {
        None
    } else {
        match first_queued_with_id(jobs.drop_last(), id) {
            Some(j) => Some(j),
            None => if jobs.last().id == id && jobs.last().status is Queued {
                Some(jobs.len() - 1)
            } else {
                None
            },
        }
    }
}

pub proof fn lemma_first_queued_with_id(jobs: Seq<JobView>, id: u64)
    ensures
        match first_queued_with_id(jobs, id) {
            Some(j) => 0 <= j < jobs.len() && jobs[j].id == id && jobs[j].status is Queued
                && forall|k: int|
                0 <= k < j ==> !(#[trigger] jobs[k].id == id && jobs[k].status is Queued),
            None => forall|k: int|
                0 <= k < jobs.len() ==> !(#[trigger] jobs[k].id == id && jobs[k].status is Queued),
        },
    decreases jobs.len(),
{
    if jobs.len() > 0 {
        lemma_first_queued_with_id(jobs.drop_last(), id);
        match first_queued_with_id(jobs.drop_last(), id) {
            Some(j) => {
                assert forall|k: int| 0 <= k < j implies !(#[trigger] jobs[k].id == id
                    && jobs[k].status is Queued) by {
                    assert(jobs[k] == jobs.drop_last()[k]);
                }
            },
            None => {
                assert forall|k: int| 0 <= k < jobs.len() - 1 implies !(#[trigger] jobs[k].id == id
                    && jobs[k].status is Queued) by {
                    assert(jobs[k] == jobs.drop_last()[k]);
                }
            },
        }
    }
}

/// Ids strictly increase along the list and stay below the next id to hand
/// out; so no two jobs share an id.
pub open spec fn ids_ordered(jobs: Seq<JobView>, next_id: u64) -> bool {
    &&& forall|i: int, j: int| 0 <= i < j < jobs.len() ==> jobs[i].id < jobs[j].id
    &&& forall|i: int| 0 <= i < jobs.len() ==> #[trigger] jobs[i].id < next_id
}

/// Apply a command to the job list: enqueueing appends a queued job with the
/// next id; canceling marks the first queued job with that id canceled and
/// touches nothing else (running and finished jobs are not canceled).
pub fn apply(jobs: &mut Vec<JobView>, next_id: &mut u64, cmd: WorkerCmd)
    requires
        cmd is Enqueue ==> *old(next_id) < u64::MAX,
    ensures
        match cmd {
            WorkerCmd::Enqueue { input, to } => {
                &&& final(jobs)@ == old(jobs)@.push(
                    JobView { id: *old(next_id), input, to, status: JobStatus::Queued },
                )
                &&& *final(next_id) == *old(next_id) + 1
            },
            WorkerCmd::Cancel(id) => {
                &&& *final(next_id) == *old(next_id)
                &&& match first_queued_with_id(old(jobs)@, id) {
                    Some(j) => final(jobs)@ == old(jobs)@.update(
                        j,
                        JobView {
                            id: old(jobs)@[j].id,
                            input: old(jobs)@[j].input,
                            to: old(jobs)@[j].to,
                            status: JobStatus::Canceled,
                        },
                    ),
                    None => final(jobs)@ == old(jobs)@,
                }
            },
        },
{
    match cmd {
        WorkerCmd::Enqueue { input, to } => {
            jobs.push(JobView { id: *next_id, input, to, status: JobStatus::Queued });
            *next_id = *next_id + 1;
        },
        WorkerCmd::Cancel(id) => {
            match find_queued(jobs, id) {
                Some(i) => {
                    proof {
                        lemma_first_queued_with_id(jobs@, id);
                    }
                    let updated = JobView {
                        id: jobs[i].id,
                        input: jobs[i].input.clone(),
                        to: jobs[i].to,
                        status: JobStatus::Canceled,
                    };
                    jobs.set(i, updated);
                },
                None => {},
            }
        },
    }
}

/// Position of the first queued job with id `id`.
fn find_queued(jobs: &Vec<JobView>, id: u64) -> (r: Option<usize>)
    ensures
        match r {
            Some(i) => first_queued_with_id(jobs@, id) == Some(i as int),
            None => first_queued_with_id(jobs@, id) is None,
        },
{
    proof {
        lemma_first_queued_with_id(jobs@, id);
    }
    let n = jobs.len();
    for i in 0..n
        invariant
            n == jobs@.len(),
            forall|k: int| 0 <= k < i ==> !(#[trigger] jobs@[k].id == id && jobs@[k].status is Queued),
            match first_queued_with_id(jobs@, id) {
                Some(j) => 0 <= j < jobs@.len() && jobs@[j].id == id && jobs@[j].status is Queued
                    && forall|k: int|
                    0 <= k < j ==> !(#[trigger] jobs@[k].id == id && jobs@[k].status is Queued),
                None => forall|k: int|
                    0 <= k < jobs@.len() ==> !(#[trigger] jobs@[k].id == id && jobs@[k].status is Queued),
            },
    {
        if jobs[i].id == id && matches!(jobs[i].status, JobStatus::Queued) {
            proof {
                match first_queued_with_id(jobs@, id) {
                    Some(j) => {
                        if j < i {
                            assert(!(jobs@[j].id == id && jobs@[j].status is Queued));
                        } else if j > i {
                            assert(!(jobs@[i as int].id == id && jobs@[i as int].status is Queued));
                        }
                    },
                    None => {
                        assert(!(jobs@[i as int].id == id && jobs@[i as int].status is Queued));
                    },
                }
            }
            return Some(i);
        }
    }
    None
}

/// Applying commands keeps job ids unique and increasing: the list stays
/// ordered by id with every id below the next one handed out.
pub proof fn lemma_apply_keeps_ids_ordered(
    jobs: Seq<JobView>,
    next_id: u64,
    after: Seq<JobView>,
    next_after: u64,
    cmd: WorkerCmd,
)
    requires
        ids_ordered(jobs, next_id),
        match cmd {
            WorkerCmd::Enqueue { input, to } => {
                &&& next_id < u64::MAX
                &&& after == jobs.push(JobView { id: next_id, input, to, status: JobStatus::Queued })
                &&& next_after == next_id + 1
            },
            WorkerCmd::Cancel(id) => {
                &&& next_after == next_id
                &&& match first_queued_with_id(jobs, id) {
                    Some(j) => after == jobs.update(
                        j,
                        JobView {
                            id: jobs[j].id,
                            input: jobs[j].input,
                            to: jobs[j].to,
                            status: JobStatus::Canceled,
                        },
                    ),
                    None => after == jobs,
                }
            },
        },
    ensures
        ids_ordered(after, next_after),
        after.len() >= jobs.len(),
{
    match cmd {
        WorkerCmd::Enqueue { .. } => {
            assert forall|i: int, j: int| 0 <= i < j < after.len() implies after[i].id < after[j].id by {
                if j == jobs.len() {
                    assert(after[i] == jobs[i]);
                } else {
                    assert(after[i] == jobs[i] && after[j] == jobs[j]);
                }
            }
            assert forall|i: int| 0 <= i < after.len() implies #[trigger] after[i].id < next_after by {
                if i < jobs.len() {
                    assert(after[i] == jobs[i]);
                }
            }
        },
        WorkerCmd::Cancel(id) => {
            lemma_first_queued_with_id(jobs, id);
            match first_queued_with_id(jobs, id) {
                Some(j) => {
                    assert forall|i: int| 0 <= i < after.len() implies after[i].id == jobs[i].id by {
                    }
                    assert forall|i: int| 0 <= i < after.len() implies #[trigger] after[i].id < next_after by {
                        assert(after[i].id == jobs[i].id);
                    }
                },
                None => {},
            }
        },
    }
}

/// The job the worker runs next: the first queued one.
pub fn next_queued(jobs: &Vec<JobView>) -> (r: Option<usize>)
    ensures
        match r {
            Some(i) => i < jobs@.len() && jobs@[i as int].status is Queued && forall|k: int|
                0 <= k < i ==> !(#[trigger] jobs@[k].status is Queued),
            None => forall|k: int| 0 <= k < jobs@.len() ==> !(#[trigger] jobs@[k].status is Queued),
        },
{
    let n = jobs.len();
    for i in 0..n
        invariant
            n == jobs@.len(),
            forall|k: int| 0 <= k < i ==> !(#[trigger] jobs@[k].status is Queued),
    {
        if matches!(jobs[i].status, JobStatus::Queued) {
            return Some(i);
        }
    }
    None
}

/// The job the worker starts now: none while conversions are paused,
/// otherwise the first queued one.
pub fn next_to_run(jobs: &Vec<JobView>, paused: bool) -> (r: Option<usize>)
    ensures
        paused ==> r is None,
        !paused ==> match r {
            Some(i) => i < jobs@.len() && jobs@[i as int].status is Queued && forall|k: int|
                0 <= k < i ==> !(#[trigger] jobs@[k].status is Queued),
            None => forall|k: int| 0 <= k < jobs@.len() ==> !(#[trigger] jobs@[k].status is Queued),
        },
{
    if paused {
        None
    } else {
        next_queued(jobs)
    }
}

/// The status label of a job row.
pub open spec fn spec_status_label(s: JobStatus) -> Seq<char> {
    match s {
        JobStatus::Queued => "queued"@,
        JobStatus::Running(pct) => signed_decimal(pct as int) + "%"@,
        JobStatus::Done(output) => "done: "@ + output@,
        JobStatus::Failed(message) => "failed: "@ + message@,
        JobStatus::Canceled => "canceled"@,
    }
}

impl JobStatus {
    /// The label shown for a job in this status.
    pub fn label(&self) -> (s: String)
        ensures
            s@ == spec_status_label(*self),
    {
        match self {
            JobStatus::Queued => owned("queued"),
            JobStatus::Running(pct) => {
                let mut s = String::new();
                push_signed(&mut s, *pct);
                s.append("%");
                s
            },
            JobStatus::Done(output) => {
                let mut s = owned("done: ");
                s.append(output.as_str());
                s
            },
            JobStatus::Failed(message) => {
                let mut s = owned("failed: ");
                s.append(message.as_str());
                s
            },
            JobStatus::Canceled => owned("canceled"),
        }
    }
}

/// The width of a progress bar in percent: `pct` clamped to `0..=100`.
pub fn progress_width(pct: i32) -> (w: i32)
    ensures
        w == (if pct < 0 {
            0
        } else if pct > 100 {
            100
        } else {
            pct
        }),
{
    if pct < 0 {
        0
    } else if pct > 100 {
        100
    } else {
        pct
    }
}

/// The pending pick for a file whose format detection gave `detected`: the
/// available targets of the detected format, or an error when there are none
/// or the format is unknown.
pub fn make_pick(
    registry: &ConverterRegistry,
    input: String,
    detected: &Result<Format, ConversionError>,
    soffice_found: bool,
) -> (p: PendingPick)
    requires
        registry.wf(),
    ensures
        p.input == input,
        match detected {
            Ok(from) => {
                &&& formats_sorted(p.targets@)
                &&& forall|t: Format|
                    p.targets@.contains(t) <==> registry@.contains_key((*from, t))
                        && spec_backend_available(registry@[(*from, t)], soffice_found)
                &&& if p.targets@.len() == 0 {
                    p.error matches Some(m) && m@ == "no conversions available for "@
                        + spec_display_name(*from)
                } else {
                    p.error is None
                }
            },
            Err(e) => {
                &&& p.targets@.len() == 0
                &&& p.error matches Some(m) && m@ == spec_message(*e)
            },
        },
{
    match detected {
        Ok(from) => {
            let targets = registry.available_targets(*from, soffice_found);
            if targets.len() == 0 {
                let mut m = owned("no conversions available for ");
                m.append(from.display_name());
                PendingPick { input, targets, error: Some(m) }
            } else {
                PendingPick { input, targets, error: None }
            }
        },
        Err(e) => PendingPick { input, targets: Vec::new(), error: Some(e.message()) },
    }
}

/// The picks whose input differs from `input`, in order.
pub open spec fn picks_without(s: Seq<PendingPick>, input: Seq<char>) -> Seq<PendingPick>
    decreases s.len(),
{
    if s.len() == 0 {
        seq![]
    } else if s.last().input@ == input {
        picks_without(s.drop_last(), input)
    } else {
        picks_without(s.drop_last(), input).push(s.last())
    }
}

/// Drop every pick for `input`.
pub fn remove_picks(picks: &mut Vec<PendingPick>, input: &str)
    ensures
        final(picks)@ == picks_without(old(picks)@, input@),
{
    let mut kept: Vec<PendingPick> = Vec::new();
    let ghost orig = picks@;
    let mut rest: Vec<PendingPick> = Vec::new();
    std::mem::swap(picks, &mut rest);
    let ghost taken_all = rest@;
    assert(taken_all == orig);
    let mut drained: Vec<PendingPick> = Vec::new();
    // Move items out from the back, then restore order.
    while rest.len() > 0
        invariant
            rest@ == orig.take(rest@.len() as int),
            drained@.len() + rest@.len() == orig.len(),
            forall|k: int| 0 <= k < drained@.len() ==> #[trigger] drained@[k] == orig[orig.len() - 1 - k],
        decreases rest@.len(),
    {
        let item = rest.pop().unwrap();
        drained.push(item);
    }
    while drained.len() > 0
        invariant
            drained@.len() <= orig.len(),
            forall|k: int| 0 <= k < drained@.len() ==> #[trigger] drained@[k] == orig[orig.len() - 1 - k],
            kept@ == picks_without(orig.take(orig.len() - drained@.len()), input@),
        decreases drained@.len(),
    {
        let ghost before = orig.take(orig.len() - drained@.len());
        let item = drained.pop().unwrap();
        let ghost after = orig.take(orig.len() - drained@.len());
        assert(after.drop_last() == before);
        assert(after.last() == item);
        if !crate::text::chars_eq(
            crate::text::chars_of(item.input.as_str()).as_slice(),
            crate::text::chars_of(input).as_slice(),
        ) {
            kept.push(item);
        }
    }
    assert(orig.take(orig.len() as int) == orig);
    *picks = kept;
}

/// Add a pick, replacing any earlier pick for the same input: the new pick
/// goes last.
pub fn upsert_pick(picks: &mut Vec<PendingPick>, pick: PendingPick)
    ensures
        final(picks)@ == picks_without(old(picks)@, pick.input@).push(pick),
{
    let input = owned(pick.input.as_str());
    remove_picks(picks, input.as_str());
    picks.push(pick);
}

} // verus!
