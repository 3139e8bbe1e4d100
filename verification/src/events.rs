//! Events the worker emits and the text lines they put into the log.

use vstd::prelude::*;
use vstd::string::*;
use crate::decimal::{dec_str, usize_to_string};

verus! {

/// One event on the worker-to-controller channel.
#[derive(Debug, Clone, PartialEq, Eq)]
pub enum WorkerEvent {
    /// A line for the log pane.
    Log(String),
    /// The worker is about to start the job at this position of the batch.
    Progress(usize),
    /// The batch is over, with this many successes and failures.
    Done { success: usize, fail: usize },
}

/// Abstract value of a [`WorkerEvent`].
pub enum EventModel {
    Log(Seq<char>),
    Progress(int),
    Done { success: int, fail: int },
}

impl View for WorkerEvent {
    type V = EventModel;

    open spec fn view(&self) -> EventModel {
        match self {
            WorkerEvent::Log(line) => EventModel::Log(line@),
            WorkerEvent::Progress(index) => EventModel::Progress(*index as int),
            WorkerEvent::Done { success, fail } => EventModel::Done {
                success: *success as int,
                fail: *fail as int,
            },
        }
    }
}

/// How one transcoder invocation went. A failure carries the detail text for
/// the log line: the exit code, or the words of a spawn error.
#[derive(Debug, Clone, PartialEq, Eq)]
pub enum JobOutcome {
    Success,
    Failure(String),
}

/// Abstract value of a [`JobOutcome`].
pub enum OutcomeModel {
    Success,
    Failure(Seq<char>),
}

impl View for JobOutcome {
    type V = OutcomeModel;

    open spec fn view(&self) -> OutcomeModel {
        match self {
            JobOutcome::Success => OutcomeModel::Success,
            JobOutcome::Failure(detail) => OutcomeModel::Failure(detail@),
        }
    }
}

/// The log line for a job that converted cleanly.
pub open spec fn ok_line(input: Seq<char>, output: Seq<char>) -> Seq<char> {
    "OK: "@ + input + " -> "@ + output + "\n"@
}

/// The log line for a job whose transcoder run failed.
pub open spec fn err_line(input: Seq<char>, detail: Seq<char>) -> Seq<char> {
    "ERR: "@ + input + " "@ + detail + "\n"@
}

/// The log line a job contributes, by its outcome.
pub open spec fn job_log_line(input: Seq<char>, output: Seq<char>, outcome: OutcomeModel) -> Seq<
    char,
> {
    match outcome {
        OutcomeModel::Success => ok_line(input, output),
        OutcomeModel::Failure(detail) => err_line(input, detail),
    }
}

/// The closing line of a batch, with its two counters.
pub open spec fn done_line(success: nat, fail: nat) -> Seq<char> {
    "=== Done: success="@ + dec_str(success) + " fail="@ + dec_str(fail) + " ===\n"@
}

/// Builds the log line for a clean conversion.
pub fn make_ok_line(input: &String, output: &String) -> (r: String)
    ensures
        r@ == ok_line(input@, output@),
{
    let mut r = String::from_str("OK: ");
    r.append(input.as_str());
    r.append(" -> ");
    r.append(output.as_str());
    r.append("\n");
    proof {
        assert(r@ =~= ok_line(input@, output@));
    }
    r
}

/// Builds the log line for a failed conversion.
pub fn make_err_line(input: &String, detail: &String) -> (r: String)
    ensures
        r@ == err_line(input@, detail@),
{
    let mut r = String::from_str("ERR: ");
    r.append(input.as_str());
    r.append(" ");
    r.append(detail.as_str());
    r.append("\n");
    proof {
        assert(r@ =~= err_line(input@, detail@));
    }
    r
}

/// Builds the closing line of a batch.
pub fn make_done_line(success: usize, fail: usize) -> (r: String)
    ensures
        r@ == done_line(success as nat, fail as nat),
{
    let mut r = String::from_str("=== Done: success=");
    let s = usize_to_string(success);
    r.append(s.as_str());
    r.append(" fail=");
    let f = usize_to_string(fail);
    r.append(f.as_str());
    r.append(" ===\n");
    proof {
        assert(r@ =~= done_line(success as nat, fail as nat));
    }
    r
}

} // verus!
