//! The sequential batch worker, as a state machine.
//!
//! The worker owns a finalized job list and walks it in order. For each job
//! it first hands out a `Progress` event together with the transcoder's
//! argument list; the caller runs the transcoder and reports how it went;
//! the worker then hands out the job's log line and, by the options set at
//! launch, the path of a file to delete best-effort. After the last job it
//! hands out the closing `Done` event. The ghost trace ties the whole event
//! stream to [`full_batch_trace`], so its order — `Progress(i)` immediately
//! before job `i`'s log line, `Done` last — is proved, not assumed.

use vstd::prelude::*;
use crate::events::{EventModel, JobOutcome, OutcomeModel, WorkerEvent};
use crate::events::{job_log_line, make_err_line, make_ok_line};
use crate::jobs::{ConversionJob, JobModel};
use crate::paths::{prepare_input, prepared_input_path};

verus! {

/// The transcoder's argument list for one job: overwrite unconditionally,
/// read `input`, write at `bitrate` to `output`.
pub open spec fn transcode_args(input: Seq<char>, bitrate: Seq<char>, output: Seq<char>) -> Seq<
    Seq<char>,
> {
    seq!["-y"@, "-i"@, input, "-b:a"@, bitrate, output]
}

/// The two events job `i` contributes to the stream, in order: its
/// `Progress` mark, then its log line.
pub open spec fn job_events(
    i: int,
    job: JobModel,
    outcome: OutcomeModel,
    long_paths: bool,
) -> Seq<EventModel> {
    seq![
        EventModel::Progress(i),
        EventModel::Log(
            job_log_line(prepared_input_path(job.source, long_paths), job.output, outcome),
        ),
    ]
}

/// The event stream of the first `outcomes.len()` jobs of a batch.
pub open spec fn batch_trace(
    jobs: Seq<JobModel>,
    outcomes: Seq<OutcomeModel>,
    long_paths: bool,
) -> Seq<EventModel>
    decreases outcomes.len(),
{
    if outcomes.len() == 0 {
        Seq::empty()
    } else {
        batch_trace(jobs, outcomes.drop_last(), long_paths) + job_events(
            outcomes.len() - 1,
            jobs[outcomes.len() - 1],
            outcomes.last(),
            long_paths,
        )
    }
}

/// How many of the outcomes are successes.
pub open spec fn count_successes(outcomes: Seq<OutcomeModel>) -> int
    decreases outcomes.len(),
{
    if outcomes.len() == 0 {
        0
    } else {
        count_successes(outcomes.drop_last()) + if outcomes.last() is Success {
            1int
        } else {
            0int
        }
    }
}

/// The complete event stream of a batch: every job's pair of events, then
/// the closing `Done` with the two counters.
pub open spec fn full_batch_trace(
    jobs: Seq<JobModel>,
    outcomes: Seq<OutcomeModel>,
    long_paths: bool,
) -> Seq<EventModel> {
    batch_trace(jobs, outcomes, long_paths) + seq![
        EventModel::Done {
            success: count_successes(outcomes),
            fail: outcomes.len() - count_successes(outcomes),
        },
    ]
}

pub proof fn lemma_count_successes_bounds(outcomes: Seq<OutcomeModel>)
    ensures
        0 <= count_successes(outcomes) <= outcomes.len(),
    decreases outcomes.len(),
{
    if outcomes.len() > 0 {
        lemma_count_successes_bounds(outcomes.drop_last());
    }
}

/// Runs one finalized batch, one job at a time, keeping the event stream it
/// has handed out in a ghost trace.
pub struct ConversionWorker {
    jobs: Vec<ConversionJob>,
    bitrate: String,
    delete_input: bool,
    delete_output_on_fail: bool,
    long_paths: bool,
    index: usize,
    success: usize,
    fail: usize,
    current: Option<String>,
    trace: Ghost<Seq<EventModel>>,
    outcomes: Ghost<Seq<OutcomeModel>>,
}

impl ConversionWorker {
    /// The batch's job list.
    pub closed spec fn planned(&self) -> Seq<JobModel> {
        self.jobs@.map_values(|j: ConversionJob| j@)
    }

    /// Every event handed out so far, in order.
    pub closed spec fn emitted(&self) -> Seq<EventModel> {
        self.trace@
    }

    /// The outcomes reported back so far, in order.
    pub closed spec fn recorded(&self) -> Seq<OutcomeModel> {
        self.outcomes@
    }

    /// How many jobs are finished.
    pub closed spec fn position(&self) -> int {
        self.index as int
    }

    /// Whether a job has been begun and not yet finished.
    pub closed spec fn mid_job(&self) -> bool {
        self.current is Some
    }

    /// The bitrate the batch was launched with.
    pub closed spec fn bitrate_model(&self) -> Seq<char> {
        self.bitrate@
    }

    /// Whether the extended-path prefix is applied to input paths.
    pub closed spec fn long_paths_model(&self) -> bool {
        self.long_paths
    }

    /// Whether a cleanly converted source file is deleted.
    pub closed spec fn delete_input_model(&self) -> bool {
        self.delete_input
    }

    /// Whether a failed job's partial output is deleted.
    pub closed spec fn delete_output_on_fail_model(&self) -> bool {
        self.delete_output_on_fail
    }

    /// The worker's invariant: the counters count the recorded outcomes, one
    /// outcome stands recorded per finished job, and the ghost trace is
    /// exactly the event stream of the finished jobs — plus the pending
    /// `Progress` mark while a job is under way.
    pub closed spec fn inv(&self) -> bool {
        &&& self.outcomes@.len() == self.index as int
        &&& self.index <= self.jobs@.len()
        &&& self.success as int == count_successes(self.outcomes@)
        &&& self.fail as int == self.index as int - count_successes(self.outcomes@)
        &&& match self.current {
            Option::None => self.trace@ == batch_trace(
                self.planned(),
                self.outcomes@,
                self.long_paths,
            ),
            Option::Some(input) => {
                &&& (self.index as int) < self.jobs@.len()
                &&& input@ == prepared_input_path(
                    self.planned()[self.index as int].source,
                    self.long_paths,
                )
                &&& self.trace@ == batch_trace(self.planned(), self.outcomes@, self.long_paths)
                    + seq![EventModel::Progress(self.index as int)]
            },
        }
    }

    /// Takes ownership of a finalized batch.
    pub fn new(
        jobs: Vec<ConversionJob>,
        bitrate: String,
        delete_input: bool,
        delete_output_on_fail: bool,
        long_paths: bool,
    ) -> (w: Self)
        ensures
            w.inv(),
            w.planned() == jobs@.map_values(|j: ConversionJob| j@),
            w.emitted() == Seq::<EventModel>::empty(),
            w.recorded() == Seq::<OutcomeModel>::empty(),
            w.position() == 0,
            !w.mid_job(),
            w.bitrate_model() == bitrate@,
            w.delete_input_model() == delete_input,
            w.delete_output_on_fail_model() == delete_output_on_fail,
            w.long_paths_model() == long_paths,
    {
        ConversionWorker {
            jobs,
            bitrate,
            delete_input,
            delete_output_on_fail,
            long_paths,
            index: 0,
            success: 0,
            fail: 0,
            current: Option::None,
            trace: Ghost(Seq::empty()),
            outcomes: Ghost(Seq::empty()),
        }
    }

    /// Begins the next job, if one is left: hands out its `Progress` event
    /// and the transcoder's argument list. `None` means every job is
    /// finished and only the closing `Done` is owed.
    pub fn begin_job(&mut self) -> (r: Option<(WorkerEvent, Vec<String>)>)
        requires
            old(self).inv(),
            !old(self).mid_job(),
        ensures
            final(self).inv(),
            final(self).planned() == old(self).planned(),
            final(self).recorded() == old(self).recorded(),
            final(self).position() == old(self).position(),
            final(self).bitrate_model() == old(self).bitrate_model(),
            final(self).delete_input_model() == old(self).delete_input_model(),
            final(self).delete_output_on_fail_model() == old(self).delete_output_on_fail_model(),
            final(self).long_paths_model() == old(self).long_paths_model(),
            old(self).position() < old(self).planned().len() <==> r is Some,
            r matches Some((ev, args)) ==> {
                &&& ev@ == EventModel::Progress(old(self).position())
                &&& args.deep_view() == transcode_args(
                    prepared_input_path(
                        old(self).planned()[old(self).position()].source,
                        old(self).long_paths_model(),
                    ),
                    old(self).bitrate_model(),
                    old(self).planned()[old(self).position()].output,
                )
                &&& final(self).mid_job()
                &&& final(self).emitted() == old(self).emitted() + seq![ev@]
            },
            r is None ==> *final(self) == *old(self),
    {
        if self.index < self.jobs.len() {
            let input = prepare_input(&self.jobs[self.index].source, self.long_paths);
            let mut args: Vec<String> = Vec::new();
            args.push(String::from_str("-y"));
            args.push(String::from_str("-i"));
            args.push(input.clone());
            args.push(String::from_str("-b:a"));
            args.push(self.bitrate.clone());
            args.push(self.jobs[self.index].output.clone());
            let ev = WorkerEvent::Progress(self.index);
            proof {
                assert(args.deep_view() =~= transcode_args(
                    prepared_input_path(self.planned()[self.index as int].source, self.long_paths),
                    self.bitrate@,
                    self.planned()[self.index as int].output,
                ));
            }
            self.trace = Ghost(self.trace@ + seq![ev@]);
            self.current = Option::Some(input);
            Option::Some((ev, args))
        } else {
            Option::None
        }
    }

    /// Finishes the job under way with the reported outcome: hands out its
    /// log line and, by the launch options, the path of a file to delete
    /// best-effort — the source after a clean conversion, the possibly
    /// partial output after a failed one.
    pub fn finish_job(&mut self, outcome: JobOutcome) -> (r: (WorkerEvent, Option<String>))
        requires
            old(self).inv(),
            old(self).mid_job(),
        ensures
            final(self).inv(),
            !final(self).mid_job(),
            final(self).planned() == old(self).planned(),
            final(self).position() == old(self).position() + 1,
            final(self).recorded() == old(self).recorded().push(outcome@),
            final(self).bitrate_model() == old(self).bitrate_model(),
            final(self).delete_input_model() == old(self).delete_input_model(),
            final(self).delete_output_on_fail_model() == old(self).delete_output_on_fail_model(),
            final(self).long_paths_model() == old(self).long_paths_model(),
            r.0@ == EventModel::Log(
                job_log_line(
                    prepared_input_path(
                        old(self).planned()[old(self).position()].source,
                        old(self).long_paths_model(),
                    ),
                    old(self).planned()[old(self).position()].output,
                    outcome@,
                ),
            ),
            final(self).emitted() == old(self).emitted() + seq![r.0@],
            r.1 is Some <==> match outcome@ {
                OutcomeModel::Success => old(self).delete_input_model(),
                OutcomeModel::Failure(_) => old(self).delete_output_on_fail_model(),
            },
            r.1 matches Some(p) ==> p@ == match outcome@ {
                OutcomeModel::Success => old(self).planned()[old(self).position()].source,
                OutcomeModel::Failure(_) => old(self).planned()[old(self).position()].output,
            },
    {
        let input = match &self.current {
            Option::Some(input) => input.clone(),
            Option::None => String::new(),
        };
        let job_output = self.jobs[self.index].output.clone();
        let (line, cleanup, ok) = match &outcome {
            JobOutcome::Success => (
                make_ok_line(&input, &job_output),
                if self.delete_input {
                    Option::Some(self.jobs[self.index].source.clone())
                } else {
                    Option::None
                },
                true,
            ),
            JobOutcome::Failure(detail) => (
                make_err_line(&input, detail),
                if self.delete_output_on_fail {
                    Option::Some(job_output.clone())
                } else {
                    Option::None
                },
                false,
            ),
        };
        let n = self.jobs.len();
        proof {
            lemma_count_successes_bounds(self.outcomes@);
            assert(self.outcomes@.len() == self.index as int);
            assert((self.index as int) < self.jobs@.len());
            assert(self.jobs@.len() == n as int);
        }
        if ok {
            self.success = self.success + 1;
        } else {
            self.fail = self.fail + 1;
        }
        let ev = WorkerEvent::Log(line);
        proof {
            let next = self.outcomes@.push(outcome@);
            assert(next.drop_last() =~= self.outcomes@);
            assert(batch_trace(self.planned(), next, self.long_paths) =~= batch_trace(
                self.planned(),
                self.outcomes@,
                self.long_paths,
            ) + job_events(
                self.index as int,
                self.planned()[self.index as int],
                outcome@,
                self.long_paths,
            ));
        }
        self.trace = Ghost(self.trace@ + seq![ev@]);
        self.outcomes = Ghost(self.outcomes@.push(outcome@));
        self.index = self.index + 1;
        self.current = Option::None;
        proof {
            assert(self.trace@ =~= batch_trace(self.planned(), self.outcomes@, self.long_paths));
        }
        (ev, cleanup)
    }

    /// Closes the batch: hands out the `Done` event, after which the whole
    /// emitted stream equals [`full_batch_trace`] of the job list and the
    /// reported outcomes.
    pub fn finish_batch(&mut self) -> (r: WorkerEvent)
        requires
            old(self).inv(),
            !old(self).mid_job(),
            old(self).position() == old(self).planned().len(),
        ensures
            final(self).planned() == old(self).planned(),
            final(self).recorded() == old(self).recorded(),
            r@ == (EventModel::Done {
                success: count_successes(old(self).recorded()),
                fail: old(self).recorded().len() - count_successes(old(self).recorded()),
            }),
            final(self).emitted() == full_batch_trace(
                old(self).planned(),
                old(self).recorded(),
                old(self).long_paths_model(),
            ),
    {
        let ev = WorkerEvent::Done { success: self.success, fail: self.fail };
        self.trace = Ghost(self.trace@ + seq![ev@]);
        proof {
            assert(self.trace@ =~= full_batch_trace(
                self.planned(),
                self.outcomes@,
                self.long_paths,
            ));
        }
        ev
    }

    /// How many jobs have converted cleanly so far.
    pub fn success_count(&self) -> (r: usize)
        requires
            self.inv(),
        ensures
            r as int == count_successes(self.recorded()),
    {
        self.success
    }

    /// How many jobs have failed so far.
    pub fn fail_count(&self) -> (r: usize)
        requires
            self.inv(),
        ensures
            r as int == self.recorded().len() - count_successes(self.recorded()),
    {
        self.fail
    }
}

/// Law: the event stream of a full batch keeps the promised order. It holds
/// `2n + 1` events for `n` jobs; job `i`'s `Progress` mark stands at
/// position `2i`, immediately before its log line at `2i + 1`; the closing
/// `Done` stands last, and its counters split the jobs exactly into
/// successes and failures.
pub proof fn lemma_batch_trace_order(
    jobs: Seq<JobModel>,
    outcomes: Seq<OutcomeModel>,
    long_paths: bool,
)
    requires
        outcomes.len() == jobs.len(),
    ensures
        full_batch_trace(jobs, outcomes, long_paths).len() == 2 * jobs.len() + 1,
        forall|i: int|
            0 <= i < jobs.len() ==> full_batch_trace(jobs, outcomes, long_paths)[2 * i]
                == EventModel::Progress(i),
        forall|i: int|
            0 <= i < jobs.len() ==> full_batch_trace(jobs, outcomes, long_paths)[2 * i + 1]
                == EventModel::Log(
                job_log_line(
                    prepared_input_path(jobs[i].source, long_paths),
                    jobs[i].output,
                    outcomes[i],
                ),
            ),
        full_batch_trace(jobs, outcomes, long_paths).last() == (EventModel::Done {
            success: count_successes(outcomes),
            fail: jobs.len() - count_successes(outcomes),
        }),
        0 <= count_successes(outcomes) <= jobs.len(),
{
    lemma_count_successes_bounds(outcomes);
    lemma_batch_trace_shape(jobs, outcomes, long_paths);
}

proof fn lemma_batch_trace_shape(jobs: Seq<JobModel>, outcomes: Seq<OutcomeModel>, long_paths: bool)
    requires
        outcomes.len() <= jobs.len(),
    ensures
        batch_trace(jobs, outcomes, long_paths).len() == 2 * outcomes.len(),
        forall|i: int|
            0 <= i < outcomes.len() ==> batch_trace(jobs, outcomes, long_paths)[2 * i]
                == EventModel::Progress(i),
        forall|i: int|
            0 <= i < outcomes.len() ==> batch_trace(jobs, outcomes, long_paths)[2 * i + 1]
                == EventModel::Log(
                job_log_line(
                    prepared_input_path(jobs[i].source, long_paths),
                    jobs[i].output,
                    outcomes[i],
                ),
            ),
    decreases outcomes.len(),
{
    if outcomes.len() > 0 {
        lemma_batch_trace_shape(jobs, outcomes.drop_last(), long_paths);
        let t = batch_trace(jobs, outcomes, long_paths);
        let prev = batch_trace(jobs, outcomes.drop_last(), long_paths);
        let tail = job_events(
            outcomes.len() - 1,
            jobs[outcomes.len() - 1],
            outcomes.last(),
            long_paths,
        );
        assert(t == prev + tail);
        assert forall|i: int| 0 <= i < outcomes.len() implies t[2 * i] == EventModel::Progress(i)
            && t[2 * i + 1] == EventModel::Log(
            job_log_line(
                prepared_input_path(jobs[i].source, long_paths),
                jobs[i].output,
                outcomes[i],
            ),
        ) by {
            if i < outcomes.len() - 1 {
                assert(t[2 * i] == prev[2 * i]);
                assert(t[2 * i + 1] == prev[2 * i + 1]);
                assert(outcomes.drop_last()[i] == outcomes[i]);
            } else {
                assert(t[2 * i] == tail[0]);
                assert(t[2 * i + 1] == tail[1]);
            }
        }
    }
}

} // verus!
