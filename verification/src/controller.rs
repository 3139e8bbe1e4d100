//! The batch controller: the single owner of the queue, the conflict
//! protocol, and the batch lifecycle.
//!
//! All of its behaviour is stated against [`ControllerModel`], the abstract
//! value of a controller: plain sequences for the queue, the pending
//! conflicts, the resolved jobs, the in-flight path set, and the log text.

use vstd::prelude::*;
use vstd::string::*;
use crate::events::{done_line, make_done_line, EventModel, WorkerEvent};
use crate::jobs::{
    planned_conflict, planned_job, sources_of, ConflictModel, ConflictRecord, ConversionJob,
    EntryModel, FileEntry, JobModel,
};
use crate::paths::{join_path, join_with, output_path_of};
use crate::events::OutcomeModel;
use crate::worker::{batch_trace, count_successes, full_batch_trace, job_events};

verus! {

/// The abstract value of a sequence of queued entries.
pub open spec fn entries_model(v: Seq<FileEntry>) -> Seq<EntryModel> {
    v.map_values(|e: FileEntry| e@)
}

/// The abstract value of a sequence of finalized jobs.
pub open spec fn jobs_model(v: Seq<ConversionJob>) -> Seq<JobModel> {
    v.map_values(|j: ConversionJob| j@)
}

/// The abstract value of a sequence of conflict records.
pub open spec fn conflicts_model(v: Seq<ConflictRecord>) -> Seq<ConflictModel> {
    v.map_values(|c: ConflictRecord| c@)
}

/// The abstract value of a sequence of strings.
pub open spec fn strings_model(v: Seq<String>) -> Seq<Seq<char>> {
    v.map_values(|s: String| s@)
}

/// The abstract value of a sequence of worker events.
pub open spec fn events_model(v: Seq<WorkerEvent>) -> Seq<EventModel> {
    v.map_values(|e: WorkerEvent| e@)
}

/// Abstract value of an [`AudioApp`].
pub struct ControllerModel {
    /// The queued entries, in order.
    pub entries: Seq<EntryModel>,
    /// The directory output files are written into.
    pub output_dir: Seq<char>,
    /// The bitrate text handed verbatim to the transcoder.
    pub bitrate: Seq<char>,
    /// The text of the log pane.
    pub log: Seq<char>,
    /// Whether a batch is in flight.
    pub is_running: bool,
    /// Whether a cleanly converted source file is deleted.
    pub delete_input: bool,
    /// Whether a failed job's partial output is deleted.
    pub delete_output_on_fail: bool,
    /// The format newly added entries default to.
    pub global_format: Seq<char>,
    /// Conflicts awaiting a decision, head first.
    pub pending: Seq<ConflictModel>,
    /// Jobs cleared for dispatch.
    pub resolved: Seq<JobModel>,
    /// Source paths of the batch in flight, kept to reconcile completion.
    pub in_flight: Seq<Seq<char>>,
    /// Position of the job the worker reported as under way.
    pub current_index: Option<int>,
}

/// Owns the entry queue and drives plan, conflict resolution, launch, and
/// the per-tick drain of worker events.
pub struct AudioApp {
    entries: Vec<FileEntry>,
    output_dir: String,
    bitrate: String,
    log: String,
    is_running: bool,
    delete_input: bool,
    delete_output_on_fail: bool,
    global_format: String,
    pending: Vec<ConflictRecord>,
    resolved: Vec<ConversionJob>,
    in_flight: Vec<String>,
    current_index: Option<usize>,
}

impl View for AudioApp {
    type V = ControllerModel;

    closed spec fn view(&self) -> ControllerModel {
        ControllerModel {
            entries: entries_model(self.entries@),
            output_dir: self.output_dir@,
            bitrate: self.bitrate@,
            log: self.log@,
            is_running: self.is_running,
            delete_input: self.delete_input,
            delete_output_on_fail: self.delete_output_on_fail,
            global_format: self.global_format@,
            pending: conflicts_model(self.pending@),
            resolved: jobs_model(self.resolved@),
            in_flight: strings_model(self.in_flight@),
            current_index: match self.current_index {
                Option::Some(i) => Option::Some(i as int),
                Option::None => Option::None,
            },
        }
    }
}

/// The entries with every format field overwritten by `format`.
pub open spec fn with_format(entries: Seq<EntryModel>, format: Seq<char>) -> Seq<EntryModel> {
    entries.map_values(|e: EntryModel| EntryModel { path: e.path, format: format })
}

/// The entries that a batch of added paths turns into, each with the
/// default format of the moment.
pub open spec fn added_entries(paths: Seq<Seq<char>>, format: Seq<char>) -> Seq<EntryModel> {
    paths.map_values(|p: Seq<char>| EntryModel { path: p, format: format })
}

impl AudioApp {
    /// A fresh controller over `output_dir`, with the documented defaults:
    /// format `mp3`, bitrate `192k`, keep sources, delete failed outputs.
    pub fn new(output_dir: String) -> (c: Self)
        ensures
            c@.entries == Seq::<EntryModel>::empty(),
            c@.output_dir == output_dir@,
            c@.bitrate == "192k"@,
            c@.log == Seq::<char>::empty(),
            !c@.is_running,
            !c@.delete_input,
            c@.delete_output_on_fail,
            c@.global_format == "mp3"@,
            c@.pending == Seq::<ConflictModel>::empty(),
            c@.resolved == Seq::<JobModel>::empty(),
            c@.in_flight == Seq::<Seq<char>>::empty(),
            c@.current_index is None,
    {
        let c = AudioApp {
            entries: Vec::new(),
            output_dir,
            bitrate: String::from_str("192k"),
            log: String::new(),
            is_running: false,
            delete_input: false,
            delete_output_on_fail: true,
            global_format: String::from_str("mp3"),
            pending: Vec::new(),
            resolved: Vec::new(),
            in_flight: Vec::new(),
            current_index: Option::None,
        };
        proof {
            assert(c@.entries =~= Seq::<EntryModel>::empty());
            assert(c@.pending =~= Seq::<ConflictModel>::empty());
            assert(c@.resolved =~= Seq::<JobModel>::empty());
            assert(c@.in_flight =~= Seq::<Seq<char>>::empty());
        }
        c
    }

    /// Appends one entry per path, each with the current default format.
    /// Duplicate paths are allowed and processed independently.
    pub fn add(&mut self, paths: &Vec<String>)
        ensures
            final(self)@ == (ControllerModel {
                entries: old(self)@.entries + added_entries(
                    strings_model(paths@),
                    old(self)@.global_format,
                ),
                ..old(self)@
            }),
    {
        let n = paths.len();
        let mut added: Vec<FileEntry> = Vec::new();
        let mut i: usize = 0;
        while i < n
            invariant
                i <= n,
                n == paths@.len(),
                added@.len() == i,
                forall|j: int|
                    0 <= j < i ==> added@[j]@ == (EntryModel {
                        path: paths@[j]@,
                        format: self.global_format@,
                    }),
            decreases n - i,
        {
            added.push(
                FileEntry { path: paths[i].clone(), format: self.global_format.clone() },
            );
            i = i + 1;
        }
        proof {
            assert(entries_model(added@) =~= added_entries(
                strings_model(paths@),
                self.global_format@,
            ));
        }
        self.entries.append(&mut added);
        proof {
            assert(entries_model(self.entries@) =~= old(self)@.entries + added_entries(
                strings_model(paths@),
                old(self)@.global_format,
            ));
            assert(final(self)@ =~= (ControllerModel {
                entries: old(self)@.entries + added_entries(
                    strings_model(paths@),
                    old(self)@.global_format,
                ),
                ..old(self)@
            }));
        }
    }

    /// Records the new default format and overwrites the format of every
    /// queued entry with it.
    pub fn set_global_format(&mut self, format: String)
        ensures
            final(self)@ == (ControllerModel {
                entries: with_format(old(self)@.entries, format@),
                global_format: format@,
                ..old(self)@
            }),
    {
        let n = self.entries.len();
        let mut updated: Vec<FileEntry> = Vec::new();
        let mut i: usize = 0;
        while i < n
            invariant
                i <= n,
                n == self.entries@.len(),
                *self == *old(self),
                updated@.len() == i,
                forall|j: int|
                    0 <= j < i ==> updated@[j]@ == (EntryModel {
                        path: self.entries@[j]@.path,
                        format: format@,
                    }),
            decreases n - i,
        {
            updated.push(
                FileEntry { path: self.entries[i].path.clone(), format: format.clone() },
            );
            i = i + 1;
        }
        proof {
            assert(entries_model(updated@) =~= with_format(
                entries_model(self.entries@),
                format@,
            ));
        }
        self.entries = updated;
        self.global_format = format;
        proof {
            assert(final(self)@ =~= (ControllerModel {
                entries: with_format(old(self)@.entries, format@),
                global_format: format@,
                ..old(self)@
            }));
        }
    }

    /// Overwrites one entry's format. A stale index — the queue can shrink
    /// between renders — makes this a no-op.
    pub fn set_entry_format(&mut self, index: usize, format: String)
        ensures
            final(self)@ == if index < old(self)@.entries.len() {
                ControllerModel {
                    entries: old(self)@.entries.update(
                        index as int,
                        EntryModel {
                            path: old(self)@.entries[index as int].path,
                            format: format@,
                        },
                    ),
                    ..old(self)@
                }
            } else {
                old(self)@
            },
    {
        if index < self.entries.len() {
            let path = self.entries[index].path.clone();
            self.entries[index] = FileEntry { path, format };
            proof {
                assert(entries_model(self.entries@) =~= old(self)@.entries.update(
                    index as int,
                    EntryModel {
                        path: old(self)@.entries[index as int].path,
                        format: format@,
                    },
                ));
            }
        }
    }

    /// Empties the queue.
    pub fn clear_entries(&mut self)
        ensures
            final(self)@ == (ControllerModel { entries: Seq::<EntryModel>::empty(), ..old(self)@ }),
    {
        self.entries.clear();
        proof {
            assert(entries_model(self.entries@) =~= Seq::<EntryModel>::empty());
        }
    }

    /// Points output at another directory.
    pub fn set_output_dir(&mut self, dir: String)
        ensures
            final(self)@ == (ControllerModel { output_dir: dir@, ..old(self)@ }),
    {
        self.output_dir = dir;
    }

    /// Records the bitrate text handed verbatim to the transcoder.
    pub fn set_bitrate(&mut self, bitrate: String)
        ensures
            final(self)@ == (ControllerModel { bitrate: bitrate@, ..old(self)@ }),
    {
        self.bitrate = bitrate;
    }

    /// Sets whether a cleanly converted source file is deleted.
    pub fn set_delete_input(&mut self, on: bool)
        ensures
            final(self)@ == (ControllerModel { delete_input: on, ..old(self)@ }),
    {
        self.delete_input = on;
    }

    /// Sets whether a failed job's partial output is deleted.
    pub fn set_delete_output_on_fail(&mut self, on: bool)
        ensures
            final(self)@ == (ControllerModel { delete_output_on_fail: on, ..old(self)@ }),
    {
        self.delete_output_on_fail = on;
    }

    /// How many entries are queued.
    pub fn entry_count(&self) -> (n: usize)
        ensures
            n == self@.entries.len(),
    {
        self.entries.len()
    }

    /// The path of the entry at `index`.
    pub fn entry_path(&self, index: usize) -> (r: &String)
        requires
            index < self@.entries.len(),
        ensures
            r@ == self@.entries[index as int].path,
    {
        &self.entries[index].path
    }

    /// The format of the entry at `index`.
    pub fn entry_format(&self, index: usize) -> (r: &String)
        requires
            index < self@.entries.len(),
        ensures
            r@ == self@.entries[index as int].format,
    {
        &self.entries[index].format
    }

    /// The current default format.
    pub fn global_format_tag(&self) -> (r: &String)
        ensures
            r@ == self@.global_format,
    {
        &self.global_format
    }

    /// The bitrate text.
    pub fn bitrate_text(&self) -> (r: &String)
        ensures
            r@ == self@.bitrate,
    {
        &self.bitrate
    }

    /// The output directory.
    pub fn output_dir_text(&self) -> (r: &String)
        ensures
            r@ == self@.output_dir,
    {
        &self.output_dir
    }

    /// The text of the log pane.
    pub fn log_text(&self) -> (r: &String)
        ensures
            r@ == self@.log,
    {
        &self.log
    }

    /// Whether a cleanly converted source file is to be deleted.
    pub fn delete_input_option(&self) -> (r: bool)
        ensures
            r == self@.delete_input,
    {
        self.delete_input
    }

    /// Whether a failed job's partial output is to be deleted.
    pub fn delete_output_on_fail_option(&self) -> (r: bool)
        ensures
            r == self@.delete_output_on_fail,
    {
        self.delete_output_on_fail
    }

    /// Whether a batch is in flight.
    pub fn running(&self) -> (r: bool)
        ensures
            r == self@.is_running,
    {
        self.is_running
    }

    /// The position the worker last reported as under way.
    pub fn processing_index(&self) -> (r: Option<usize>)
        ensures
            r is Some <==> self@.current_index is Some,
            r matches Some(i) ==> self@.current_index == Option::Some(i as int),
    {
        self.current_index
    }

    /// How many conflicts await a decision.
    pub fn pending_count(&self) -> (n: usize)
        ensures
            n == self@.pending.len(),
    {
        self.pending.len()
    }

    /// How many jobs are cleared for dispatch.
    pub fn resolved_count(&self) -> (n: usize)
        ensures
            n == self@.resolved.len(),
    {
        self.resolved.len()
    }

    /// The conflict presented for decision: the head of the pending queue.
    pub fn current_conflict(&self) -> (r: Option<&ConflictRecord>)
        ensures
            r is Some <==> self@.pending.len() > 0,
            r matches Some(c) ==> c@ == self@.pending[0],
    {
        if self.pending.len() > 0 {
            Option::Some(&self.pending[0])
        } else {
            Option::None
        }
    }

    /// Moves the resolved job list out for the worker: the batch is marked
    /// running, the sources of the dispatched jobs become the in-flight path
    /// set, and the in-flight position is cleared.
    pub fn launch(&mut self) -> (jobs: Vec<ConversionJob>)
        requires
            !old(self)@.is_running,
        ensures
            jobs_model(jobs@) == old(self)@.resolved,
            final(self)@ == (ControllerModel {
                is_running: true,
                resolved: Seq::<JobModel>::empty(),
                in_flight: sources_of(old(self)@.resolved),
                current_index: Option::None,
                ..old(self)@
            }),
    {
        let mut jobs: Vec<ConversionJob> = Vec::new();
        core::mem::swap(&mut jobs, &mut self.resolved);
        let n = jobs.len();
        let mut flight: Vec<String> = Vec::new();
        let mut i: usize = 0;
        while i < n
            invariant
                i <= n,
                n == jobs@.len(),
                flight@.len() == i,
                forall|j: int| 0 <= j < i ==> flight@[j]@ == jobs@[j]@.source,
            decreases n - i,
        {
            flight.push(jobs[i].source.clone());
            i = i + 1;
        }
        proof {
            assert(strings_model(flight@) =~= sources_of(jobs_model(jobs@)));
            assert(jobs_model(self.resolved@) =~= Seq::<JobModel>::empty());
        }
        self.in_flight = flight;
        self.is_running = true;
        self.current_index = Option::None;
        proof {
            assert(final(self)@ =~= (ControllerModel {
                is_running: true,
                resolved: Seq::<JobModel>::empty(),
                in_flight: sources_of(old(self)@.resolved),
                current_index: Option::None,
                ..old(self)@
            }));
        }
        jobs
    }

    /// Launches when — and only when — nothing blocks it: no batch running,
    /// no conflict pending, and at least one resolved job waiting.
    pub fn maybe_launch(&mut self) -> (launched: Option<Vec<ConversionJob>>)
        ensures
            (!old(self)@.is_running && old(self)@.pending.len() == 0 && old(
                self,
            )@.resolved.len() > 0) ==> {
                &&& launched_model(launched) == Option::Some(old(self)@.resolved)
                &&& final(self)@ == (ControllerModel {
                    is_running: true,
                    resolved: Seq::<JobModel>::empty(),
                    in_flight: sources_of(old(self)@.resolved),
                    current_index: Option::None,
                    ..old(self)@
                })
            },
            !(!old(self)@.is_running && old(self)@.pending.len() == 0 && old(
                self,
            )@.resolved.len() > 0) ==> launched is None && *final(self) == *old(self),
    {
        if !self.is_running && self.pending.len() == 0 && self.resolved.len() > 0 {
            Option::Some(self.launch())
        } else {
            Option::None
        }
    }

    /// Promotes the head conflict into the job list under its originally
    /// proposed output path.
    pub fn resolve_overwrite(&mut self)
        requires
            old(self)@.pending.len() > 0,
        ensures
            final(self)@ == (ControllerModel {
                pending: old(self)@.pending.drop_first(),
                resolved: old(self)@.resolved.push(
                    JobModel {
                        source: old(self)@.pending[0].source,
                        format: old(self)@.pending[0].format,
                        output: old(self)@.pending[0].proposed,
                    },
                ),
                ..old(self)@
            }),
    {
        let head = self.pending.remove(0);
        self.resolved.push(
            ConversionJob { source: head.source, format: head.format, output: head.proposed },
        );
        proof {
            assert(conflicts_model(self.pending@) =~= old(self)@.pending.drop_first());
            assert(jobs_model(self.resolved@) =~= old(self)@.resolved.push(
                JobModel {
                    source: old(self)@.pending[0].source,
                    format: old(self)@.pending[0].format,
                    output: old(self)@.pending[0].proposed,
                },
            ));
        }
    }

    /// Promotes the head conflict into the job list under a new file name,
    /// joined onto the output directory; the target format is kept.
    pub fn resolve_rename(&mut self, new_name: String)
        requires
            old(self)@.pending.len() > 0,
            new_name@.len() > 0,
        ensures
            final(self)@ == (ControllerModel {
                pending: old(self)@.pending.drop_first(),
                resolved: old(self)@.resolved.push(
                    JobModel {
                        source: old(self)@.pending[0].source,
                        format: old(self)@.pending[0].format,
                        output: join_path(old(self)@.output_dir, new_name@),
                    },
                ),
                ..old(self)@
            }),
    {
        let head = self.pending.remove(0);
        let output = join_with(&self.output_dir, &new_name);
        self.resolved.push(
            ConversionJob { source: head.source, format: head.format, output },
        );
        proof {
            assert(conflicts_model(self.pending@) =~= old(self)@.pending.drop_first());
            assert(jobs_model(self.resolved@) =~= old(self)@.resolved.push(
                JobModel {
                    source: old(self)@.pending[0].source,
                    format: old(self)@.pending[0].format,
                    output: join_path(old(self)@.output_dir, new_name@),
                },
            ));
        }
    }

    /// Drops the head conflict: its source file is excluded from the batch.
    pub fn resolve_discard(&mut self)
        requires
            old(self)@.pending.len() > 0,
        ensures
            final(self)@ == (ControllerModel {
                pending: old(self)@.pending.drop_first(),
                ..old(self)@
            }),
    {
        self.pending.remove(0);
        proof {
            assert(conflicts_model(self.pending@) =~= old(self)@.pending.drop_first());
        }
    }

    /// Plans a batch from the queue, with `existing[i]` telling whether the
    /// planned output path of entry `i` is already taken on disk. A no-op on
    /// an empty queue or while a batch runs; otherwise the log is cleared,
    /// conflicted entries queue up for decisions, free entries become jobs,
    /// and with no conflict at all the batch launches at once.
    pub fn plan_batch(&mut self, existing: &Vec<bool>) -> (launched: Option<Vec<ConversionJob>>)
        requires
            existing@.len() == old(self)@.entries.len(),
        ensures
            plan_post(old(self)@, final(self)@, existing@, launched_model(launched)),
    {
        if self.entries.len() == 0 || self.is_running {
            return Option::None;
        }
        self.log = String::new();
        let n = self.entries.len();
        let mut res: Vec<ConversionJob> = Vec::new();
        let mut pend: Vec<ConflictRecord> = Vec::new();
        let mut i: usize = 0;
        while i < n
            invariant
                i <= n,
                n == self.entries@.len(),
                existing@.len() == n,
                jobs_model(res@) == plan_resolved(
                    self.output_dir@,
                    entries_model(self.entries@).subrange(0, i as int),
                    existing@.subrange(0, i as int),
                ),
                conflicts_model(pend@) == plan_conflicts(
                    self.output_dir@,
                    entries_model(self.entries@).subrange(0, i as int),
                    existing@.subrange(0, i as int),
                ),
            decreases n - i,
        {
            let e_path = self.entries[i].path.clone();
            let e_format = self.entries[i].format.clone();
            let outp = output_path_of(&self.output_dir, &e_path, &e_format);
            proof {
                let em = entries_model(self.entries@);
                assert(em.subrange(0, i + 1).drop_last() =~= em.subrange(0, i as int));
                assert(existing@.subrange(0, i + 1).drop_last() =~= existing@.subrange(
                    0,
                    i as int,
                ));
                assert(em.subrange(0, i + 1).last() == self.entries@[i as int]@);
                assert(existing@.subrange(0, i + 1).last() == existing@[i as int]);
            }
            if existing[i] {
                pend.push(
                    ConflictRecord { source: e_path, proposed: outp, format: e_format },
                );
                proof {
                    assert(conflicts_model(pend@) =~= plan_conflicts(
                        self.output_dir@,
                        entries_model(self.entries@).subrange(0, i + 1),
                        existing@.subrange(0, i + 1),
                    ));
                    assert(jobs_model(res@) =~= plan_resolved(
                        self.output_dir@,
                        entries_model(self.entries@).subrange(0, i + 1),
                        existing@.subrange(0, i + 1),
                    ));
                }
            } else {
                res.push(ConversionJob { source: e_path, format: e_format, output: outp });
                proof {
                    assert(jobs_model(res@) =~= plan_resolved(
                        self.output_dir@,
                        entries_model(self.entries@).subrange(0, i + 1),
                        existing@.subrange(0, i + 1),
                    ));
                    assert(conflicts_model(pend@) =~= plan_conflicts(
                        self.output_dir@,
                        entries_model(self.entries@).subrange(0, i + 1),
                        existing@.subrange(0, i + 1),
                    ));
                }
            }
            i = i + 1;
        }
        proof {
            assert(entries_model(self.entries@).subrange(0, n as int) =~= entries_model(
                self.entries@,
            ));
            assert(existing@.subrange(0, n as int) =~= existing@);
        }
        let no_conflicts = pend.len() == 0;
        self.pending = pend;
        self.resolved = res;
        if no_conflicts {
            proof {
                assert(conflicts_model(self.pending@) =~= Seq::<ConflictModel>::empty());
            }
            Option::Some(self.launch())
        } else {
            Option::None
        }
    }

    /// Plans a batch from the queue, probing the filesystem itself for each
    /// planned output path. What was found on disk is reflected in the
    /// witness sequence: the state changes exactly as [`plan_batch`] would
    /// change it for those findings.
    pub fn start_conversion(&mut self) -> (launched: Option<Vec<ConversionJob>>)
        ensures
            exists|taken: Seq<bool>|
                #![auto]
                taken.len() == old(self)@.entries.len() && plan_post(
                    old(self)@,
                    final(self)@,
                    taken,
                    launched_model(launched),
                ),
            (old(self)@.entries.len() == 0 || old(self)@.is_running) ==> launched is None
                && *final(self) == *old(self),
    {
        if self.entries.len() == 0 || self.is_running {
            proof {
                let taken = Seq::new(self@.entries.len(), |i: int| false);
                assert(plan_post(self@, self@, taken, launched_model(Option::None)));
            }
            return Option::None;
        }
        let n = self.entries.len();
        let mut flags: Vec<bool> = Vec::new();
        let mut i: usize = 0;
        while i < n
            invariant
                i <= n,
                n == self.entries@.len(),
                flags@.len() == i,
            decreases n - i,
        {
            let outp = output_path_of(
                &self.output_dir,
                &self.entries[i].path,
                &self.entries[i].format,
            );
            flags.push(output_exists(&outp));
            i = i + 1;
        }
        let launched = self.plan_batch(&flags);
        proof {
            assert(plan_post(old(self)@, self@, flags@, launched_model(launched)));
        }
        launched
    }
}

/// The jobs the free entries turn into, in queue order: entry `i` becomes a
/// job when `taken[i]` is false.
pub open spec fn plan_resolved(
    dir: Seq<char>,
    entries: Seq<EntryModel>,
    taken: Seq<bool>,
) -> Seq<JobModel>
    decreases entries.len(),
{
    if entries.len() == 0 {
        Seq::empty()
    } else {
        plan_resolved(dir, entries.drop_last(), taken.drop_last()) + if taken.last() {
            Seq::<JobModel>::empty()
        } else {
            seq![planned_job(dir, entries.last())]
        }
    }
}

/// The conflict records the taken entries turn into, in queue order: entry
/// `i` becomes a record when `taken[i]` is true.
pub open spec fn plan_conflicts(
    dir: Seq<char>,
    entries: Seq<EntryModel>,
    taken: Seq<bool>,
) -> Seq<ConflictModel>
    decreases entries.len(),
{
    if entries.len() == 0 {
        Seq::empty()
    } else {
        plan_conflicts(dir, entries.drop_last(), taken.drop_last()) + if taken.last() {
            seq![planned_conflict(dir, entries.last())]
        } else {
            Seq::<ConflictModel>::empty()
        }
    }
}

/// The abstract value of a launch result.
pub open spec fn launched_model(r: Option<Vec<ConversionJob>>) -> Option<Seq<JobModel>> {
    match r {
        Option::Some(jobs) => Option::Some(jobs_model(jobs@)),
        Option::None => Option::None,
    }
}

/// How planning a batch changes the controller, given which planned output
/// paths were already taken on disk. An empty queue or a running batch
/// leaves everything as it was. Otherwise the log empties, the queue and
/// the settings stay, the taken entries stand as the pending conflicts in
/// queue order — and when there is none, the free entries' jobs launch at
/// once.
pub open spec fn plan_post(
    pre: ControllerModel,
    post: ControllerModel,
    taken: Seq<bool>,
    launched: Option<Seq<JobModel>>,
) -> bool {
    if pre.entries.len() == 0 || pre.is_running {
        post == pre && launched is None
    } else {
        let resolved = plan_resolved(pre.output_dir, pre.entries, taken);
        let conflicts = plan_conflicts(pre.output_dir, pre.entries, taken);
        &&& post.entries == pre.entries
        &&& post.output_dir == pre.output_dir
        &&& post.bitrate == pre.bitrate
        &&& post.log == Seq::<char>::empty()
        &&& post.delete_input == pre.delete_input
        &&& post.delete_output_on_fail == pre.delete_output_on_fail
        &&& post.global_format == pre.global_format
        &&& post.pending == conflicts
        &&& if conflicts.len() == 0 {
            &&& launched == Option::Some(resolved)
            &&& post.is_running
            &&& post.resolved == Seq::<JobModel>::empty()
            &&& post.in_flight == sources_of(resolved)
            &&& post.current_index is None
        } else {
            &&& launched is None
            &&& !post.is_running
            &&& post.resolved == resolved
            &&& post.in_flight == pre.in_flight
            &&& post.current_index == pre.current_index
        }
    }
}

/// Relies on std::path::Path::exists: whether something is present on disk
/// at this path right now. The answer depends on the filesystem of the
/// moment, so nothing is promised of it.
#[verifier::external_body]
fn output_exists(p: &String) -> bool {
    std::path::Path::new(p.as_str()).exists()
}

/// The entries that survive a completed run: those whose path is not in the
/// run's path set, in their original order.
pub open spec fn keep_unfinished(entries: Seq<EntryModel>, gone: Seq<Seq<char>>) -> Seq<EntryModel>
    decreases entries.len(),
{
    if entries.len() == 0 {
        Seq::empty()
    } else if gone.contains(entries.first().path) {
        keep_unfinished(entries.drop_first(), gone)
    } else {
        seq![entries.first()] + keep_unfinished(entries.drop_first(), gone)
    }
}

/// How one worker event changes the controller. A log line is appended to
/// the log pane; a progress mark moves the in-flight position; the closing
/// event writes the summary line, stops the run, removes every entry of the
/// run's path set from the queue — converted or failed alike — and clears
/// the path set and the position.
pub open spec fn apply_event(s: ControllerModel, ev: EventModel) -> ControllerModel {
    match ev {
        EventModel::Log(line) => ControllerModel { log: s.log + line, ..s },
        EventModel::Progress(i) => ControllerModel { current_index: Option::Some(i), ..s },
        EventModel::Done { success, fail } => ControllerModel {
            log: s.log + done_line(success as nat, fail as nat),
            is_running: false,
            entries: keep_unfinished(s.entries, s.in_flight),
            in_flight: Seq::empty(),
            current_index: Option::None,
            ..s
        },
    }
}

/// The events of one drain, applied in arrival order.
pub open spec fn apply_events(s: ControllerModel, evs: Seq<EventModel>) -> ControllerModel
    decreases evs.len(),
{
    if evs.len() == 0 {
        s
    } else {
        apply_events(apply_event(s, evs.first()), evs.drop_first())
    }
}

/// Whether `v` holds a string equal to `s`.
fn contains_string(v: &Vec<String>, s: &String) -> (r: bool)
    ensures
        r == strings_model(v@).contains(s@),
{
    let n = v.len();
    let mut i: usize = 0;
    while i < n
        invariant
            i <= n,
            n == v@.len(),
            forall|j: int| 0 <= j < i ==> v@[j]@ != s@,
        decreases n - i,
    {
        if v[i].eq(s) {
            proof {
                assert(strings_model(v@)[i as int] == s@);
            }
            return true;
        }
        i = i + 1;
    }
    proof {
        assert forall|j: int| 0 <= j < strings_model(v@).len() implies strings_model(v@)[j]
            != s@ by {
            assert(strings_model(v@)[j] == v@[j]@);
        }
    }
    false
}

/// The queue with every entry of the run's path set removed.
fn filter_entries(entries: &Vec<FileEntry>, gone: &Vec<String>) -> (r: Vec<FileEntry>)
    ensures
        entries_model(r@) == keep_unfinished(entries_model(entries@), strings_model(gone@)),
{
    let n = entries.len();
    let mut kept: Vec<FileEntry> = Vec::new();
    let mut i: usize = 0;
    proof {
        assert(entries_model(entries@).skip(0) =~= entries_model(entries@));
        assert(entries_model(kept@) + keep_unfinished(
            entries_model(entries@),
            strings_model(gone@),
        ) =~= keep_unfinished(entries_model(entries@), strings_model(gone@)));
    }
    while i < n
        invariant
            i <= n,
            n == entries@.len(),
            entries_model(kept@) + keep_unfinished(
                entries_model(entries@).skip(i as int),
                strings_model(gone@),
            ) == keep_unfinished(entries_model(entries@), strings_model(gone@)),
        decreases n - i,
    {
        let ghost em = entries_model(entries@);
        let ghost gm = strings_model(gone@);
        proof {
            assert(em.skip(i as int).first() == entries@[i as int]@);
            assert(em.skip(i as int).drop_first() =~= em.skip(i + 1));
        }
        if !contains_string(gone, &entries[i].path) {
            kept.push(
                FileEntry {
                    path: entries[i].path.clone(),
                    format: entries[i].format.clone(),
                },
            );
            proof {
                assert(entries_model(kept@) =~= entries_model(kept@.drop_last()) + seq![
                    entries@[i as int]@,
                ]);
                assert(entries_model(kept@) + keep_unfinished(em.skip(i + 1), gm)
                    =~= entries_model(kept@.drop_last()) + keep_unfinished(
                    em.skip(i as int),
                    gm,
                ));
            }
        }
        i = i + 1;
    }
    proof {
        assert(entries_model(entries@).skip(n as int) =~= Seq::<EntryModel>::empty());
        assert(entries_model(kept@) + Seq::<EntryModel>::empty() =~= entries_model(kept@));
    }
    kept
}

impl AudioApp {
    /// Applies one worker event, as [`apply_event`] says.
    pub fn handle_event(&mut self, ev: &WorkerEvent)
        ensures
            final(self)@ == apply_event(old(self)@, ev@),
    {
        match ev {
            WorkerEvent::Log(line) => {
                self.log.append(line.as_str());
            },
            WorkerEvent::Progress(index) => {
                self.current_index = Option::Some(*index);
            },
            WorkerEvent::Done { success, fail } => {
                let line = make_done_line(*success, *fail);
                self.log.append(line.as_str());
                self.is_running = false;
                self.entries = filter_entries(&self.entries, &self.in_flight);
                self.in_flight = Vec::new();
                self.current_index = Option::None;
                proof {
                    assert(strings_model(self.in_flight@) =~= Seq::<Seq<char>>::empty());
                }
            },
        }
    }

    /// Applies every event of one non-blocking poll, in arrival order. The
    /// caller gathers the events the channel currently holds and hands them
    /// over; an empty batch of events leaves the state untouched.
    pub fn drain(&mut self, events: &Vec<WorkerEvent>)
        ensures
            final(self)@ == apply_events(old(self)@, events_model(events@)),
    {
        let n = events.len();
        let mut i: usize = 0;
        proof {
            assert(events_model(events@).skip(0) =~= events_model(events@));
        }
        while i < n
            invariant
                i <= n,
                n == events@.len(),
                apply_events(self@, events_model(events@).skip(i as int)) == apply_events(
                    old(self)@,
                    events_model(events@),
                ),
            decreases n - i,
        {
            let ghost evm = events_model(events@);
            proof {
                assert(evm.skip(i as int).first() == events@[i as int]@);
                assert(evm.skip(i as int).drop_first() =~= evm.skip(i + 1));
            }
            self.handle_event(&events[i]);
            i = i + 1;
        }
        proof {
            assert(events_model(events@).skip(n as int) =~= Seq::<EventModel>::empty());
        }
    }
}

/// How many of the planned output paths were already taken.
pub open spec fn count_taken(taken: Seq<bool>) -> int
    decreases taken.len(),
{
    if taken.len() == 0 {
        0
    } else {
        count_taken(taken.drop_last()) + if taken.last() {
            1int
        } else {
            0int
        }
    }
}

pub proof fn lemma_plan_counts(dir: Seq<char>, entries: Seq<EntryModel>, taken: Seq<bool>)
    requires
        taken.len() == entries.len(),
    ensures
        0 <= count_taken(taken) <= taken.len(),
        plan_conflicts(dir, entries, taken).len() == count_taken(taken),
        plan_resolved(dir, entries, taken).len() == entries.len() - count_taken(taken),
    decreases entries.len(),
{
    if entries.len() > 0 {
        lemma_plan_counts(dir, entries.drop_last(), taken.drop_last());
    }
}

pub proof fn lemma_count_taken_nonneg(taken: Seq<bool>)
    ensures
        count_taken(taken) >= 0,
    decreases taken.len(),
{
    if taken.len() > 0 {
        lemma_count_taken_nonneg(taken.drop_last());
    }
}

pub proof fn lemma_count_taken_pos(taken: Seq<bool>, k: int)
    requires
        0 <= k < taken.len(),
        taken[k],
    ensures
        count_taken(taken) > 0,
    decreases taken.len(),
{
    if k < taken.len() - 1 {
        lemma_count_taken_pos(taken.drop_last(), k);
    } else {
        lemma_count_taken_nonneg(taken.drop_last());
    }
}

proof fn lemma_plan_all_free(dir: Seq<char>, entries: Seq<EntryModel>, taken: Seq<bool>)
    requires
        taken.len() == entries.len(),
        forall|i: int| 0 <= i < taken.len() ==> !taken[i],
    ensures
        plan_conflicts(dir, entries, taken) == Seq::<ConflictModel>::empty(),
        plan_resolved(dir, entries, taken).len() == entries.len(),
        forall|i: int|
            0 <= i < entries.len() ==> plan_resolved(dir, entries, taken)[i] == planned_job(
                dir,
                entries[i],
            ),
    decreases entries.len(),
{
    if entries.len() == 0 {
        assert(plan_conflicts(dir, entries, taken) =~= Seq::<ConflictModel>::empty());
    } else {
        lemma_plan_all_free(dir, entries.drop_last(), taken.drop_last());
        assert(plan_conflicts(dir, entries, taken) =~= Seq::<ConflictModel>::empty());
        assert(plan_resolved(dir, entries, taken) == plan_resolved(
            dir,
            entries.drop_last(),
            taken.drop_last(),
        ) + seq![planned_job(dir, entries.last())]);
    }
}

/// Law: on a non-empty, idle queue none of whose planned output paths is
/// taken, planning launches the batch at once — no conflict prompt, one job
/// per entry, in queue order.
pub proof fn lemma_no_conflict_direct_launch(
    pre: ControllerModel,
    post: ControllerModel,
    taken: Seq<bool>,
    launched: Option<Seq<JobModel>>,
)
    requires
        plan_post(pre, post, taken, launched),
        pre.entries.len() > 0,
        !pre.is_running,
        taken.len() == pre.entries.len(),
        forall|i: int| 0 <= i < taken.len() ==> !taken[i],
    ensures
        post.is_running,
        post.pending.len() == 0,
        launched is Some,
        launched.unwrap().len() == pre.entries.len(),
        forall|i: int|
            0 <= i < pre.entries.len() ==> launched.unwrap()[i] == planned_job(
                pre.output_dir,
                pre.entries[i],
            ),
{
    lemma_plan_all_free(pre.output_dir, pre.entries, taken);
}

/// Law: planning yields exactly one conflict record per entry whose planned
/// output path is taken — the pending queue is `plan_conflicts`, of length
/// `count_taken` — and while any is pending the batch does not launch.
pub proof fn lemma_conflicts_block_launch(
    pre: ControllerModel,
    post: ControllerModel,
    taken: Seq<bool>,
    launched: Option<Seq<JobModel>>,
)
    requires
        plan_post(pre, post, taken, launched),
        pre.entries.len() > 0,
        !pre.is_running,
        taken.len() == pre.entries.len(),
        exists|k: int| 0 <= k < taken.len() && taken[k],
    ensures
        post.pending == plan_conflicts(pre.output_dir, pre.entries, taken),
        post.pending.len() == count_taken(taken),
        launched is None,
        !post.is_running,
{
    let k = choose|k: int| 0 <= k < taken.len() && taken[k];
    lemma_count_taken_pos(taken, k);
    lemma_plan_counts(pre.output_dir, pre.entries, taken);
}

/// Law: discarding the head conflict excludes its source file from the
/// batch. When that source stands in no resolved job and in no other
/// pending record — in particular, when the queue holds no duplicate of it —
/// it stands in neither list afterwards, so no job of the eventual launch,
/// and neither counter of the final report, can involve it.
pub proof fn lemma_discard_excludes(pre: ControllerModel, post: ControllerModel)
    requires
        pre.pending.len() > 0,
        post == (ControllerModel { pending: pre.pending.drop_first(), ..pre }),
        !sources_of(pre.resolved).contains(pre.pending[0].source),
        forall|i: int|
            1 <= i < pre.pending.len() ==> #[trigger] pre.pending[i].source != pre.pending[0].source,
    ensures
        !sources_of(post.resolved).contains(pre.pending[0].source),
        forall|i: int|
            0 <= i < post.pending.len() ==> #[trigger] post.pending[i].source != pre.pending[0].source,
{
    assert forall|i: int| 0 <= i < post.pending.len() implies post.pending[i].source
        != pre.pending[0].source by {
        assert(post.pending[i] == pre.pending[i + 1]);
    }
}

proof fn lemma_keep_unfinished_excludes(entries: Seq<EntryModel>, gone: Seq<Seq<char>>)
    ensures
        forall|i: int|
            0 <= i < keep_unfinished(entries, gone).len() ==> !gone.contains(
                keep_unfinished(entries, gone)[i].path,
            ),
    decreases entries.len(),
{
    if entries.len() > 0 {
        lemma_keep_unfinished_excludes(entries.drop_first(), gone);
        let r = keep_unfinished(entries, gone);
        let rest = keep_unfinished(entries.drop_first(), gone);
        if !gone.contains(entries.first().path) {
            assert forall|i: int| 0 <= i < r.len() implies !gone.contains(r[i].path) by {
                if i == 0 {
                    assert(r[0] == entries.first());
                } else {
                    assert(r[i] == rest[i - 1]);
                }
            }
        }
    }
}

/// Law: after the closing event of a run, no entry whose source path was in
/// the run's path set remains in the queue — converted and failed alike —
/// and the path set itself is cleared.
pub proof fn lemma_done_removes_run(s: ControllerModel, success: int, fail: int)
    ensures
        forall|i: int|
            0 <= i < apply_event(s, EventModel::Done { success, fail }).entries.len()
                ==> !s.in_flight.contains(
                apply_event(s, EventModel::Done { success, fail }).entries[i].path,
            ),
        apply_event(s, EventModel::Done { success, fail }).in_flight == Seq::<Seq<char>>::empty(),
        !apply_event(s, EventModel::Done { success, fail }).is_running,
{
    lemma_keep_unfinished_excludes(s.entries, s.in_flight);
}

/// Law: a drain that finds no events leaves the controller exactly as it
/// was.
pub proof fn lemma_drain_no_events(s: ControllerModel)
    ensures
        apply_events(s, Seq::<EventModel>::empty()) == s,
{
}

pub proof fn lemma_apply_events_concat(s: ControllerModel, a: Seq<EventModel>, b: Seq<EventModel>)
    ensures
        apply_events(s, a + b) == apply_events(apply_events(s, a), b),
    decreases a.len(),
{
    if a.len() == 0 {
        assert(a + b =~= b);
    } else {
        assert((a + b).first() == a.first());
        assert((a + b).drop_first() =~= a.drop_first() + b);
        lemma_apply_events_concat(apply_event(s, a.first()), a.drop_first(), b);
    }
}

proof fn lemma_job_events_preserve_queue(
    s: ControllerModel,
    jobs: Seq<JobModel>,
    outcomes: Seq<OutcomeModel>,
    long_paths: bool,
)
    requires
        outcomes.len() <= jobs.len(),
    ensures
        apply_events(s, batch_trace(jobs, outcomes, long_paths)) == (ControllerModel {
            log: apply_events(s, batch_trace(jobs, outcomes, long_paths)).log,
            current_index: apply_events(s, batch_trace(jobs, outcomes, long_paths)).current_index,
            ..s
        }),
    decreases outcomes.len(),
{
    if outcomes.len() == 0 {
    } else {
        lemma_job_events_preserve_queue(s, jobs, outcomes.drop_last(), long_paths);
        let prev = batch_trace(jobs, outcomes.drop_last(), long_paths);
        let pair = job_events(
            outcomes.len() - 1,
            jobs[outcomes.len() - 1],
            outcomes.last(),
            long_paths,
        );
        lemma_apply_events_concat(s, prev, pair);
        let after_prev = apply_events(s, prev);
        reveal_with_fuel(apply_events, 3);
        assert(pair.first() == pair[0]);
        assert(pair.drop_first() =~= seq![pair[1]]);
        assert(seq![pair[1]].first() == pair[1]);
        assert(seq![pair[1]].drop_first() =~= Seq::<EventModel>::empty());
        assert(apply_events(after_prev, pair) == apply_events(
            apply_event(after_prev, pair[0]),
            seq![pair[1]],
        ));
        assert(apply_events(apply_event(after_prev, pair[0]), seq![pair[1]]) == apply_event(
            apply_event(after_prev, pair[0]),
            pair[1],
        ));
    }
}

/// Law: one complete batch reconciles the queue. Take a controller whose
/// in-flight path set is the sources of the launched jobs, and apply the
/// whole event stream a worker emits for those jobs. The progress and log
/// events touch only the log pane and the in-flight position; the closing
/// event then stops the run and leaves a queue from which every launched
/// source — converted or failed alike — is gone.
pub proof fn lemma_full_run_reconciles_queue(
    s: ControllerModel,
    jobs: Seq<JobModel>,
    outcomes: Seq<OutcomeModel>,
    long_paths: bool,
)
    requires
        outcomes.len() == jobs.len(),
        s.in_flight == sources_of(jobs),
    ensures
        !apply_events(s, full_batch_trace(jobs, outcomes, long_paths)).is_running,
        apply_events(s, full_batch_trace(jobs, outcomes, long_paths)).in_flight
            == Seq::<Seq<char>>::empty(),
        forall|i: int|
            0 <= i < apply_events(s, full_batch_trace(jobs, outcomes, long_paths)).entries.len()
                ==> !sources_of(jobs).contains(
                #[trigger] apply_events(
                    s,
                    full_batch_trace(jobs, outcomes, long_paths),
                ).entries[i].path,
            ),
{
    let trace = batch_trace(jobs, outcomes, long_paths);
    let done = EventModel::Done {
        success: count_successes(outcomes),
        fail: outcomes.len() - count_successes(outcomes),
    };
    lemma_apply_events_concat(s, trace, seq![done]);
    lemma_job_events_preserve_queue(s, jobs, outcomes, long_paths);
    let before_done = apply_events(s, trace);
    reveal_with_fuel(apply_events, 3);
    assert(seq![done].first() == done);
    assert(seq![done].drop_first() =~= Seq::<EventModel>::empty());
    assert(apply_events(before_done, seq![done]) == apply_event(before_done, done));
    lemma_done_removes_run(before_done, count_successes(outcomes), outcomes.len() - count_successes(outcomes));
}

} // verus!
