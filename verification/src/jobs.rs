//! The data the batch pipeline moves around: queued entries, finalized
//! conversion jobs, and pending output-path conflicts.

use vstd::prelude::*;
use crate::paths::output_path;

verus! {

/// A file queued for conversion: its source path and the target format tag.
#[derive(Debug, Clone, PartialEq, Eq)]
pub struct FileEntry {
    pub path: String,
    pub format: String,
}

/// Abstract value of a [`FileEntry`].
pub struct EntryModel {
    pub path: Seq<char>,
    pub format: Seq<char>,
}

impl View for FileEntry {
    type V = EntryModel;

    open spec fn view(&self) -> EntryModel {
        EntryModel { path: self.path@, format: self.format@ }
    }
}

/// An immutable description of one conversion: source path, target format,
/// and the resolved output path the transcoder will write.
#[derive(Debug, Clone, PartialEq, Eq)]
pub struct ConversionJob {
    pub source: String,
    pub format: String,
    pub output: String,
}

/// Abstract value of a [`ConversionJob`].
pub struct JobModel {
    pub source: Seq<char>,
    pub format: Seq<char>,
    pub output: Seq<char>,
}

impl View for ConversionJob {
    type V = JobModel;

    open spec fn view(&self) -> JobModel {
        JobModel { source: self.source@, format: self.format@, output: self.output@ }
    }
}

/// An entry whose planned output path already exists: it waits in the
/// pending queue for an overwrite / rename / discard decision.
#[derive(Debug, Clone, PartialEq, Eq)]
pub struct ConflictRecord {
    pub source: String,
    pub proposed: String,
    pub format: String,
}

/// Abstract value of a [`ConflictRecord`].
pub struct ConflictModel {
    pub source: Seq<char>,
    pub proposed: Seq<char>,
    pub format: Seq<char>,
}

impl View for ConflictRecord {
    type V = ConflictModel;

    open spec fn view(&self) -> ConflictModel {
        ConflictModel { source: self.source@, proposed: self.proposed@, format: self.format@ }
    }
}

/// The job an entry turns into when its planned output path is free.
pub open spec fn planned_job(dir: Seq<char>, e: EntryModel) -> JobModel {
    JobModel { source: e.path, format: e.format, output: output_path(dir, e.path, e.format) }
}

/// The conflict record an entry turns into when its planned output path is
/// taken.
pub open spec fn planned_conflict(dir: Seq<char>, e: EntryModel) -> ConflictModel {
    ConflictModel { source: e.path, proposed: output_path(dir, e.path, e.format), format: e.format }
}

/// The source paths of a job list, in order.
pub open spec fn sources_of(jobs: Seq<JobModel>) -> Seq<Seq<char>> {
    jobs.map_values(|j: JobModel| j.source)
}

} // verus!
