use audio_batch::controller::AudioApp;
use audio_batch::events::{JobOutcome, WorkerEvent};
use audio_batch::jobs::ConversionJob;
use audio_batch::worker::ConversionWorker;

fn s(t: &str) -> String {
    t.to_string()
}

fn controller_with(paths: &[&str]) -> AudioApp {
    let mut c = AudioApp::new(s("out"));
    let owned: Vec<String> = paths.iter().map(|p| s(p)).collect();
    c.add(&owned);
    c
}

/// Runs a full worker pass over the launched jobs, every transcoder
/// invocation yielding the given outcomes, and returns the event stream.
fn run_worker(jobs: Vec<ConversionJob>, outcomes: &[JobOutcome]) -> Vec<WorkerEvent> {
    let mut w = ConversionWorker::new(jobs, s("192k"), false, true, false);
    let mut events = Vec::new();
    let mut i = 0;
    while let Some((ev, _args)) = w.begin_job() {
        events.push(ev);
        let (ev, _cleanup) = w.finish_job(outcomes[i].clone());
        events.push(ev);
        i += 1;
    }
    events.push(w.finish_batch());
    events
}

#[test]
fn new_controller_has_documented_defaults() {
    let c = AudioApp::new(s("out"));
    assert_eq!(c.bitrate_text(), "192k");
    assert_eq!(c.global_format_tag(), "mp3");
    assert_eq!(c.output_dir_text(), "out");
    assert_eq!(c.entry_count(), 0);
    assert_eq!(c.pending_count(), 0);
    assert_eq!(c.resolved_count(), 0);
    assert!(!c.running());
    assert!(c.processing_index().is_none());
    assert_eq!(c.log_text(), "");
}

#[test]
fn global_format_switch_rewrites_queue_and_future_adds() {
    let mut c = controller_with(&["a.wav", "b.wav", "c.wav"]);
    assert_eq!(c.entry_format(0), "mp3");
    c.set_global_format(s("flac"));
    assert_eq!(c.entry_format(0), "flac");
    assert_eq!(c.entry_format(1), "flac");
    assert_eq!(c.entry_format(2), "flac");
    c.add(&vec![s("d.wav")]);
    assert_eq!(c.entry_format(3), "flac");
    assert_eq!(c.entry_path(3), "d.wav");
}

#[test]
fn entry_format_set_by_index() {
    let mut c = controller_with(&["a.wav", "b.wav"]);
    c.set_entry_format(1, s("opus"));
    assert_eq!(c.entry_format(0), "mp3");
    assert_eq!(c.entry_format(1), "opus");
}

#[test]
fn stale_entry_index_is_a_no_op() {
    let mut c = controller_with(&["a.wav"]);
    c.set_entry_format(5, s("opus"));
    assert_eq!(c.entry_count(), 1);
    assert_eq!(c.entry_format(0), "mp3");
}

#[test]
fn clear_all_empties_the_queue() {
    let mut c = controller_with(&["a.wav", "b.wav"]);
    c.clear_entries();
    assert_eq!(c.entry_count(), 0);
}

#[test]
fn no_conflicts_launch_directly() {
    let mut c = controller_with(&["a.wav", "b.wav"]);
    let launched = c.plan_batch(&vec![false, false]).expect("launch");
    assert_eq!(launched.len(), 2);
    assert_eq!(launched[0].source, "a.wav");
    assert_eq!(launched[0].output, "out/a.mp3");
    assert_eq!(launched[1].source, "b.wav");
    assert_eq!(launched[1].output, "out/b.mp3");
    assert!(c.running());
    assert_eq!(c.pending_count(), 0);
    assert_eq!(c.resolved_count(), 0);
    assert_eq!(c.entry_count(), 2);
}

#[test]
fn empty_queue_never_launches() {
    let mut c = AudioApp::new(s("out"));
    assert!(c.plan_batch(&vec![]).is_none());
    assert!(c.start_conversion().is_none());
    assert!(!c.running());
}

#[test]
fn running_batch_blocks_a_new_plan() {
    let mut c = controller_with(&["a.wav"]);
    let _jobs = c.plan_batch(&vec![false]).expect("launch");
    assert!(c.running());
    assert!(c.plan_batch(&vec![false]).is_none());
}

#[test]
fn conflicts_are_queued_one_per_taken_entry() {
    let mut c = controller_with(&["a.wav", "b.wav", "c.wav"]);
    let launched = c.plan_batch(&vec![true, false, true]);
    assert!(launched.is_none());
    assert!(!c.running());
    assert_eq!(c.pending_count(), 2);
    assert_eq!(c.resolved_count(), 1);
    let head = c.current_conflict().expect("head conflict");
    assert_eq!(head.source, "a.wav");
    assert_eq!(head.proposed, "out/a.mp3");
    assert_eq!(head.format, "mp3");
}

#[test]
fn overwrite_keeps_the_proposed_path() {
    let mut c = controller_with(&["a.wav", "b.wav"]);
    assert!(c.plan_batch(&vec![true, false]).is_none());
    c.resolve_overwrite();
    assert_eq!(c.pending_count(), 0);
    let launched = c.maybe_launch().expect("launch after resolution");
    assert_eq!(launched.len(), 2);
    assert_eq!(launched[0].source, "b.wav");
    assert_eq!(launched[1].source, "a.wav");
    assert_eq!(launched[1].output, "out/a.mp3");
    assert!(c.running());
}

#[test]
fn rename_joins_the_new_name_onto_the_output_dir() {
    let mut c = controller_with(&["a.wav"]);
    assert!(c.plan_batch(&vec![true]).is_none());
    c.resolve_rename(s("x.mp3"));
    let launched = c.maybe_launch().expect("launch after rename");
    assert_eq!(launched.len(), 1);
    assert_eq!(launched[0].source, "a.wav");
    assert_eq!(launched[0].output, "out/x.mp3");
    assert_eq!(launched[0].format, "mp3");
}

#[test]
fn discard_drops_the_source_from_the_batch() {
    let mut c = controller_with(&["a.wav", "b.wav"]);
    assert!(c.plan_batch(&vec![true, true]).is_none());
    c.resolve_discard();
    c.resolve_overwrite();
    let launched = c.maybe_launch().expect("launch after decisions");
    assert_eq!(launched.len(), 1);
    assert!(launched.iter().all(|j| j.source != "a.wav"));
    assert_eq!(launched[0].source, "b.wav");

    let events = run_worker(launched, &[JobOutcome::Success]);
    assert_eq!(*events.last().unwrap(), WorkerEvent::Done { success: 1, fail: 0 });
    let mut c2 = c;
    c2.drain(&events);
    // The discarded file stays queued; the converted one is gone.
    assert_eq!(c2.entry_count(), 1);
    assert_eq!(c2.entry_path(0), "a.wav");
}

#[test]
fn discarding_every_conflict_launches_nothing() {
    let mut c = controller_with(&["a.wav"]);
    assert!(c.plan_batch(&vec![true]).is_none());
    c.resolve_discard();
    assert!(c.maybe_launch().is_none());
    assert!(!c.running());
    assert_eq!(c.entry_count(), 1);
}

#[test]
fn full_batch_cycle_empties_the_queue() {
    let mut c = controller_with(&["a.wav", "b.wav"]);
    let launched = c.plan_batch(&vec![false, false]).expect("launch");
    let events = run_worker(launched, &[JobOutcome::Success, JobOutcome::Success]);

    // Progress for each job precedes its log line; the summary comes last.
    assert_eq!(events[0], WorkerEvent::Progress(0));
    assert_eq!(events[1], WorkerEvent::Log(s("OK: a.wav -> out/a.mp3\n")));
    assert_eq!(events[2], WorkerEvent::Progress(1));
    assert_eq!(events[3], WorkerEvent::Log(s("OK: b.wav -> out/b.mp3\n")));
    assert_eq!(events[4], WorkerEvent::Done { success: 2, fail: 0 });

    c.drain(&events);
    assert_eq!(c.entry_count(), 0);
    assert!(!c.running());
    assert!(c.processing_index().is_none());
    assert_eq!(
        c.log_text(),
        "OK: a.wav -> out/a.mp3\nOK: b.wav -> out/b.mp3\n=== Done: success=2 fail=0 ===\n"
    );
}

#[test]
fn failed_entries_are_removed_from_the_queue_too() {
    let mut c = controller_with(&["a.wav", "b.wav"]);
    let launched = c.plan_batch(&vec![false, false]).expect("launch");
    let events = run_worker(launched, &[JobOutcome::Success, JobOutcome::Failure(s("exit=1"))]);
    assert_eq!(*events.last().unwrap(), WorkerEvent::Done { success: 1, fail: 1 });
    c.drain(&events);
    assert_eq!(c.entry_count(), 0);
    assert!(!c.running());
    assert!(c.log_text().contains("ERR: b.wav exit=1\n"));
    assert!(c.log_text().contains("=== Done: success=1 fail=1 ===\n"));
}

#[test]
fn drain_without_events_changes_nothing() {
    let mut c = controller_with(&["a.wav", "b.wav"]);
    let _launched = c.plan_batch(&vec![false, false]).expect("launch");
    let log_before = c.log_text().clone();
    c.drain(&Vec::new());
    assert_eq!(c.entry_count(), 2);
    assert_eq!(c.entry_path(0), "a.wav");
    assert_eq!(c.entry_path(1), "b.wav");
    assert!(c.running());
    assert_eq!(c.pending_count(), 0);
    assert_eq!(c.resolved_count(), 0);
    assert_eq!(*c.log_text(), log_before);
    assert!(c.processing_index().is_none());
}

#[test]
fn progress_events_move_the_in_flight_position() {
    let mut c = controller_with(&["a.wav"]);
    let _launched = c.plan_batch(&vec![false]).expect("launch");
    c.drain(&vec![WorkerEvent::Progress(0)]);
    assert_eq!(c.processing_index(), Some(0));
    assert!(c.running());
}

#[test]
fn planning_clears_the_previous_log() {
    let mut c = controller_with(&["a.wav"]);
    let launched = c.plan_batch(&vec![false]).expect("launch");
    let events = run_worker(launched, &[JobOutcome::Success]);
    c.drain(&events);
    assert!(!c.log_text().is_empty());
    c.add(&vec![s("b.wav")]);
    let _launched = c.plan_batch(&vec![false]).expect("second launch");
    assert_eq!(c.log_text(), "");
}

#[test]
fn start_conversion_launches_when_no_output_exists() {
    let mut c = AudioApp::new(s("no_such_dir_for_these_tests"));
    c.add(&vec![s("a.wav")]);
    let launched = c.start_conversion().expect("launch");
    assert_eq!(launched.len(), 1);
    assert_eq!(launched[0].output, "no_such_dir_for_these_tests/a.mp3");
    assert!(c.running());
}

#[test]
fn conflicts_are_presented_in_queue_order() {
    let mut c = controller_with(&["a.wav", "b.wav", "c.wav"]);
    assert!(c.plan_batch(&vec![true, false, true]).is_none());
    assert_eq!(c.current_conflict().expect("first").source, "a.wav");
    c.resolve_overwrite();
    assert_eq!(c.current_conflict().expect("second").source, "c.wav");
    c.resolve_overwrite();
    assert!(c.current_conflict().is_none());
}
