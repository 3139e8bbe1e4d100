use audio_batch::events::{JobOutcome, WorkerEvent};
use audio_batch::jobs::ConversionJob;
use audio_batch::worker::ConversionWorker;

fn s(t: &str) -> String {
    t.to_string()
}

fn job(source: &str, format: &str, output: &str) -> ConversionJob {
    ConversionJob { source: s(source), format: s(format), output: s(output) }
}

#[test]
fn two_jobs_run_in_order_with_exact_events() {
    let jobs = vec![job("a.wav", "mp3", "out/a.mp3"), job("b.wav", "mp3", "out/b.mp3")];
    let mut w = ConversionWorker::new(jobs, s("192k"), false, true, false);
    let mut events: Vec<WorkerEvent> = Vec::new();

    let (ev, args) = w.begin_job().expect("first job");
    assert_eq!(args, vec!["-y", "-i", "a.wav", "-b:a", "192k", "out/a.mp3"]);
    events.push(ev);
    let (ev, cleanup) = w.finish_job(JobOutcome::Success);
    assert_eq!(cleanup, None);
    events.push(ev);

    let (ev, args) = w.begin_job().expect("second job");
    assert_eq!(args, vec!["-y", "-i", "b.wav", "-b:a", "192k", "out/b.mp3"]);
    events.push(ev);
    let (ev, cleanup) = w.finish_job(JobOutcome::Success);
    assert_eq!(cleanup, None);
    events.push(ev);

    assert!(w.begin_job().is_none());
    events.push(w.finish_batch());

    assert_eq!(
        events,
        vec![
            WorkerEvent::Progress(0),
            WorkerEvent::Log(s("OK: a.wav -> out/a.mp3\n")),
            WorkerEvent::Progress(1),
            WorkerEvent::Log(s("OK: b.wav -> out/b.mp3\n")),
            WorkerEvent::Done { success: 2, fail: 0 },
        ]
    );
}

#[test]
fn failed_job_counts_and_partial_output_cleanup() {
    let jobs = vec![job("a.wav", "mp3", "out/a.mp3"), job("b.wav", "mp3", "out/b.mp3")];
    let mut w = ConversionWorker::new(jobs, s("192k"), false, true, false);

    let (_ev, _args) = w.begin_job().expect("first job");
    let (ev, cleanup) = w.finish_job(JobOutcome::Success);
    assert_eq!(ev, WorkerEvent::Log(s("OK: a.wav -> out/a.mp3\n")));
    assert_eq!(cleanup, None);

    let (_ev, _args) = w.begin_job().expect("second job");
    let (ev, cleanup) = w.finish_job(JobOutcome::Failure(s("exit=1")));
    assert_eq!(ev, WorkerEvent::Log(s("ERR: b.wav exit=1\n")));
    assert_eq!(cleanup, Some(s("out/b.mp3")));

    assert!(w.begin_job().is_none());
    let done = w.finish_batch();
    assert_eq!(done, WorkerEvent::Done { success: 1, fail: 1 });
}

#[test]
fn failure_without_cleanup_option() {
    let jobs = vec![job("a.wav", "mp3", "out/a.mp3")];
    let mut w = ConversionWorker::new(jobs, s("192k"), false, false, false);
    w.begin_job().expect("job");
    let (_ev, cleanup) = w.finish_job(JobOutcome::Failure(s("exit=3")));
    assert_eq!(cleanup, None);
    assert_eq!(w.finish_batch(), WorkerEvent::Done { success: 0, fail: 1 });
}

#[test]
fn delete_original_after_success() {
    let jobs = vec![job("music/a.wav", "mp3", "out/a.mp3")];
    let mut w = ConversionWorker::new(jobs, s("256k"), true, true, false);
    let (_ev, args) = w.begin_job().expect("job");
    assert_eq!(args, vec!["-y", "-i", "music/a.wav", "-b:a", "256k", "out/a.mp3"]);
    let (_ev, cleanup) = w.finish_job(JobOutcome::Success);
    assert_eq!(cleanup, Some(s("music/a.wav")));
}

#[test]
fn long_paths_prefix_reaches_the_command_and_log() {
    let jobs = vec![job("C:\\m\\a.wav", "mp3", "out/a.mp3")];
    let mut w = ConversionWorker::new(jobs, s("192k"), false, true, true);
    let (_ev, args) = w.begin_job().expect("job");
    assert_eq!(args[2], "\\\\?\\C:\\m\\a.wav");
    let (ev, _cleanup) = w.finish_job(JobOutcome::Success);
    assert_eq!(ev, WorkerEvent::Log(s("OK: \\\\?\\C:\\m\\a.wav -> out/a.mp3\n")));
}

#[test]
fn empty_batch_reports_zero_counts() {
    let mut w = ConversionWorker::new(Vec::new(), s("192k"), false, true, false);
    assert!(w.begin_job().is_none());
    assert_eq!(w.finish_batch(), WorkerEvent::Done { success: 0, fail: 0 });
}

#[test]
fn counters_track_outcomes() {
    let jobs = vec![
        job("a.wav", "mp3", "out/a.mp3"),
        job("b.wav", "mp3", "out/b.mp3"),
        job("c.wav", "mp3", "out/c.mp3"),
    ];
    let mut w = ConversionWorker::new(jobs, s("192k"), false, true, false);
    w.begin_job().expect("a");
    w.finish_job(JobOutcome::Success);
    w.begin_job().expect("b");
    w.finish_job(JobOutcome::Failure(s("exit=2")));
    w.begin_job().expect("c");
    w.finish_job(JobOutcome::Success);
    assert_eq!(w.success_count(), 2);
    assert_eq!(w.fail_count(), 1);
}
