use bundle_extractor::extraction::{count_extractable, Action, Extraction, Reply};
use bundle_extractor::progress::{ExtractionOutcome, Fraction, ProgressEvent};

/// What a simulated worker saw while it drove one run to its end.
struct Trace {
    total: usize,
    written: Vec<String>,
    skipped: Vec<usize>,
    stream: Vec<ProgressEvent>,
    revealed: bool,
    outcome: ExtractionOutcome,
    actions: usize,
}

/// Drives a run the way a worker does. Writing `fail_write` fails with the
/// text "cannot create directory"; sending the event with the number
/// `fail_send` fails; revealing fails when `fail_reveal` is set.
fn drive(
    paths: &[&str],
    skip_resources: bool,
    fail_write: Option<&str>,
    fail_send: Option<usize>,
    fail_reveal: bool,
) -> Trace {
    let owned: Vec<String> = paths.iter().map(|p| p.to_string()).collect();
    let mut run = Extraction::start(owned, skip_resources);
    let mut trace = Trace {
        total: run.total(),
        written: Vec::new(),
        skipped: Vec::new(),
        stream: Vec::new(),
        revealed: false,
        outcome: ExtractionOutcome::Success,
        actions: 0,
    };
    let mut action = run.current();
    let mut sends = 0;
    loop {
        assert!(trace.actions < 10_000, "the run does not end");
        let reply = match action {
            Action::Skip { index } => {
                trace.skipped.push(index);
                Reply::Done
            }
            Action::Write { index, path } => {
                assert_eq!(paths[index], path);
                if fail_write == Some(path.as_str()) {
                    Reply::Failed("cannot create directory".to_string())
                } else {
                    trace.written.push(path);
                    Reply::Done
                }
            }
            Action::Emit(event) => {
                sends += 1;
                if fail_send == Some(sends) {
                    Reply::Failed("receiver is gone".to_string())
                } else {
                    trace.stream.push(event);
                    Reply::Done
                }
            }
            Action::Reveal => {
                assert!(!trace.revealed);
                trace.revealed = true;
                if fail_reveal {
                    Reply::Failed("no file manager".to_string())
                } else {
                    Reply::Done
                }
            }
            Action::Complete(outcome) => {
                assert!(run.is_finished());
                trace.outcome = outcome;
                return trace;
            }
        };
        trace.actions += 1;
        assert!(!run.is_finished());
        let next = run.step(reply);
        run = next.0;
        action = next.1;
    }
}

fn fraction(done: usize, total: usize) -> ProgressEvent {
    ProgressEvent::Fraction(Fraction::new(done, total).unwrap())
}

fn as_number(event: &ProgressEvent) -> f32 {
    match event {
        ProgressEvent::Fraction(f) => f.done() as f32 / f.total() as f32,
        ProgressEvent::Done => panic!("the end of the stream is no number"),
    }
}

const BUNDLE: [&str; 3] = ["a.txt", "b.assets", "c.resS"];

#[test]
fn skipping_resources_writes_the_one_primary_entry() {
    let trace = drive(&BUNDLE, true, None, None, false);
    assert_eq!(trace.total, 1);
    assert_eq!(trace.written, vec!["a.txt"]);
    assert_eq!(trace.skipped, vec![1, 2]);
    assert_eq!(trace.stream, vec![fraction(1, 1), ProgressEvent::Done]);
    assert_eq!(as_number(&trace.stream[0]), 1.0);
    assert_eq!(trace.outcome, ExtractionOutcome::Success);
    assert!(trace.revealed);
}

#[test]
fn keeping_resources_writes_all_three_entries() {
    let trace = drive(&BUNDLE, false, None, None, false);
    assert_eq!(trace.total, 3);
    assert_eq!(trace.written, vec!["a.txt", "b.assets", "c.resS"]);
    assert!(trace.skipped.is_empty());
    assert_eq!(
        trace.stream,
        vec![fraction(1, 3), fraction(2, 3), fraction(3, 3), ProgressEvent::Done]
    );
    assert_eq!(as_number(&trace.stream[0]), 1.0 / 3.0);
    assert_eq!(as_number(&trace.stream[1]), 2.0 / 3.0);
    assert_eq!(as_number(&trace.stream[2]), 1.0);
    assert_eq!(trace.outcome, ExtractionOutcome::Success);
}

#[test]
fn nothing_to_write_ends_with_done_and_success() {
    let trace = drive(&["b.assets", "c.resS", "dir/d.assets"], true, None, None, false);
    assert_eq!(trace.total, 0);
    assert!(trace.written.is_empty());
    assert_eq!(trace.skipped, vec![0, 1, 2]);
    assert_eq!(trace.stream, vec![ProgressEvent::Done]);
    assert_eq!(trace.outcome, ExtractionOutcome::Success);
    assert!(trace.revealed);
}

#[test]
fn empty_bundle_ends_with_done_and_success() {
    let trace = drive(&[], true, None, None, false);
    assert_eq!(trace.total, 0);
    assert_eq!(trace.stream, vec![ProgressEvent::Done]);
    assert_eq!(trace.outcome, ExtractionOutcome::Success);
    assert_eq!(trace.actions, 2);
}

#[test]
fn failed_write_ends_the_run_with_its_message() {
    let trace = drive(&["a.txt", "b.bin", "c.bin"], true, Some("b.bin"), None, false);
    assert_eq!(trace.written, vec!["a.txt"]);
    assert_eq!(trace.stream, vec![fraction(1, 3)]);
    assert!(!trace.stream.contains(&ProgressEvent::Done));
    assert!(!trace.revealed);
    assert_eq!(
        trace.outcome,
        ExtractionOutcome::Failure("Error during export: cannot create directory".to_string())
    );
}

#[test]
fn failed_first_write_reports_no_progress() {
    let trace = drive(&["a.txt", "b.bin"], false, Some("a.txt"), None, false);
    assert!(trace.written.is_empty());
    assert!(trace.stream.is_empty());
    match trace.outcome {
        ExtractionOutcome::Failure(message) => assert!(message.contains("cannot create directory")),
        ExtractionOutcome::Success => panic!("a failed write is no success"),
    }
}

#[test]
fn unsendable_event_is_a_worker_failure() {
    let trace = drive(&["a.txt", "b.bin"], true, None, Some(2), false);
    assert_eq!(trace.written, vec!["a.txt", "b.bin"]);
    assert_eq!(trace.stream, vec![fraction(1, 2)]);
    assert_eq!(trace.outcome, ExtractionOutcome::Failure("extraction failed".to_string()));

    let at_the_end = drive(&["a.txt"], true, None, Some(2), false);
    assert_eq!(at_the_end.stream, vec![fraction(1, 1)]);
    assert!(!at_the_end.revealed);
    assert_eq!(at_the_end.outcome, ExtractionOutcome::Failure("extraction failed".to_string()));
}

#[test]
fn failure_to_reveal_is_ignored() {
    let trace = drive(&BUNDLE, true, None, None, true);
    assert!(trace.revealed);
    assert_eq!(trace.outcome, ExtractionOutcome::Success);
}

#[test]
fn entries_are_taken_in_bundle_order() {
    let paths = ["z10", "a2.assets", "z2", "a10", "m.resS", "b"];
    let trace = drive(&paths, true, None, None, false);
    assert_eq!(trace.written, vec!["z10", "z2", "a10", "b"]);
    assert_eq!(trace.skipped, vec![1, 4]);
    assert_eq!(
        trace.stream,
        vec![fraction(1, 4), fraction(2, 4), fraction(3, 4), fraction(4, 4), ProgressEvent::Done]
    );
}

#[test]
fn reports_rise_and_stay_in_range() {
    let paths: Vec<String> = (0..40).map(|i| format!("dir{}/file{}.{}", i % 3, i, if i % 4 == 0 { "assets" } else { "dat" })).collect();
    let borrowed: Vec<&str> = paths.iter().map(|p| p.as_str()).collect();
    let trace = drive(&borrowed, true, None, None, false);
    assert_eq!(trace.total, 30);
    assert_eq!(trace.stream.len(), 31);
    assert_eq!(trace.stream.last(), Some(&ProgressEvent::Done));
    let mut last = 0.0;
    for (k, event) in trace.stream[..30].iter().enumerate() {
        assert_eq!(*event, fraction(k + 1, 30));
        let value = as_number(event);
        assert!(last < value && value <= 1.0);
        last = value;
    }
    assert_eq!(trace.actions, 40 + 30 + 2);
}

#[test]
fn asking_again_gives_the_same_action() {
    let run = Extraction::start(vec!["a.txt".to_string()], true);
    assert_eq!(run.current(), Action::Write { index: 0, path: "a.txt".to_string() });
    assert_eq!(run.current(), run.current());
    let (run, action) = run.step(Reply::Done);
    assert_eq!(action, Action::Emit(fraction(1, 1)));
    assert_eq!(run.current(), action);
    assert_eq!(run.current(), action);
    assert_eq!(run.written(), 1);
}

#[test]
fn finished_run_stays_finished() {
    let run = Extraction::start(vec!["a.txt".to_string()], true);
    let (run, action) = run.step(Reply::Failed("disk full".to_string()));
    let failure = ExtractionOutcome::Failure("Error during export: disk full".to_string());
    assert_eq!(action, Action::Complete(failure.clone()));
    assert!(run.is_finished());
    let (run, action) = run.step(Reply::Done);
    assert_eq!(action, Action::Complete(failure.clone()));
    let (run, action) = run.step(Reply::Failed("again".to_string()));
    assert_eq!(action, Action::Complete(failure));
    assert!(run.is_finished());
    assert_eq!(run.written(), 0);
}

#[test]
fn count_extractable_counts_what_is_written() {
    let paths: Vec<String> = BUNDLE.iter().map(|p| p.to_string()).collect();
    assert_eq!(count_extractable(&paths, true), 1);
    assert_eq!(count_extractable(&paths, false), 3);
    assert_eq!(count_extractable(&Vec::new(), true), 0);
    assert_eq!(count_extractable(&Vec::new(), false), 0);
    let resources = vec!["x.assets".to_string(), "y.resS".to_string()];
    assert_eq!(count_extractable(&resources, true), 0);
    assert_eq!(count_extractable(&resources, false), 2);
}
