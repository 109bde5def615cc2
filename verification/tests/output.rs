use crows::output::{format_duration, process_buffer, worker_line, DurationDisplay, ProgressError, RunProgress, WorkerLine, WorkerState};
use crows::services::{InfoMessage, IterationInfo, RequestInfo};
use crows::time::Duration;

fn names(list: &[&str]) -> Vec<String> {
    list.iter().map(|s| s.to_string()).collect()
}

#[test]
fn process_buffer_without_newline_keeps_everything() {
    let mut buffer = String::from("partial line");
    assert_eq!(process_buffer(&mut buffer), None);
    assert_eq!(buffer, "partial line");
}

#[test]
fn process_buffer_takes_complete_lines() {
    let mut buffer = String::from("first\nsecond\nthird");
    assert_eq!(process_buffer(&mut buffer), Some(names(&["first", "second"])));
    assert_eq!(buffer, "third");
}

#[test]
fn process_buffer_with_trailing_newline_empties_buffer() {
    let mut buffer = String::from("a\n\nb\n");
    assert_eq!(process_buffer(&mut buffer), Some(names(&["a", "b"])));
    assert_eq!(buffer, "");
}

#[test]
fn process_buffer_only_empty_lines_gives_none_but_keeps_rest() {
    let mut buffer = String::from("\n\nrest");
    assert_eq!(process_buffer(&mut buffer), None);
    assert_eq!(buffer, "rest");
}

#[test]
fn process_buffer_twice_settles() {
    let mut buffer = String::from("x\ny");
    assert_eq!(process_buffer(&mut buffer), Some(names(&["x"])));
    assert_eq!(process_buffer(&mut buffer), None);
    assert_eq!(buffer, "y");
}

#[test]
fn process_buffer_keeps_unicode() {
    let mut buffer = String::from("żółw\nµs");
    assert_eq!(process_buffer(&mut buffer), Some(names(&["żółw"])));
    assert_eq!(buffer, "µs");
}

#[test]
fn format_duration_picks_units() {
    assert_eq!(format_duration(Duration::new(2, 500_000_000)), DurationDisplay::Seconds { whole: 2, nanos: 500_000_000 });
    assert_eq!(format_duration(Duration::from_micros(1_500)), DurationDisplay::Millis { whole: 1, nanos: 500_000 });
    assert_eq!(format_duration(Duration::from_nanos(2_750)), DurationDisplay::Micros { whole: 2, nanos: 750 });
    assert_eq!(format_duration(Duration::from_nanos(750)), DurationDisplay::Nanos("750ns".to_string()));
    assert_eq!(format_duration(Duration::zero()), DurationDisplay::Nanos("0ns".to_string()));
}

#[test]
fn worker_line_prefers_error_then_done() {
    let mut state = WorkerState::default();
    match worker_line(&state) {
        WorkerLine::Progress { active_instances, capacity, .. } => {
            assert_eq!(active_instances, 0);
            assert_eq!(capacity, 0);
        }
        other => panic!("unexpected {other:?}"),
    }
    state.done = true;
    assert!(matches!(worker_line(&state), WorkerLine::Done));
    state.error = Some("boom".to_string());
    match worker_line(&state) {
        WorkerLine::Error(m) => assert_eq!(m, "boom"),
        other => panic!("unexpected {other:?}"),
    }
}

#[test]
fn progress_rejects_unknown_worker() {
    let mut progress = RunProgress::new(names(&["w1"]));
    let r = progress.apply(&"w2".to_string(), InfoMessage::Done, false);
    assert_eq!(r.unwrap_err(), ProgressError::UnknownWorker);
    assert!(!progress.workers[0].state.done);
}

#[test]
fn progress_deduplicates_worker_names() {
    let progress = RunProgress::new(names(&["b", "a", "b"]));
    let got: Vec<&str> = progress.workers.iter().map(|w| w.name.as_str()).collect();
    assert_eq!(got, vec!["b", "a"]);
}

#[test]
fn progress_tags_complete_output_lines() {
    let mut progress = RunProgress::new(names(&["worker", "other"]));
    let step = progress.apply(&"worker".to_string(), InfoMessage::Stdout(b"hello\nwor".to_vec()), false).unwrap();
    assert_eq!(step.lines, names(&["[INFO][worker] hello"]));
    assert!(!step.flushed);
    assert!(!step.finished);
    assert_eq!(progress.workers[0].stdout_buffer, "wor");
    let step = progress.apply(&"worker".to_string(), InfoMessage::Stderr(b"bad\n".to_vec()), false).unwrap();
    assert_eq!(step.lines, names(&["[ERROR][worker] bad"]));
}

#[test]
fn progress_flushes_waiting_output_on_time() {
    let mut progress = RunProgress::new(names(&["w"]));
    let step = progress.apply(&"w".to_string(), InfoMessage::Stdout(b"no newline".to_vec()), true).unwrap();
    assert_eq!(step.lines, names(&["[INFO][w] no newline"]));
    assert!(step.flushed);
    assert_eq!(progress.workers[0].stdout_buffer, "");
}

#[test]
fn progress_decodes_invalid_utf8_lossily() {
    let mut progress = RunProgress::new(names(&["w"]));
    let step = progress.apply(&"w".to_string(), InfoMessage::Stdout(vec![b'a', 0xff, b'\n']), false).unwrap();
    assert_eq!(step.lines, names(&["[INFO][w] a\u{fffd}"]));
}

#[test]
fn progress_counts_instances_and_stats() {
    let mut progress = RunProgress::new(names(&["w"]));
    let w = "w".to_string();
    progress.apply(&w, InfoMessage::InstanceReserved, false).unwrap();
    progress.apply(&w, InfoMessage::InstanceCheckedOut, false).unwrap();
    progress.apply(&w, InfoMessage::InstanceCheckedOut, false).unwrap();
    progress.apply(&w, InfoMessage::InstanceCheckedIn, false).unwrap();
    progress.apply(&w, InfoMessage::RequestInfo(RequestInfo { latency: Duration::from_millis(3), successful: true }), false).unwrap();
    progress.apply(&w, InfoMessage::IterationInfo(IterationInfo { latency: Duration::from_millis(4) }), false).unwrap();
    progress.apply(&w, InfoMessage::TimingUpdate((Duration::from_secs(1), Duration::from_secs(4))), false).unwrap();
    let state = &progress.workers[0].state;
    assert_eq!(state.capacity, 1);
    assert_eq!(state.active_instances, 1);
    assert_eq!(state.duration, Duration::from_secs(1));
    assert_eq!(state.left, Duration::from_secs(4));
    assert_eq!(progress.request_stats.len(), 1);
    assert_eq!(progress.iteration_stats.len(), 1);
}

#[test]
fn progress_finishes_and_flushes_everything() {
    let mut progress = RunProgress::new(names(&["a", "b"]));
    let a = "a".to_string();
    let b = "b".to_string();
    progress.apply(&a, InfoMessage::Stdout(b"out-a".to_vec()), false).unwrap();
    progress.apply(&b, InfoMessage::Stderr(b"err-b".to_vec()), false).unwrap();
    let step = progress.apply(&a, InfoMessage::Done, false).unwrap();
    assert!(!step.finished);
    assert!(step.lines.is_empty());
    let step = progress.apply(&b, InfoMessage::RunError("failed".to_string()), false).unwrap();
    assert!(step.finished);
    assert_eq!(step.lines, names(&["[ERROR][b] err-b", "[INFO][a] out-a"]));
    assert_eq!(progress.workers[0].stdout_buffer, "");
    assert_eq!(progress.workers[1].stderr_buffer, "");
    assert_eq!(progress.workers[1].state.error, Some("failed".to_string()));
}

#[test]
fn progress_output_in_parts_matches_output_at_once() {
    let w = "w".to_string();
    let mut in_parts = RunProgress::new(names(&["w"]));
    let mut lines = in_parts.apply(&w, InfoMessage::Stdout(b"one\ntw".to_vec()), false).unwrap().lines;
    lines.extend(in_parts.apply(&w, InfoMessage::Stdout(b"o\nthree".to_vec()), false).unwrap().lines);
    let mut at_once = RunProgress::new(names(&["w"]));
    let whole = at_once.apply(&w, InfoMessage::Stdout(b"one\ntwo\nthree".to_vec()), false).unwrap().lines;
    assert_eq!(lines, whole);
    assert_eq!(in_parts.workers[0].stdout_buffer, at_once.workers[0].stdout_buffer);
}
