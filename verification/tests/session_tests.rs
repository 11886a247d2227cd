use syncbridge::events::{BridgeEvent, JobOutcome};
use syncbridge::session::{Session, StepAction};

fn bytes(s: &str) -> Vec<u8> {
    s.as_bytes().to_vec()
}

#[test]
fn movie_scenario_result_then_done() {
    // Worker emits a file_start, one incremental result, then the
    // authoritative done list, and exits cleanly.
    let mut s = Session::new();
    match s.step(false, &bytes("{\"type\":\"file_start\",\"file\":\"a.mp4\"}")) {
        StepAction::Dispatch(BridgeEvent::FileStart { file }) => {
            assert_eq!(file, b"a.mp4".to_vec())
        },
        _ => panic!("expected file_start dispatch"),
    }
    match s.step(
        false,
        &bytes(
            "{\"type\":\"result\",\"videoFile\":\"a.mp4\",\"audioFile\":\"a.wav\",\
             \"startDelay\":120.5,\"endDelay\":-30.0,\"elapsed_ms\":842}",
        ),
    ) {
        StepAction::Dispatch(BridgeEvent::ResultItem { .. }) => {},
        _ => panic!("expected result dispatch"),
    }
    match s.step(
        false,
        &bytes(
            "{\"type\":\"done\",\"results\":[{\"videoFile\":\"a.mp4\",\"audioFile\":\"a.wav\",\
             \"startDelay\":120.5,\"endDelay\":-30.0,\"elapsed_ms\":842}]}",
        ),
    ) {
        StepAction::Dispatch(BridgeEvent::Done { .. }) => {},
        _ => panic!("expected done dispatch"),
    }
    match s.finish(true) {
        JobOutcome::Succeeded(rs) => {
            assert_eq!(rs.len(), 1);
            assert_eq!(rs[0].video_file, b"a.mp4".to_vec());
            assert_eq!(rs[0].audio_file, b"a.wav".to_vec());
            assert_eq!(rs[0].start_delay, Some(b"120.5".to_vec()));
            assert_eq!(rs[0].end_delay, Some(b"-30.0".to_vec()));
            assert_eq!(rs[0].elapsed_ms, Some(842));
            assert_eq!(rs[0].error, None);
        },
        _ => panic!("expected success"),
    }
}

#[test]
fn lone_garbage_line_succeeds_empty_with_one_diagnostic() {
    // Worker writes one line `not json`, then exits 0 with no other output.
    let mut s = Session::new();
    let mut diagnostics = 0;
    match s.step(false, &bytes("not json")) {
        StepAction::Diagnostic(d) => {
            diagnostics += 1;
            assert_eq!(d, b"invalid bridge message: not json".to_vec());
        },
        _ => panic!("expected a diagnostic"),
    }
    assert_eq!(diagnostics, 1);
    match s.finish(true) {
        JobOutcome::Succeeded(rs) => assert_eq!(rs.len(), 0),
        _ => panic!("expected success with empty results"),
    }
}

#[test]
fn cancel_after_file_start_returns_no_results() {
    // Cancel is noticed between lines: the job ends canceled even though
    // the worker had results queued.
    let mut s = Session::new();
    match s.step(false, &bytes("{\"type\":\"file_start\",\"file\":\"a.mp4\"}")) {
        StepAction::Dispatch(_) => {},
        _ => panic!("expected dispatch"),
    }
    match s.step(
        true,
        &bytes("{\"type\":\"result\",\"videoFile\":\"a.mp4\",\"audioFile\":\"a.wav\"}"),
    ) {
        StepAction::CancelNow => {},
        _ => panic!("expected cancellation"),
    }
    match s.into_canceled() {
        JobOutcome::Canceled => {},
        _ => panic!("expected canceled outcome"),
    }
}

#[test]
fn done_overrides_accumulated_results() {
    let mut s = Session::new();
    for n in 0..3 {
        let line = format!(
            "{{\"type\":\"result\",\"videoFile\":\"v{n}\",\"audioFile\":\"a{n}\"}}"
        );
        match s.step(false, &line.into_bytes()) {
            StepAction::Dispatch(_) => {},
            _ => panic!("expected dispatch"),
        }
    }
    let done = "{\"type\":\"done\",\"results\":[{\"videoFile\":\"only\",\"audioFile\":\"one\"}]}";
    match s.step(false, &bytes(done)) {
        StepAction::Dispatch(_) => {},
        _ => panic!("expected dispatch"),
    }
    match s.finish(true) {
        JobOutcome::Succeeded(rs) => {
            assert_eq!(rs.len(), 1);
            assert_eq!(rs[0].video_file, b"only".to_vec());
        },
        _ => panic!("expected success"),
    }
}

#[test]
fn without_done_results_accumulate_in_order() {
    let mut s = Session::new();
    for n in 0..3 {
        let line = format!(
            "{{\"type\":\"result\",\"videoFile\":\"v{n}\",\"audioFile\":\"a{n}\"}}"
        );
        match s.step(false, &line.into_bytes()) {
            StepAction::Dispatch(_) => {},
            _ => panic!("expected dispatch"),
        }
        // Interleaved noise: blank and malformed lines change nothing.
        assert!(matches!(s.step(false, &bytes("  ")), StepAction::Ignore));
        assert!(matches!(s.step(false, &bytes("garbage")), StepAction::Diagnostic(_)));
    }
    match s.finish(true) {
        JobOutcome::Succeeded(rs) => {
            assert_eq!(rs.len(), 3);
            assert_eq!(rs[0].video_file, b"v0".to_vec());
            assert_eq!(rs[1].video_file, b"v1".to_vec());
            assert_eq!(rs[2].video_file, b"v2".to_vec());
        },
        _ => panic!("expected success"),
    }
}

#[test]
fn nonzero_exit_fails_even_after_results() {
    let mut s = Session::new();
    match s.step(
        false,
        &bytes("{\"type\":\"result\",\"videoFile\":\"v\",\"audioFile\":\"a\"}"),
    ) {
        StepAction::Dispatch(_) => {},
        _ => panic!("expected dispatch"),
    }
    match s.finish(false) {
        JobOutcome::Failed(msg) => assert_eq!(msg, b"Sync process failed".to_vec()),
        _ => panic!("expected failure"),
    }
}

#[test]
fn cancellation_token_round_trip() {
    let state = syncbridge::cancel::SyncState::new();
    assert!(!state.is_cancel_requested());
    state.request_cancel();
    assert!(state.is_cancel_requested());
    state.request_cancel();
    assert!(state.is_cancel_requested());
    state.reset();
    assert!(!state.is_cancel_requested());
}

#[test]
fn batch_processing_matches_single_steps() {
    let lines: Vec<Vec<u8>> = vec![
        bytes("{\"type\":\"file_start\",\"file\":\"a.mp4\"}"),
        bytes(""),
        bytes("oops"),
        bytes("{\"type\":\"result\",\"videoFile\":\"v\",\"audioFile\":\"a\"}"),
    ];
    let mut batch = Session::new();
    let acts = batch.process_lines(&lines);
    assert_eq!(acts.len(), 4);
    assert!(matches!(acts[0], StepAction::Dispatch(BridgeEvent::FileStart { .. })));
    assert!(matches!(acts[1], StepAction::Ignore));
    assert!(matches!(acts[2], StepAction::Diagnostic(_)));
    assert!(matches!(acts[3], StepAction::Dispatch(BridgeEvent::ResultItem { .. })));
    match batch.finish(true) {
        JobOutcome::Succeeded(rs) => assert_eq!(rs.len(), 1),
        _ => panic!("expected success"),
    }
}
