use kwe_daemon::inspect::{
    bounded_detail, expected_parent, finalize, keep_tail, launch_failed, plan_launch,
    report_stream_max_bytes, stopped_report, take_report, take_stdout, Frame, FrameKind,
    FrameStream, InspectConfig, InspectReport, LaunchFault, Stopped, SuperviseStage, Supervision,
    WaitOutcome, MAX_DETAIL_BYTES, MAX_REPORT_BYTES, STDERR_TAIL_BYTES,
};

/// What a child that is being inspected does.
struct FakeInspector {
    /// When it exits, and how; without an exit it hangs.
    exit: Option<(u64, bool)>,
    stdout: Vec<u8>,
    report: Vec<u8>,
    stderr: Vec<u8>,
    /// The frames that the report's bytes hold.
    stream: FrameStream,
}

const STREAM_MAX: usize = 65_536 + 16 * 12 + 1;

fn config(inspector: Option<&str>, wall_timeout_ms: u64) -> InspectConfig {
    InspectConfig {
        inspector_path: inspector.map(str::to_string),
        runtime_dir: "/run/kwe".into(),
        wall_timeout_ms,
    }
}

fn no_frames() -> FrameStream {
    FrameStream { frames: Vec::new(), error: None }
}

fn frames(frames: Vec<(FrameKind, &str)>) -> FrameStream {
    FrameStream {
        frames: frames
            .into_iter()
            .map(|(kind, payload)| Frame { kind, payload: payload.as_bytes().to_vec() })
            .collect(),
        error: None,
    }
}

/// A record is text that names its schema.
fn validate(payload: &Vec<u8>) -> Result<String, String> {
    let text = String::from_utf8(payload.clone()).map_err(|error| error.to_string())?;
    if text.contains("\"schema\":\"scene-inspection-v1\"") {
        Ok(text)
    } else {
        Err("missing field `schema`".to_string())
    }
}

/// Runs one inspection: its report, whether a child was started and killed, and
/// when it ended.
fn inspect(config: &InspectConfig, child: FakeInspector) -> (InspectReport<String>, bool, bool, u64) {
    let Some(_plan) = plan_launch(config, "/tmp/scene", 42, 7) else {
        return (InspectReport::Unavailable, false, false, 0);
    };
    let mut now: u64 = 0;
    let mut stdout: Vec<u8> = Vec::new();
    let mut report: Vec<u8> = Vec::new();
    let mut tail: Vec<u8> = Vec::new();
    let mut killed = false;
    let mut run = Supervision::begin(now, config.wall_timeout_ms, true);
    loop {
        match run.stage {
            SuperviseStage::Draining | SuperviseStage::LastDrain { .. } => {
                keep_tail(&mut tail, &child.stderr);
                let flooded = take_stdout(&mut stdout, &child.stdout);
                let oversize = take_report(&mut report, &child.report, STREAM_MAX);
                run.drained(flooded, oversize);
                if matches!(run.stage, SuperviseStage::Waiting) {
                    tail.clear();
                    stdout.clear();
                    report.clear();
                }
            }
            SuperviseStage::Waiting => {
                let outcome = match child.exit {
                    Some((at, success)) if at <= now => WaitOutcome::Exited { success },
                    _ => WaitOutcome::Running,
                };
                run.waited(outcome, now);
            }
            SuperviseStage::Sleeping => {
                now += 10;
                run.slept();
            }
            SuperviseStage::Killing(_) => {
                killed = true;
                run.killed();
            }
            SuperviseStage::Finalizing { success } => {
                return (finalize(success, child.stream, &tail, validate), true, killed, now);
            }
            SuperviseStage::Ended(why) => {
                return (stopped_report(why), true, killed, now);
            }
        }
    }
}

fn quiet(exit: Option<(u64, bool)>, stream: FrameStream) -> FakeInspector {
    FakeInspector { exit, stdout: Vec::new(), report: Vec::new(), stderr: Vec::new(), stream }
}

#[test]
fn valid_v1_report_passes_through_verbatim_digest_verified() {
    let record = r#"{"content":{"hash":"sha256:deadbeef"},"outcome":"inventoried","schema":"scene-inspection-v1"}"#;
    let child = quiet(Some((0, true)), frames(vec![(FrameKind::SceneInspection, record)]));
    let (report, started, killed, _) = inspect(&config(Some("/bin/inspector"), 5000), child);
    assert_eq!(report, InspectReport::Record(record.to_string()));
    assert_eq!(report.reason(), None);
    assert!(started && !killed);
}

#[test]
fn hung_inspector_times_out_and_is_reaped() {
    let child = quiet(None, no_frames());
    let (report, _, killed, ended) = inspect(&config(Some("/bin/inspector"), 300), child);
    assert_eq!(report, InspectReport::Timeout);
    assert_eq!(report.reason(), Some("timeout"));
    assert!(killed);
    assert_eq!(ended, 300);
}

#[test]
fn flooded_report_fd_is_refused_as_report_oversize() {
    let mut child = quiet(None, no_frames());
    child.report = vec![b'x'; 20_000 * 112];
    let (report, _, killed, _) = inspect(&config(Some("/bin/inspector"), 5000), child);
    assert_eq!(report.reason(), Some("report-oversize"));
    assert!(killed);
}

#[test]
fn flooded_stdout_is_also_refused_as_report_oversize() {
    let mut child = quiet(None, no_frames());
    child.stdout = vec![b'x'; 200_000];
    let (report, _, killed, _) = inspect(&config(Some("/bin/inspector"), 5000), child);
    assert_eq!(report.reason(), Some("report-oversize"));
    assert!(killed);
}

#[test]
fn nonzero_exit_surfaces_stderr_tail() {
    let mut child = quiet(Some((20, false)), no_frames());
    child.stderr = b"boom detail\n".to_vec();
    let (report, _, killed, _) = inspect(&config(Some("/bin/inspector"), 5000), child);
    assert_eq!(report.reason(), Some("inspector-failed"));
    assert!(matches!(report, InspectReport::Failed { stderr_tail } if stderr_tail.contains("boom detail")));
    assert!(!killed);
}

#[test]
fn unconfigured_binary_is_unavailable() {
    let child = quiet(None, no_frames());
    let (report, started, _, _) = inspect(&config(None, 5000), child);
    assert_eq!(report.reason(), Some("inspector-unavailable"));
    assert!(!started);
}

#[test]
fn report_written_to_stdout_instead_of_fd_is_report_missing() {
    let mut child = quiet(Some((0, true)), no_frames());
    child.stdout =
        br#"{"schema":"scene-feature-inventory-v0","outcome":"inventoried","reason":"ok"}"#.to_vec();
    let (report, _, _, _) = inspect(&config(Some("/bin/inspector"), 5000), child);
    assert_eq!(report.reason(), Some("report-missing"));
}

#[test]
fn unknown_kind_frame_then_nothing_is_report_missing() {
    let stream = frames(vec![(FrameKind::Other, "future schema this daemon does not know yet")]);
    let (report, _, _, _) =
        inspect(&config(Some("/bin/inspector"), 5000), quiet(Some((0, true)), stream));
    assert_eq!(report.reason(), Some("report-missing"));
}

#[test]
fn duplicate_kind_one_frames_is_report_duplicate() {
    let stream = frames(vec![
        (FrameKind::SceneInspection, r#"{"schema":"scene-inspection-v1"}"#),
        (FrameKind::SceneInspection, r#"{"schema":"scene-inspection-v1"}"#),
    ]);
    let (report, _, _, _) =
        inspect(&config(Some("/bin/inspector"), 5000), quiet(Some((0, true)), stream));
    assert_eq!(report.reason(), Some("report-duplicate"));
}

#[test]
fn garbage_bytes_on_report_fd_is_report_malformed() {
    let stream = FrameStream {
        frames: Vec::new(),
        error: Some(format!("bad magic {}", "z".repeat(400))),
    };
    let (report, _, _, _) =
        inspect(&config(Some("/bin/inspector"), 5000), quiet(Some((0, true)), stream));
    assert_eq!(report.reason(), Some("report-malformed"));
    assert!(matches!(report, InspectReport::Malformed { detail, .. } if detail.len() <= MAX_DETAIL_BYTES));
}

#[test]
fn invalid_inspection_payload_is_report_malformed() {
    let stream = frames(vec![(FrameKind::SceneInspection, r#"{"not_a_real_field": true}"#)]);
    let (report, _, _, _) =
        inspect(&config(Some("/bin/inspector"), 5000), quiet(Some((0, true)), stream));
    assert_eq!(report.reason(), Some("report-malformed"));
    assert!(matches!(report, InspectReport::Malformed { detail, .. } if detail.contains("schema")));
}

#[test]
fn old_inspector_without_report_fd_support_is_inspector_failed() {
    let mut child = quiet(Some((30, false)), no_frames());
    child.stderr =
        b"usage: fake-inspector.py [-h] --input INPUT\nfake-inspector.py: error: unrecognized arguments: --report-fd 3\n".to_vec();
    let (report, _, _, _) = inspect(&config(Some("/bin/inspector"), 5000), child);
    assert_eq!(report.reason(), Some("inspector-failed"));
    assert!(matches!(
        report,
        InspectReport::Failed { stderr_tail } if stderr_tail.to_lowercase().contains("unrecognized")
    ));
}

#[test]
fn a_launch_names_the_content_the_deadline_and_the_report() {
    let plan = plan_launch(&config(Some("/bin/inspector"), 5000), "/tmp/scene", 42, 7).unwrap();
    assert_eq!(plan.program, "/bin/inspector");
    assert_eq!(plan.home_dir, "/run/kwe/inspect-home-42-7");
    assert_eq!(
        plan.args,
        vec!["--input", "/tmp/scene", "--max-wall-ms", "5000", "--report-fd", "3"]
    );
}

#[test]
fn a_failed_launch_is_unavailable() {
    for fault in [
        LaunchFault::HomeNotCreated,
        LaunchFault::HomeNotPrivate,
        LaunchFault::PidOverflow,
        LaunchFault::NoPipe,
        LaunchFault::NotSpawned,
    ] {
        let (report, _): (InspectReport<String>, bool) = launch_failed(fault);
        assert_eq!(report.reason(), Some("inspector-unavailable"));
    }
    assert_eq!(expected_parent(4_194_304), Ok(4_194_304));
    assert_eq!(expected_parent(u32::MAX), Err(LaunchFault::PidOverflow));
    let unread = Supervision::begin(0, 5000, false);
    assert!(matches!(unread.stage, SuperviseStage::Killing(Stopped::Unavailable)));
}

#[test]
fn a_wait_that_fails_is_unavailable() {
    let mut run = Supervision::begin(0, 5000, true);
    run.drained(false, false);
    run.waited(WaitOutcome::WaitFailed, 1);
    if matches!(run.stage, SuperviseStage::Killing(_)) {
        run.killed();
    }
    assert!(matches!(run.stage, SuperviseStage::Ended(Stopped::Unavailable)));
}

#[test]
fn streams_are_bounded() {
    let max = report_stream_max_bytes(65_536, 16, 12);
    assert_eq!(max, STREAM_MAX);
    let mut report = vec![0u8; max - 1];
    assert!(!take_report(&mut report, &[], max));
    assert!(take_report(&mut report, &[0], max));
    let mut stdout = vec![0u8; MAX_REPORT_BYTES];
    assert!(!take_stdout(&mut stdout, &[]));
    assert!(take_stdout(&mut stdout, &[0]));
}

#[test]
fn the_tail_is_the_end_of_what_was_written() {
    let mut tail: Vec<u8> = Vec::new();
    keep_tail(&mut tail, &vec![b'a'; STDERR_TAIL_BYTES]);
    keep_tail(&mut tail, b"bcd");
    assert_eq!(tail.len(), STDERR_TAIL_BYTES);
    assert!(tail.ends_with(b"abcd"));
    // Kept in pieces or at once, the tail is the same.
    let mut whole = vec![b'a'; STDERR_TAIL_BYTES];
    whole.extend_from_slice(b"bcd");
    let mut at_once: Vec<u8> = Vec::new();
    keep_tail(&mut at_once, &whole);
    assert_eq!(at_once, tail);
}

#[test]
fn details_are_cut_between_characters() {
    assert_eq!(bounded_detail("short"), "short");
    let accented = format!("{}é", "x".repeat(MAX_DETAIL_BYTES - 1));
    assert_eq!(bounded_detail(&accented), "x".repeat(MAX_DETAIL_BYTES - 1));
}

#[test]
fn bytes_that_are_no_text_are_replaced_in_the_tail() {
    let report: InspectReport<String> =
        finalize(false, no_frames(), &vec![b'a', 0xff, b'b'], validate);
    assert_eq!(report, InspectReport::Failed { stderr_tail: "a\u{fffd}b".to_string() });
}
