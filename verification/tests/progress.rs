use vid2av1::progress::classify_exit;
use vid2av1::progress::with_progress_args;
use vid2av1::progress::ProgressTracker;

#[test]
fn progress_emits_on_block_marker() {
    let mut t = ProgressTracker::new(100_000, "Encode".to_string());
    assert!(t.observe_line("out_time_ms=25000000", false).is_none());
    assert!(t.observe_line("speed=2x", false).is_none());
    let e = t
        .observe_line("progress=continue", true)
        .expect("an event is due");
    assert_eq!(e.percent_milli, 25_000);
    assert_eq!(e.speed_milli, Some(2_000));
    assert_eq!(e.eta_ms, Some(37_500));
    assert_eq!(e.label, "Encode");
}

#[test]
fn progress_throttles_small_advances() {
    let mut t = ProgressTracker::new(100_000, "Encode".to_string());
    assert!(t.observe_line("out_time_ms=10000000", false).is_none());
    assert!(t.observe_line("progress=continue", true).is_some());
    // A tenth of a percent further, and the interval has not elapsed.
    assert!(t.observe_line("out_time_ms=10100000", false).is_none());
    assert!(t.observe_line("progress=continue", false).is_none());
    // A quarter percent further passes the step threshold.
    assert!(t.observe_line("out_time_ms=10250000", false).is_none());
    assert!(t.observe_line("progress=continue", false).is_some());
}

#[test]
fn progress_near_end_always_emits() {
    let mut t = ProgressTracker::new(100_000, "Encode".to_string());
    assert!(t.observe_line("out_time_ms=99950000", false).is_none());
    let e = t
        .observe_line("progress=continue", false)
        .expect("the near-final event is never throttled");
    assert_eq!(e.percent_milli, 99_950);
}

#[test]
fn progress_percent_is_clamped() {
    let mut t = ProgressTracker::new(10_000, "Encode".to_string());
    assert!(t.observe_line("out_time_ms=99000000", false).is_none());
    let e = t.observe_line("progress=continue", true).expect("event due");
    assert_eq!(e.percent_milli, 100_000);
}

#[test]
fn progress_percents_never_decrease() {
    let mut t = ProgressTracker::new(100_000, "Encode".to_string());
    let mut last = 0u32;
    let observations = [
        "out_time_ms=5000000",
        "progress=continue",
        "out_time_ms=30000000",
        "progress=continue",
        "out_time_ms=30100000",
        "progress=continue",
        "out_time_ms=90000000",
        "progress=continue",
    ];
    for line in observations {
        if let Some(e) = t.observe_line(line, true) {
            assert!(e.percent_milli >= last);
            last = e.percent_milli;
        }
    }
    let e = t.emit_final();
    assert_eq!(e.percent_milli, 100_000);
    assert_eq!(e.eta_ms, Some(0));
    assert!(e.percent_milli >= last);
}

#[test]
fn progress_ignores_unusable_lines() {
    let mut t = ProgressTracker::new(100_000, "Encode".to_string());
    assert!(t.observe_line("frame=120", false).is_none());
    assert!(t.observe_line("speed=fastx", false).is_none());
    assert!(t.observe_line("out_time_ms=oops", false).is_none());
    let e = t.observe_line("progress=continue", true).expect("event due");
    // Nothing usable arrived: still at the start, with no speed.
    assert_eq!(e.percent_milli, 0);
    assert_eq!(e.speed_milli, None);
    assert_eq!(e.eta_ms, None);
}

#[test]
fn negative_out_time_clamps_to_start() {
    let mut t = ProgressTracker::new(100_000, "Encode".to_string());
    assert!(t.observe_line("out_time_ms=-9223372036854775", false).is_none());
    let e = t.observe_line("progress=continue", true).expect("event due");
    assert_eq!(e.percent_milli, 0);
}

#[test]
fn exit_classification() {
    assert!(classify_exit(true, false, "").is_ok());
    assert!(classify_exit(true, true, "").is_ok());
    let canceled = classify_exit(false, true, "whatever").expect_err("canceled");
    assert_eq!(
        canceled,
        "VID2AV1_ERROR|CANCELED_BY_USER|Conversion canceled by user."
    );
    let failed = classify_exit(false, false, "boom").expect_err("failed");
    assert_eq!(failed, "ffmpeg failed: boom");
}

#[test]
fn progress_args_are_appended() {
    let args = vec!["-y".to_string(), "-i".to_string()];
    let full = with_progress_args(&args);
    assert_eq!(
        full,
        vec![
            "-y".to_string(),
            "-i".to_string(),
            "-progress".to_string(),
            "pipe:1".to_string(),
            "-nostats".to_string(),
            "-loglevel".to_string(),
            "error".to_string(),
        ]
    );
}
