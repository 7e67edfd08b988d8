use vid2av1::convert::abort_if_cancel_requested;
use vid2av1::convert::FallbackRun;
use vid2av1::convert::FallbackStep;
use vid2av1::error_protocol::error_canceled_by_user;
use vid2av1::error_protocol::is_canceled_by_user_error;
use vid2av1::model::ConvertRequest;
use vid2av1::planning::build_conversion_plan;
use vid2av1::planning::ConversionPlan;
use vid2av1::state::request_cancel;
use vid2av1::state::ConvertState;

fn sample_plan() -> ConversionPlan {
    let request = ConvertRequest {
        input_path: "videos/input.mkv".to_string(),
        av1_encoder: None,
    };
    let available = vec!["libsvtav1".to_string(), "av1_nvenc".to_string()];
    build_conversion_plan(
        &request,
        "tools/ffmpeg".to_string(),
        2_000_000_000,
        120_000,
        128,
        &available,
    )
    .expect("the plan should build")
}

#[test]
fn plan_carries_probed_facts() {
    let plan = sample_plan();
    assert_eq!(plan.output_path, "videos/input.av1.mp4");
    assert_eq!(plan.target_size_bytes, 1_000_000_000);
    assert_eq!(plan.duration_ms, 120_000);
    assert_eq!(plan.audio_bitrate_kbps, 128);
    assert_eq!(plan.video_bitrate_kbps, 66_538);
    assert_eq!(
        plan.encoder_candidates,
        vec!["av1_nvenc".to_string(), "libsvtav1".to_string()]
    );
}

#[test]
fn plan_rejects_unavailable_request() {
    let request = ConvertRequest {
        input_path: "videos/input.mkv".to_string(),
        av1_encoder: Some("librav1e".to_string()),
    };
    let available = vec!["libsvtav1".to_string()];
    let error = build_conversion_plan(
        &request,
        "tools/ffmpeg".to_string(),
        2_000_000_000,
        120_000,
        128,
        &available,
    )
    .expect_err("the requested encoder is missing");
    assert_eq!(error, "Requested AV1 encoder is unavailable: librav1e");
}

#[test]
fn plan_rejects_tiny_source() {
    let request = ConvertRequest {
        input_path: "videos/input.mkv".to_string(),
        av1_encoder: None,
    };
    let available = vec!["libsvtav1".to_string()];
    let error = build_conversion_plan(
        &request,
        "tools/ffmpeg".to_string(),
        1_000,
        10_000,
        128,
        &available,
    )
    .expect_err("too small a source");
    assert!(error.starts_with("Computed video bitrate too low ("));
}

#[test]
fn fallback_tries_candidates_in_order() {
    let plan = sample_plan();
    let mut run = FallbackRun::new();
    match run.next_step(&plan, false) {
        FallbackStep::Try(encoder, args) => {
            assert_eq!(encoder, "av1_nvenc");
            assert!(args.contains(&"-rc".to_string()));
            assert!(args.contains(&"66538k".to_string()));
        }
        _ => panic!("the first candidate should be tried"),
    }
    assert!(run
        .record_outcome(&plan, Err("spawn failed".to_string()))
        .is_none());
    match run.next_step(&plan, false) {
        FallbackStep::Try(encoder, _) => assert_eq!(encoder, "libsvtav1"),
        _ => panic!("the second candidate should be tried"),
    }
}

#[test]
fn fallback_success_short_circuits_with_summary() {
    let plan = sample_plan();
    let mut run = FallbackRun::new();
    match run.next_step(&plan, false) {
        FallbackStep::Try(..) => {}
        _ => panic!("an attempt should run"),
    }
    let done = run
        .record_outcome(&plan, Ok(()))
        .expect("a success finishes the pass");
    let summary = done.expect("and it is a success");
    assert_eq!(summary.av1_encoder, "av1_nvenc");
    assert_eq!(summary.output_path, "videos/input.av1.mp4");
    assert_eq!(summary.target_size_bytes, 1_000_000_000);
    assert_eq!(summary.video_bitrate_kbps, 66_538);
}

#[test]
fn cancellation_beats_fallback() {
    // Candidate one failed; cancellation arrives before candidate two: the
    // pass ends with the cancellation error, not the aggregated one.
    let plan = sample_plan();
    let mut run = FallbackRun::new();
    assert!(run
        .record_outcome(&plan, Err("first failed".to_string()))
        .is_none());
    match run.next_step(&plan, true) {
        FallbackStep::Canceled(m) => assert!(is_canceled_by_user_error(&m)),
        _ => panic!("cancellation must win"),
    }
}

#[test]
fn cancellation_outcome_propagates_unchanged() {
    let plan = sample_plan();
    let mut run = FallbackRun::new();
    let done = run
        .record_outcome(&plan, Err(error_canceled_by_user()))
        .expect("cancellation finishes the pass");
    let error = done.expect_err("with the cancellation error");
    assert!(is_canceled_by_user_error(&error));
}

#[test]
fn exhaustion_aggregates_all_attempts() {
    let plan = sample_plan();
    let mut run = FallbackRun::new();
    assert!(run.record_outcome(&plan, Err("no driver".to_string())).is_none());
    assert!(run.record_outcome(&plan, Err("bad input".to_string())).is_none());
    match run.next_step(&plan, false) {
        FallbackStep::Exhausted(m) => assert_eq!(
            m,
            "All AV1 encoder attempts failed (av1_nvenc, libsvtav1). Last error: libsvtav1: bad input"
        ),
        _ => panic!("everything failed"),
    }
}

#[test]
fn abort_check_follows_cancel_state() {
    let mut st = ConvertState::new();
    assert!(abort_if_cancel_requested(&st).is_ok());
    request_cancel(&mut st);
    let error = abort_if_cancel_requested(&st).expect_err("canceled");
    assert!(is_canceled_by_user_error(&error));
}
