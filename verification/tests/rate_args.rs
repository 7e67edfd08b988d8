use vid2av1::planning::build_encode_args;
use vid2av1::planning::ConversionPlan;
use vid2av1::rate_control::video_rate_args;

#[test]
fn strict_rate_args_pin_all_rates() {
    let args = video_rate_args(2_000, true, "libsvtav1");
    assert_eq!(
        args,
        vec![
            "-b:v".to_string(),
            "2000k".to_string(),
            "-minrate".to_string(),
            "2000k".to_string(),
            "-maxrate".to_string(),
            "2000k".to_string(),
            "-bufsize".to_string(),
            "4000k".to_string(),
        ]
    );
}

#[test]
fn accelerated_encoder_gets_constant_rate_mode() {
    let args = video_rate_args(2_000, true, "av1_nvenc");
    assert_eq!(&args[2..4], &["-rc".to_string(), "cbr".to_string()]);
}

#[test]
fn buffer_size_never_sinks_under_the_minimum() {
    let args = video_rate_args(300, true, "libsvtav1");
    assert_eq!(args.last(), Some(&"1000k".to_string()));
}

#[test]
fn loose_rate_args_only_name_the_bitrate() {
    let args = video_rate_args(2_000, false, "libsvtav1");
    assert_eq!(args, vec!["-b:v".to_string(), "2000k".to_string()]);
}

#[test]
fn encode_args_follow_the_plan() {
    let plan = ConversionPlan {
        ffmpeg_path: "tools/ffmpeg".to_string(),
        output_path: "v/x.av1.mp4".to_string(),
        duration_ms: 60_000,
        target_size_bytes: 1_000_000,
        audio_bitrate_kbps: 128,
        video_bitrate_kbps: 500,
        encoder_candidates: vec!["libsvtav1".to_string()],
        input_path: "v/x.mkv".to_string(),
    };
    let args = build_encode_args(&plan, "libsvtav1");
    assert_eq!(
        args,
        vec![
            "-y".to_string(),
            "-i".to_string(),
            "v/x.mkv".to_string(),
            "-c:v".to_string(),
            "libsvtav1".to_string(),
            "-b:v".to_string(),
            "500k".to_string(),
            "-minrate".to_string(),
            "500k".to_string(),
            "-maxrate".to_string(),
            "500k".to_string(),
            "-bufsize".to_string(),
            "1000k".to_string(),
            "-c:a".to_string(),
            "aac".to_string(),
            "-b:a".to_string(),
            "128k".to_string(),
            "-movflags".to_string(),
            "+faststart".to_string(),
            "v/x.av1.mp4".to_string(),
        ]
    );
}
