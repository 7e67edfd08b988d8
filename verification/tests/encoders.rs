use vid2av1::convert::pick_auto_av1_encoder;
use vid2av1::encoders::list_encoders;
use vid2av1::encoders::resolve_encoder_candidates;

#[test]
fn resolve_encoder_candidates_prioritizes_requested_encoder() {
    let available = vec![
        "libsvtav1".to_string(),
        "av1_nvenc".to_string(),
        "my_custom_av1".to_string(),
    ];
    let ordered = resolve_encoder_candidates(Some("my_custom_av1"), &available)
        .expect("candidate resolution should succeed");

    assert_eq!(ordered.first().map(String::as_str), Some("my_custom_av1"));
    assert!(ordered.contains(&"av1_nvenc".to_string()));
    assert!(ordered.contains(&"libsvtav1".to_string()));
}

#[test]
fn resolve_encoder_candidates_keeps_non_preferred_fallbacks() {
    let available = vec!["my_custom_av1".to_string()];
    let ordered = resolve_encoder_candidates(None, &available)
        .expect("candidate resolution should succeed");

    assert_eq!(ordered, vec!["my_custom_av1".to_string()]);
}

#[test]
fn resolve_encoder_candidates_rejects_missing_requested_encoder() {
    let available = vec!["av1_nvenc".to_string()];
    let error = resolve_encoder_candidates(Some("libsvtav1"), &available)
        .expect_err("missing requested encoder should fail");

    assert!(error.contains("Requested AV1 encoder is unavailable"));
}

#[test]
fn resolve_encoder_candidates_orders_preferred_before_rest() {
    let available = vec![
        "zz_custom".to_string(),
        "librav1e".to_string(),
        "av1_nvenc".to_string(),
    ];
    let ordered = resolve_encoder_candidates(None, &available).expect("resolution should succeed");
    assert_eq!(
        ordered,
        vec![
            "av1_nvenc".to_string(),
            "librav1e".to_string(),
            "zz_custom".to_string(),
        ]
    );
}

#[test]
fn resolve_encoder_candidates_rejects_empty_availability() {
    let available: Vec<String> = Vec::new();
    let error = resolve_encoder_candidates(None, &available).expect_err("nothing available");
    assert_eq!(error, "No supported AV1 encoder found in ffmpeg.");
}

#[test]
fn resolve_encoder_candidates_deduplicates() {
    let available = vec![
        "libsvtav1".to_string(),
        "libsvtav1".to_string(),
        "av1_qsv".to_string(),
    ];
    let ordered =
        resolve_encoder_candidates(Some("av1_qsv"), &available).expect("resolution should succeed");
    assert_eq!(
        ordered,
        vec!["av1_qsv".to_string(), "libsvtav1".to_string()]
    );
}

#[test]
fn list_encoders_keeps_sorted_video_av1_encoders() {
    let output = "Encoders:\n V..... libsvtav1            SVT-AV1\n V..... av1_nvenc            NVIDIA NVENC av1 encoder\n A..... aac                  AAC (Advanced Audio Coding)\n V..... av1_nvenc            NVIDIA NVENC av1 encoder\n";
    let found = list_encoders(output);
    assert_eq!(found, vec!["av1_nvenc".to_string(), "libsvtav1".to_string()]);
}

#[test]
fn list_encoders_ignores_audio_and_short_lines() {
    let output = "A..... av1_fake  audio impostor\nV.....\nno codec marker here\n V..... librav1e  rav1e AV1 encoder\n";
    let found = list_encoders(output);
    assert_eq!(found, vec!["librav1e".to_string()]);
}

#[test]
fn list_encoders_empty_output_yields_nothing() {
    let found = list_encoders("");
    assert!(found.is_empty());
}

#[test]
fn pick_auto_av1_encoder_prefers_accelerated() {
    let available = vec!["libsvtav1".to_string(), "av1_nvenc".to_string()];
    let picked = pick_auto_av1_encoder(&available).expect("an encoder should be picked");
    assert_eq!(picked, "av1_nvenc");
}

#[test]
fn pick_auto_av1_encoder_fails_with_nothing_available() {
    let available: Vec<String> = Vec::new();
    let error = pick_auto_av1_encoder(&available).expect_err("nothing to pick");
    assert_eq!(error, "No supported AV1 encoder found in ffmpeg.");
}
