use vid2av1::planning::compute_video_bitrate_kbps;

#[test]
fn planner_matches_worked_example() {
    // A two-gigabyte source, two minutes long, 128 kbps audio: the target
    // is half the size, which leaves 66,538 kbps for video.
    let video = compute_video_bitrate_kbps(1_000_000_000, 120_000, 128)
        .expect("bitrate planning should succeed");
    assert_eq!(video, 66_538);
}

#[test]
fn planner_is_deterministic() {
    let first = compute_video_bitrate_kbps(987_654_321, 73_500, 96).expect("planning succeeds");
    let second = compute_video_bitrate_kbps(987_654_321, 73_500, 96).expect("planning succeeds");
    assert_eq!(first, second);
}

#[test]
fn planner_rejects_tiny_source() {
    // A ten-second, one-kilobyte input leaves far less than the floor.
    let error = compute_video_bitrate_kbps(500, 10_000, 128).expect_err("too little to encode");
    assert_eq!(
        error,
        "Computed video bitrate too low (-128 kbps). Use a larger source file."
    );
}

#[test]
fn planner_rejects_just_under_floor() {
    // 199 kbps total minus 100 kbps audio leaves 99, one short of the floor.
    let error = compute_video_bitrate_kbps(24_875, 1_000, 100).expect_err("one under the floor");
    assert_eq!(
        error,
        "Computed video bitrate too low (99 kbps). Use a larger source file."
    );
}

#[test]
fn planner_accepts_exact_floor() {
    // 200 kbps total minus 100 kbps audio leaves exactly the floor.
    let video = compute_video_bitrate_kbps(25_000, 1_000, 100).expect("exactly at the floor");
    assert_eq!(video, 100);
}
