use vid2av1::state::cancel_active_conversion;
use vid2av1::state::clear_cancel_requested;
use vid2av1::state::collect_registered_ffmpeg_pids;
use vid2av1::state::get_active_conversion;
use vid2av1::state::get_cached_av1_encoders;
use vid2av1::state::is_cancel_requested;
use vid2av1::state::register_active_conversion;
use vid2av1::state::register_ffmpeg_pid;
use vid2av1::state::request_cancel;
use vid2av1::state::set_cached_av1_encoders;
use vid2av1::state::terminate_all_active_ffmpeg;
use vid2av1::state::unregister_active_conversion;
use vid2av1::state::unregister_ffmpeg_pid;
use vid2av1::state::ConvertState;

#[test]
fn single_flight_rejects_second_conversion() {
    let mut st = ConvertState::new();
    register_active_conversion(&mut st, 11).expect("first conversion may start");
    let error = register_active_conversion(&mut st, 22).expect_err("second must be rejected");
    assert_eq!(error, "Another conversion is already running.");
    unregister_active_conversion(&mut st, 11);
    register_active_conversion(&mut st, 22).expect("free again after release");
}

#[test]
fn stale_release_does_not_evict_newer_conversion() {
    let mut st = ConvertState::new();
    register_active_conversion(&mut st, 11).expect("first conversion may start");
    unregister_active_conversion(&mut st, 99);
    assert!(get_active_conversion(&st).is_ok());
    unregister_active_conversion(&mut st, 11);
    assert!(get_active_conversion(&st).is_err());
}

#[test]
fn get_active_conversion_reports_no_active_error() {
    let st = ConvertState::new();
    let error = get_active_conversion(&st).expect_err("nothing is running");
    assert_eq!(
        error,
        "VID2AV1_ERROR|NO_ACTIVE_CONVERSION|No conversion is currently running."
    );
}

#[test]
fn pid_tracking_deduplicates_and_removes() {
    let mut st = ConvertState::new();
    register_ffmpeg_pid(&mut st, 5);
    register_ffmpeg_pid(&mut st, 7);
    register_ffmpeg_pid(&mut st, 5);
    assert_eq!(collect_registered_ffmpeg_pids(&st), vec![5, 7]);
    unregister_ffmpeg_pid(&mut st, 5);
    assert_eq!(collect_registered_ffmpeg_pids(&st), vec![7]);
}

#[test]
fn cancel_is_seen_from_either_flag() {
    let mut st = ConvertState::new();
    assert!(!is_cancel_requested(&st));
    request_cancel(&mut st);
    assert!(is_cancel_requested(&st));
    clear_cancel_requested(&mut st);
    assert!(!is_cancel_requested(&st));

    register_active_conversion(&mut st, 3).expect("conversion may start");
    let _ = cancel_active_conversion(&mut st);
    assert!(is_cancel_requested(&st));
    clear_cancel_requested(&mut st);
    assert!(!is_cancel_requested(&st));
}

#[test]
fn cancel_active_conversion_names_the_actions() {
    let mut st = ConvertState::new();
    register_ffmpeg_pid(&mut st, 41);
    register_ffmpeg_pid(&mut st, 42);
    register_active_conversion(&mut st, 42).expect("conversion may start");
    let actions = cancel_active_conversion(&mut st);
    assert_eq!(actions.quit_pid, Some(42));
    assert_eq!(actions.kill_pids, vec![41, 42]);
    assert!(collect_registered_ffmpeg_pids(&st).is_empty());
    assert!(is_cancel_requested(&st));
}

#[test]
fn cancel_with_nothing_running_is_harmless() {
    let mut st = ConvertState::new();
    let actions = cancel_active_conversion(&mut st);
    assert_eq!(actions.quit_pid, None);
    assert!(actions.kill_pids.is_empty());
}

#[test]
fn terminate_sweep_returns_and_clears_tracked() {
    let mut st = ConvertState::new();
    register_ffmpeg_pid(&mut st, 8);
    register_ffmpeg_pid(&mut st, 9);
    let pids = terminate_all_active_ffmpeg(&mut st);
    assert_eq!(pids, vec![8, 9]);
    assert!(collect_registered_ffmpeg_pids(&st).is_empty());
    assert!(is_cancel_requested(&st));
}

#[test]
fn idempotent_clear_keeps_state_as_if_never_canceled() {
    let mut st = ConvertState::new();
    register_ffmpeg_pid(&mut st, 6);
    register_active_conversion(&mut st, 6).expect("conversion may start");
    set_cached_av1_encoders(&mut st, vec!["libsvtav1".to_string()]);

    // Nothing is canceled; clearing once and clearing twice leave the same
    // observable state as doing nothing.
    clear_cancel_requested(&mut st);
    clear_cancel_requested(&mut st);
    assert!(!is_cancel_requested(&st));
    assert_eq!(collect_registered_ffmpeg_pids(&st), vec![6]);
    let control = get_active_conversion(&st).expect("still running");
    assert_eq!(control.pid(), 6);
    assert!(!control.is_cancel_requested());
    assert_eq!(
        get_cached_av1_encoders(&st),
        Some(vec!["libsvtav1".to_string()])
    );
}

#[test]
fn encoder_cache_round_trips() {
    let mut st = ConvertState::new();
    assert_eq!(get_cached_av1_encoders(&st), None);
    set_cached_av1_encoders(&mut st, vec!["av1_nvenc".to_string(), "libaom-av1".to_string()]);
    assert_eq!(
        get_cached_av1_encoders(&st),
        Some(vec!["av1_nvenc".to_string(), "libaom-av1".to_string()])
    );
}
