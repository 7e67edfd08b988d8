use vid2av1::error_protocol::encode_error;
use vid2av1::error_protocol::error_canceled_by_user;
use vid2av1::error_protocol::error_no_active_conversion;
use vid2av1::error_protocol::is_canceled_by_user_error;
use vid2av1::error_protocol::is_error_code;
use vid2av1::error_protocol::ERROR_CODE_CANCELED_BY_USER;
use vid2av1::error_protocol::ERROR_CODE_NO_ACTIVE_CONVERSION;

#[test]
fn encode_error_uses_wire_format() {
    assert_eq!(encode_error("SOME_CODE", "something"), "VID2AV1_ERROR|SOME_CODE|something");
}

#[test]
fn canned_errors_round_trip() {
    assert!(is_error_code(&error_canceled_by_user(), ERROR_CODE_CANCELED_BY_USER));
    assert!(is_error_code(&error_no_active_conversion(), ERROR_CODE_NO_ACTIVE_CONVERSION));
    assert!(is_canceled_by_user_error(&error_canceled_by_user()));
    assert!(!is_canceled_by_user_error(&error_no_active_conversion()));
}

#[test]
fn canned_error_texts() {
    assert_eq!(
        error_canceled_by_user(),
        "VID2AV1_ERROR|CANCELED_BY_USER|Conversion canceled by user."
    );
    assert_eq!(
        error_no_active_conversion(),
        "VID2AV1_ERROR|NO_ACTIVE_CONVERSION|No conversion is currently running."
    );
}

#[test]
fn is_error_code_requires_prefix_and_code() {
    assert!(!is_error_code("something went wrong", ERROR_CODE_CANCELED_BY_USER));
    assert!(!is_error_code("VID2AV1_ERROR|CANCELED_BY_USER", ERROR_CODE_CANCELED_BY_USER));
    assert!(is_error_code("VID2AV1_ERROR|CANCELED_BY_USER|", ERROR_CODE_CANCELED_BY_USER));
    assert!(!is_error_code("OTHER|CANCELED_BY_USER|x", ERROR_CODE_CANCELED_BY_USER));
    assert!(!is_error_code("VID2AV1_ERROR|CANCELED|x", ERROR_CODE_CANCELED_BY_USER));
}
