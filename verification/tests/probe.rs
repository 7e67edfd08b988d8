use vid2av1::probe::parse_decimal_milli;
use vid2av1::probe::read_audio_bitrate_kbps;
use vid2av1::probe::read_ffprobe_duration;

#[test]
fn duration_parses_plain_seconds() {
    let ms = read_ffprobe_duration("120.000000\n").expect("duration should parse");
    assert_eq!(ms, 120_000);
}

#[test]
fn duration_keeps_milliseconds_and_floors_the_rest() {
    let ms = read_ffprobe_duration("7.3219\n").expect("duration should parse");
    assert_eq!(ms, 7_321);
}

#[test]
fn duration_skips_blank_lines() {
    let ms = read_ffprobe_duration("\n   \n42\n").expect("duration should parse");
    assert_eq!(ms, 42_000);
}

#[test]
fn duration_rejects_empty_output() {
    let error = read_ffprobe_duration("").expect_err("nothing to read");
    assert_eq!(error, "Expected ffprobe output.");
}

#[test]
fn duration_rejects_garbage() {
    let error = read_ffprobe_duration("N/A\n").expect_err("not a number");
    assert_eq!(error, "Parse error: expected a decimal number.");
}

#[test]
fn duration_rejects_zero() {
    let error = read_ffprobe_duration("0.000\n").expect_err("no length at all");
    assert_eq!(error, "Duration must be > 0.");
}

#[test]
fn audio_bitrate_floors_to_kbps() {
    assert_eq!(read_audio_bitrate_kbps(true, "128000\n", 128), 128);
    assert_eq!(read_audio_bitrate_kbps(true, "191999\n", 128), 191);
}

#[test]
fn audio_bitrate_falls_back() {
    assert_eq!(read_audio_bitrate_kbps(false, "128000\n", 96), 96);
    assert_eq!(read_audio_bitrate_kbps(true, "", 96), 96);
    assert_eq!(read_audio_bitrate_kbps(true, "N/A\n", 96), 96);
    assert_eq!(read_audio_bitrate_kbps(true, "0\n", 96), 96);
}

#[test]
fn decimal_milli_parses_and_floors() {
    assert_eq!(parse_decimal_milli("128.5"), Some(128_500));
    assert_eq!(parse_decimal_milli("2"), Some(2_000));
    assert_eq!(parse_decimal_milli("0.12345"), Some(123));
    assert_eq!(parse_decimal_milli("7."), Some(7_000));
    assert_eq!(parse_decimal_milli(""), None);
    assert_eq!(parse_decimal_milli(".5"), None);
    assert_eq!(parse_decimal_milli("1.2.3"), None);
    assert_eq!(parse_decimal_milli("-1"), None);
}
