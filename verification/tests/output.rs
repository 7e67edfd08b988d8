use vid2av1::output::default_output_for_input;

#[test]
fn default_output_for_input_replaces_extension() {
    let output =
        default_output_for_input("videos/input.mkv").expect("output path should be generated");
    assert!(output.ends_with("input.av1.mp4"));
}

#[test]
fn default_output_keeps_directory() {
    let output = default_output_for_input("videos/input.mkv").expect("output path expected");
    assert_eq!(output, "videos/input.av1.mp4");
}

#[test]
fn default_output_without_directory() {
    let output = default_output_for_input("input.webm").expect("output path expected");
    assert_eq!(output, "input.av1.mp4");
}

#[test]
fn default_output_keeps_inner_dots() {
    let output = default_output_for_input("clips/archive.tar.gz").expect("output path expected");
    assert_eq!(output, "clips/archive.tar.av1.mp4");
}

#[test]
fn default_output_leading_dot_name_kept_whole() {
    let output = default_output_for_input("home/.hidden").expect("output path expected");
    assert_eq!(output, "home/.hidden.av1.mp4");
}

#[test]
fn default_output_rejects_trailing_separator() {
    let error = default_output_for_input("videos/").expect_err("no file name to use");
    assert_eq!(error, "Input path has no file name.");
}

#[test]
fn default_output_rejects_empty_path() {
    let error = default_output_for_input("").expect_err("empty path");
    assert_eq!(error, "Input path has no parent folder.");
}
