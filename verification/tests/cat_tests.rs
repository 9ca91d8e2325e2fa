use viewer_core::cat::Config;
use viewer_core::errors::ArgError;
use viewer_core::numbering::{cat_source, format_line, u64_decimal, aligned_number, DisplayMode};

fn lines(v: &[&str]) -> Vec<String> {
    v.iter().map(|s| s.to_string()).collect()
}

#[test]
fn decimal_rendering() {
    assert_eq!(u64_decimal(0), "0");
    assert_eq!(u64_decimal(7), "7");
    assert_eq!(u64_decimal(10), "10");
    assert_eq!(u64_decimal(90210), "90210");
}

#[test]
fn alignment_pads_to_width_six() {
    assert_eq!(aligned_number(1, 6), "     1");
    assert_eq!(aligned_number(123456, 6), "123456");
    assert_eq!(aligned_number(1234567, 6), "1234567");
}

#[test]
fn numbered_lines_have_aligned_number_tab_and_text() {
    let input = lines(&["hello", "world"]);
    let out = cat_source(DisplayMode::Numbered, false, &input);
    assert_eq!(out, lines(&["     1\thello", "     2\tworld"]));
}

#[test]
fn plain_mode_passes_lines_through() {
    let input = lines(&["a", "", "b"]);
    let out = cat_source(DisplayMode::Plain, false, &input);
    assert_eq!(out, input);
}

#[test]
fn show_ends_appends_marker() {
    let input = lines(&["a", ""]);
    let out = cat_source(DisplayMode::Plain, true, &input);
    assert_eq!(out, lines(&["a$", "$"]));
}

#[test]
fn nonblank_numbering_skips_blanks_and_starts_at_one() {
    let input = lines(&["", "", "first", "", "second"]);
    let out = cat_source(DisplayMode::NumberedNonblank, false, &input);
    assert_eq!(
        out,
        lines(&["", "", "     1\tfirst", "", "     2\tsecond"])
    );
}

#[test]
fn nonblank_numbering_with_ends_marks_blanks_too() {
    let input = lines(&["", "x"]);
    let out = cat_source(DisplayMode::NumberedNonblank, true, &input);
    assert_eq!(out, lines(&["$", "     1\tx$"]));
}

#[test]
fn cat_pass_is_idempotent() {
    let input = lines(&["one", "", "two", "three"]);
    let first = cat_source(DisplayMode::NumberedNonblank, true, &input);
    let second = cat_source(DisplayMode::NumberedNonblank, true, &input);
    assert_eq!(first, second);
    let third = cat_source(DisplayMode::Numbered, false, &input);
    let fourth = cat_source(DisplayMode::Numbered, false, &input);
    assert_eq!(third, fourth);
}

#[test]
fn format_line_advances_counter_on_nonblank_only() {
    let (out, c) = format_line(DisplayMode::NumberedNonblank, false, 0, 0, "");
    assert_eq!(out, "");
    assert_eq!(c, 0);
    let (out, c) = format_line(DisplayMode::NumberedNonblank, false, 0, 1, "text");
    assert_eq!(out, "     1\ttext");
    assert_eq!(c, 1);
}

#[test]
fn conflicting_number_flags_are_fatal() {
    let r = Config::build(lines(&["f"]), true, true, false);
    assert!(matches!(r, Err(ArgError::ConflictingNumberFlags)));
}

#[test]
fn cat_config_defaults_to_stdin_sentinel() {
    let c = Config::build(Vec::new(), false, false, false).unwrap();
    assert_eq!(c.files, lines(&["-"]));
    assert_eq!(c.mode, DisplayMode::Plain);
    assert!(!c.show_ends);
}

#[test]
fn nonblank_flag_selects_nonblank_mode() {
    let c = Config::build(lines(&["f"]), false, true, true).unwrap();
    assert_eq!(c.mode, DisplayMode::NumberedNonblank);
    assert!(c.show_ends);
}
