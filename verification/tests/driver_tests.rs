use viewer_core::cat::Config as CatConfig;
use viewer_core::head::Config as HeadConfig;
use viewer_core::driver::{diag_line, run_cat, run_head_bytes, run_head_lines};
use viewer_core::numbering::DisplayMode;
use viewer_core::text::join_with_spaces;

fn lines(v: &[&str]) -> Vec<String> {
    v.iter().map(|s| s.to_string()).collect()
}

#[test]
fn failed_source_is_reported_and_siblings_still_processed() {
    let config = CatConfig::build(lines(&["a.txt", "missing.txt", "b.txt"]), false, false, false)
        .unwrap();
    let data = vec![
        Ok(lines(&["alpha", "apex"])),
        Err("No such file or directory".to_string()),
        Ok(lines(&["beta"])),
    ];
    let report = run_cat(&config, data);
    assert_eq!(report.output, lines(&["alpha", "apex", "beta"]));
    assert_eq!(
        report.diagnostics,
        lines(&["missing.txt: No such file or directory"])
    );
    let naming: Vec<&String> = report
        .diagnostics
        .iter()
        .filter(|d| d.contains("missing.txt"))
        .collect();
    assert_eq!(naming.len(), 1);
}

#[test]
fn cat_run_numbers_each_source_afresh() {
    let config = CatConfig::build(lines(&["x", "y"]), true, false, false).unwrap();
    let data = vec![Ok(lines(&["a", "b"])), Ok(lines(&["c"]))];
    let report = run_cat(&config, data);
    assert_eq!(
        report.output,
        lines(&["     1\ta", "     2\tb", "     1\tc"])
    );
    assert!(report.diagnostics.is_empty());
}

#[test]
fn cat_run_is_idempotent_across_runs() {
    let config = CatConfig::build(lines(&["x"]), false, true, true).unwrap();
    let data = || vec![Ok(lines(&["", "mid", ""]))];
    let first = run_cat(&config, data());
    let second = run_cat(&config, data());
    assert_eq!(first.output, second.output);
    assert_eq!(first.diagnostics, second.diagnostics);
}

#[test]
fn head_line_run_windows_each_source() {
    let config = HeadConfig::build(lines(&["one", "gone", "two"]), Some("2"), None).unwrap();
    let data = vec![
        Ok(lines(&["a", "b", "c"])),
        Err("Permission denied".to_string()),
        Ok(lines(&["d"])),
    ];
    let report = run_head_lines(&config, data);
    assert_eq!(report.output, lines(&["a", "b", "d"]));
    assert_eq!(report.diagnostics, lines(&["gone: Permission denied"]));
}

#[test]
fn head_byte_run_emits_raw_bytes() {
    let config = HeadConfig::build(lines(&["one", "two"]), None, Some("3")).unwrap();
    let data = vec![Ok(vec![10u8, 200u8, 0u8, 7u8]), Ok(vec![1u8, 2u8])];
    let report = run_head_bytes(&config, data);
    assert_eq!(report.output, vec![10u8, 200u8, 0u8, 1u8, 2u8]);
    assert!(report.diagnostics.is_empty());
}

#[test]
fn head_byte_run_negative_count() {
    let config = HeadConfig::build(lines(&["one"]), None, Some("-2")).unwrap();
    let data = vec![Ok(vec![1u8, 2u8, 3u8, 4u8, 5u8])];
    let report = run_head_bytes(&config, data);
    assert_eq!(report.output, vec![1u8, 2u8, 3u8]);
}

#[test]
fn diag_line_names_source_and_cause() {
    let d = diag_line("data.txt", "Is a directory");
    assert_eq!(d, "data.txt: Is a directory");
}

#[test]
fn join_with_spaces_single_separator() {
    assert_eq!(join_with_spaces(&lines(&["Hello", "there"])), "Hello there");
    assert_eq!(join_with_spaces(&lines(&["solo"])), "solo");
    assert_eq!(join_with_spaces(&lines(&[])), "");
}
