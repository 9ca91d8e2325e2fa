use viewer_core::errors::ArgError;
use viewer_core::head::Config;
use viewer_core::window::{select_window, take_first_items, drop_last_items, Count, TrailBuffer};

fn lines(v: &[&str]) -> Vec<String> {
    v.iter().map(|s| s.to_string()).collect()
}

#[test]
fn first_three_of_five_lines() {
    let input = lines(&["l1", "l2", "l3", "l4", "l5"]);
    let out = select_window(input, Count::First(3));
    assert_eq!(out, lines(&["l1", "l2", "l3"]));
}

#[test]
fn all_but_last_two_of_five_lines() {
    let input = lines(&["l1", "l2", "l3", "l4", "l5"]);
    let out = select_window(input, Count::AllButLast(2));
    assert_eq!(out, lines(&["l1", "l2", "l3"]));
}

#[test]
fn count_beyond_length_keeps_everything() {
    let input = lines(&["a", "b"]);
    let out = select_window(input.clone(), Count::First(100));
    assert_eq!(out, input);
    let out = take_first_items(input.clone(), 2);
    assert_eq!(out, input);
}

#[test]
fn zero_counts() {
    let input = lines(&["a", "b", "c"]);
    let out = select_window(input.clone(), Count::First(0));
    assert_eq!(out, lines(&[]));
    let out = select_window(input.clone(), Count::AllButLast(0));
    assert_eq!(out, input);
    let out = drop_last_items(input, 5);
    assert_eq!(out, lines(&[]));
}

#[test]
fn first_five_of_ten_bytes_verbatim() {
    let input: Vec<u8> = vec![0x00, 0xff, b'\n', 0x7f, 0x80, 1, 2, 3, 4, 5];
    let out = select_window(input, Count::First(5));
    assert_eq!(out, vec![0x00, 0xff, b'\n', 0x7f, 0x80]);
}

#[test]
fn all_but_last_three_bytes() {
    let input: Vec<u8> = vec![1, 2, 3, 4, 5];
    let out = select_window(input, Count::AllButLast(3));
    assert_eq!(out, vec![1, 2]);
}

#[test]
fn trail_buffer_evicts_oldest_beyond_capacity() {
    let mut tb: TrailBuffer<u8> = TrailBuffer::new(2);
    assert_eq!(tb.push(1), None);
    assert_eq!(tb.push(2), None);
    assert_eq!(tb.push(3), Some(1));
    assert_eq!(tb.push(4), Some(2));
}

#[test]
fn trail_buffer_with_zero_capacity_holds_nothing() {
    let mut tb: TrailBuffer<u8> = TrailBuffer::new(0);
    assert_eq!(tb.push(9), Some(9));
    assert_eq!(tb.push(8), Some(8));
}

#[test]
fn head_config_defaults_to_ten_lines() {
    let c = Config::build(lines(&["f"]), None, None).unwrap();
    assert_eq!(c.lines, Count::First(10));
    assert_eq!(c.bytes, None);
    assert!(!c.active_is_bytes());
    assert_eq!(c.active_count(), Count::First(10));
}

#[test]
fn head_config_byte_count_governs() {
    let c = Config::build(lines(&["f"]), Some("4"), Some("-7")).unwrap();
    assert_eq!(c.lines, Count::First(4));
    assert_eq!(c.bytes, Some(Count::AllButLast(7)));
    assert!(c.active_is_bytes());
    assert_eq!(c.active_count(), Count::AllButLast(7));
}

#[test]
fn head_config_defaults_to_stdin_sentinel() {
    let c = Config::build(Vec::new(), None, None).unwrap();
    assert_eq!(c.files, lines(&["-"]));
}

#[test]
fn invalid_line_count_token_is_named() {
    let r = Config::build(lines(&["f"]), Some("abc"), None);
    match r {
        Err(e @ ArgError::IllegalLineCount(_)) => {
            let msg = e.message();
            assert!(msg.contains("abc"));
            assert_eq!(msg, "illegal line count -- abc");
        }
        other => panic!("expected an illegal line count error, got {:?}", other),
    }
}

#[test]
fn invalid_byte_count_token_is_named() {
    let r = Config::build(lines(&["f"]), None, Some("12q"));
    match r {
        Err(e @ ArgError::IllegalByteCount(_)) => {
            let msg = e.message();
            assert!(msg.contains("12q"));
            assert_eq!(msg, "illegal byte count -- 12q");
        }
        other => panic!("expected an illegal byte count error, got {:?}", other),
    }
}
