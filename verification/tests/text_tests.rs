use two_phase_commit::text::{contains_str, decimal_string, status_line};

#[test]
fn decimal_of_zero_and_small_numbers() {
    assert_eq!(decimal_string(0), "0");
    assert_eq!(decimal_string(7), "7");
    assert_eq!(decimal_string(10), "10");
    assert_eq!(decimal_string(1234567890), "1234567890");
}

#[test]
fn decimal_of_largest_u64() {
    assert_eq!(decimal_string(u64::MAX), u64::MAX.to_string());
}

#[test]
fn contains_finds_infix_anywhere() {
    assert!(contains_str("client_0_op_1_unknown", "unknown"));
    assert!(contains_str("unknown", "unknown"));
    assert!(contains_str("xunknownx", "unknown"));
    assert!(contains_str("abc", ""));
    assert!(contains_str("", ""));
}

#[test]
fn contains_rejects_absent_infix() {
    assert!(!contains_str("client_0_op_1", "unknown"));
    assert!(!contains_str("unknow", "unknown"));
    assert!(!contains_str("", "u"));
    assert!(!contains_str("unknXown", "unknown"));
}

#[test]
fn status_line_matches_std_formatting() {
    let line = status_line("client_2", 4, 6, 5);
    let expected = format!(
        "{:16}:\t{}: {:6}\tAborted: {:6}\tUnknown: {:6}",
        "client_2", "Committed", 4, 6, 5
    );
    assert_eq!(line, expected);
}

#[test]
fn status_line_with_long_name_and_wide_numbers() {
    let line = status_line("participant_12345678", 1234567, 0, 42);
    let expected = format!(
        "{:16}:\t{}: {:6}\tAborted: {:6}\tUnknown: {:6}",
        "participant_12345678", "Committed", 1234567u64, 0, 42
    );
    assert_eq!(line, expected);
    assert_eq!(
        status_line("coordinator", 17, 23, 17),
        "coordinator     :\tCommitted:     17\tAborted:     23\tUnknown:     17"
    );
}
