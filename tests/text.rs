use close_all::{decimal_string, log_line};

#[test]
fn decimal_string_values() {
    assert_eq!(decimal_string(0), "0");
    assert_eq!(decimal_string(7), "7");
    assert_eq!(decimal_string(10), "10");
    assert_eq!(decimal_string(1234567890), "1234567890");
    assert_eq!(decimal_string(u64::MAX), "18446744073709551615");
}

#[test]
fn log_line_of_an_issue() {
    assert_eq!(log_line(1, 1, false, "Crash on start"), "  1 - Issue   1 - Crash on start");
}

#[test]
fn log_line_of_a_pull_request() {
    assert_eq!(log_line(4, 4, true, "Fix the build"), "  4 - PR      4 - Fix the build");
}

#[test]
fn log_line_does_not_cut_wide_numbers() {
    assert_eq!(log_line(1234, 56789, false, "t"), "1234 - Issue 56789 - t");
}

#[test]
fn log_line_with_empty_title() {
    assert_eq!(log_line(12, 345, true, ""), " 12 - PR    345 - ");
}

#[test]
fn log_line_agrees_with_std_padding() {
    let cases: Vec<(u64, u64, bool, &str)> = vec![
        (1, 9, false, "a"),
        (99, 100, true, "b c"),
        (100, 5, false, "ünïcödé"),
        (1000, 1000, true, "x"),
    ];
    for (counter, number, pr, title) in cases {
        let label = if pr { "PR" } else { "Issue" };
        let expected = format!("{:3} - {:5} {:3} - {}", counter, label, number, title);
        assert_eq!(log_line(counter, number, pr, title), expected);
    }
}
