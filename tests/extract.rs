use pvfilt::parse_progress;

#[test]
fn extract_reads_first_fraction() {
    assert_eq!(parse_progress("12/34 done"), Some((12, 34)));
}

#[test]
fn extract_without_numbers() {
    assert_eq!(parse_progress("no numbers here"), None);
}

#[test]
fn extract_takes_leftmost_match() {
    assert_eq!(parse_progress("step 3/4, file 5/6"), Some((3, 4)));
}

#[test]
fn extract_skips_numbers_without_slash() {
    assert_eq!(parse_progress("123 45/6"), Some((45, 6)));
    assert_eq!(parse_progress("v2 / 3"), None);
    assert_eq!(parse_progress("12/ then 7/"), None);
    assert_eq!(parse_progress("/5"), None);
}

#[test]
fn extract_takes_whole_digit_runs() {
    assert_eq!(parse_progress("a0012/0340b"), Some((12, 340)));
    assert_eq!(parse_progress("1/2/3"), Some((1, 2)));
}

#[test]
fn extract_after_non_ascii_text() {
    assert_eq!(parse_progress("étape 7/8 ✓"), Some((7, 8)));
}

#[test]
fn extract_largest_and_overflowing_numbers() {
    assert_eq!(
        parse_progress("18446744073709551615/1"),
        Some((u64::MAX, 1))
    );
    assert_eq!(parse_progress("18446744073709551616/1"), None);
    assert_eq!(parse_progress("1/99999999999999999999"), None);
}

#[test]
fn extract_empty_text() {
    assert_eq!(parse_progress(""), None);
}
