use repo_deleter::selection::parse_selection;
use repo_deleter::text::{parse_usize, trim_blanks, usize_to_string};

#[test]
fn mixed_singles_and_range() {
    assert_eq!(parse_selection("1,3-5,7", 10), vec![0, 2, 3, 4, 6]);
}

#[test]
fn zero_is_dropped() {
    assert_eq!(parse_selection("0", 10), Vec::<usize>::new());
    assert_eq!(parse_selection("0,2", 10), vec![1]);
}

#[test]
fn out_of_range_is_dropped() {
    assert_eq!(parse_selection("11", 10), Vec::<usize>::new());
    assert_eq!(parse_selection("10,11", 10), vec![9]);
}

#[test]
fn duplicates_collapse() {
    assert_eq!(parse_selection("2,2,2", 10), vec![1]);
    assert_eq!(parse_selection("1-3,2-4", 10), vec![0, 1, 2, 3]);
}

#[test]
fn empty_input_selects_nothing() {
    assert_eq!(parse_selection("", 10), Vec::<usize>::new());
    assert_eq!(parse_selection("   ", 10), Vec::<usize>::new());
}

#[test]
fn whitespace_around_tokens_is_ignored() {
    assert_eq!(parse_selection(" 1 , 3 - 5 , 7 ", 10), vec![0, 2, 3, 4, 6]);
}

#[test]
fn range_with_zero_endpoint_is_dropped_whole() {
    assert_eq!(parse_selection("0-3", 10), Vec::<usize>::new());
    assert_eq!(parse_selection("3-0", 10), Vec::<usize>::new());
}

#[test]
fn reversed_range_selects_nothing() {
    assert_eq!(parse_selection("5-3", 10), Vec::<usize>::new());
}

#[test]
fn range_clipped_to_length() {
    assert_eq!(parse_selection("8-15", 10), vec![7, 8, 9]);
}

#[test]
fn malformed_tokens_are_skipped() {
    assert_eq!(parse_selection("a,2,3x,4", 10), vec![1, 3]);
    assert_eq!(parse_selection("1-2-3,5", 10), vec![4]);
    assert_eq!(parse_selection("-3,2", 10), vec![1]);
    assert_eq!(parse_selection("+3,2", 10), vec![1]);
}

#[test]
fn huge_numbers_are_skipped() {
    assert_eq!(
        parse_selection("99999999999999999999999999, 2", 10),
        vec![1]
    );
}

#[test]
fn selection_on_empty_list() {
    assert_eq!(parse_selection("1,2-4", 0), Vec::<usize>::new());
}

#[test]
fn parse_usize_accepts_digits_only() {
    assert_eq!(parse_usize("0"), Some(0));
    assert_eq!(parse_usize("007"), Some(7));
    assert_eq!(parse_usize("18446744073709551615"), Some(usize::MAX));
    assert_eq!(parse_usize("18446744073709551616"), None);
    assert_eq!(parse_usize(""), None);
    assert_eq!(parse_usize("+3"), None);
    assert_eq!(parse_usize("1 2"), None);
}

#[test]
fn trim_blanks_strips_both_ends() {
    assert_eq!(trim_blanks("  a b\t\r\n"), "a b");
    assert_eq!(trim_blanks(""), "");
    assert_eq!(trim_blanks(" \t "), "");
    assert_eq!(trim_blanks("x"), "x");
}

#[test]
fn decimal_rendering() {
    assert_eq!(usize_to_string(0), "0");
    assert_eq!(usize_to_string(7), "7");
    assert_eq!(usize_to_string(10), "10");
    assert_eq!(usize_to_string(237), "237");
    assert_eq!(usize_to_string(18446744073709551615), "18446744073709551615");
}
