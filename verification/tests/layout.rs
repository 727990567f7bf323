use lemma_mark::{
    centered_start, decimal_string, parenthesized, progress_label, right_edge_start,
};

#[test]
fn decimal_of_single_digits() {
    assert_eq!(decimal_string(0), "0");
    assert_eq!(decimal_string(7), "7");
}

#[test]
fn decimal_of_larger_numbers() {
    assert_eq!(decimal_string(10), "10");
    assert_eq!(decimal_string(42), "42");
    assert_eq!(decimal_string(1234567890), "1234567890");
}

#[test]
fn progress_label_is_one_based() {
    assert_eq!(progress_label(0, 10), "1 / 10");
    assert_eq!(progress_label(9, 10), "10 / 10");
    assert_eq!(progress_label(2, 7), "3 / 7");
}

#[test]
fn parenthesized_wraps_the_sentence() {
    assert_eq!(parenthesized("be kind."), "(be kind.)");
    assert_eq!(parenthesized(""), "()");
}

#[test]
fn centered_start_centres_ascii_text() {
    assert_eq!(centered_start(80, "hello"), 37);
    assert_eq!(centered_start(10, "hello"), 2);
}

#[test]
fn centered_start_counts_wide_characters_as_two_columns() {
    assert_eq!(centered_start(80, "あ"), 39);
}

#[test]
fn centered_start_of_too_wide_text_is_the_left_edge() {
    assert_eq!(centered_start(3, "a longer caption"), 0);
}

#[test]
fn right_edge_start_leaves_one_column() {
    assert_eq!(right_edge_start(80, "abc"), 76);
}

#[test]
fn right_edge_start_of_too_wide_text_is_the_left_edge() {
    assert_eq!(right_edge_start(2, "abc"), 0);
    assert_eq!(right_edge_start(3, "abc"), 0);
}
