use lines::text::{decimal_width, push_decimal, push_zero_padded, same_text};

#[test]
fn texts_are_the_same_when_their_characters_are() {
    assert!(same_text("", ""));
    assert!(same_text("quit", "quit"));
    assert!(same_text("gr\u{fc}n", "gr\u{fc}n"));
    assert!(!same_text("quit", "quiT"));
    assert!(!same_text("quit", "qui"));
    assert!(!same_text("", " "));
    assert!(!same_text("gr\u{fc}n", "gru\u{308}n"));
}

#[test]
fn numbers_have_as_many_digits_as_they_need() {
    assert_eq!(decimal_width(0), 1);
    assert_eq!(decimal_width(9), 1);
    assert_eq!(decimal_width(10), 2);
    assert_eq!(decimal_width(2024), 4);
    assert_eq!(decimal_width(u64::MAX), 20);
}

#[test]
fn numbers_are_written_in_decimal() {
    let mut out = String::from("n=");
    push_decimal(&mut out, 0);
    push_decimal(&mut out, 907);
    push_decimal(&mut out, u64::MAX);
    assert_eq!(out, "n=090718446744073709551615");
}

#[test]
fn short_numbers_are_padded_with_zeros() {
    let mut out = String::new();
    push_zero_padded(&mut out, 7, 2);
    out.push(' ');
    push_zero_padded(&mut out, 42, 4);
    out.push(' ');
    push_zero_padded(&mut out, 0, 3);
    assert_eq!(out, "07 0042 000");
}

#[test]
fn long_numbers_are_not_cut_to_the_width() {
    let mut out = String::new();
    push_zero_padded(&mut out, 12_345, 4);
    out.push(' ');
    push_zero_padded(&mut out, 5, 0);
    out.push(' ');
    push_zero_padded(&mut out, 0, 0);
    assert_eq!(out, "12345 5 0");
}
