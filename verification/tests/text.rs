use db_visualizer::text::{
    classify_char, contains_char, contains_text, count_classes, is_decimal_digit, starts_with,
    CharClass, ClassCounts,
};

#[test]
fn digits_are_numeric() {
    assert_eq!(classify_char('0'), CharClass::Numeric);
    assert_eq!(classify_char('7'), CharClass::Numeric);
    assert_eq!(classify_char('٣'), CharClass::Numeric);
}

#[test]
fn numbers_that_are_no_decimal_digits_are_not_numeric() {
    assert_eq!(classify_char('¾'), CharClass::Special);
    assert_eq!(classify_char('①'), CharClass::Special);
    assert_eq!(classify_char('²'), CharClass::Special);
    assert_eq!(classify_char('Ⅷ'), CharClass::Alphabetic);
    assert_eq!(classify_char('٣'), CharClass::Numeric);
}

#[test]
fn decimal_digits_come_in_blocks_of_ten() {
    assert!(is_decimal_digit('0'));
    assert!(is_decimal_digit('9'));
    assert!(!is_decimal_digit('/'));
    assert!(!is_decimal_digit(':'));
    assert!(is_decimal_digit('\u{0660}'));
    assert!(is_decimal_digit('\u{0669}'));
    assert!(!is_decimal_digit('\u{065F}'));
    assert!(!is_decimal_digit('\u{066A}'));
    assert!(is_decimal_digit('９'));
    assert!(is_decimal_digit('\u{1D7CE}'));
    assert!(is_decimal_digit('\u{1D7FF}'));
    assert!(!is_decimal_digit('\u{1D7CD}'));
    assert!(is_decimal_digit('\u{1FBF9}'));
    assert!(!is_decimal_digit('\u{1FBFA}'));
    assert!(!is_decimal_digit('a'));
    assert!(!is_decimal_digit('¾'));
    let digits = ('\0'..=char::MAX).filter(|c| is_decimal_digit(*c)).count();
    assert_eq!(digits, 760);
}

#[test]
fn every_decimal_digit_is_a_number() {
    assert!(('\0'..=char::MAX).all(|c| !is_decimal_digit(c) || c.is_numeric()));
}

#[test]
fn letters_are_alphabetic() {
    assert_eq!(classify_char('a'), CharClass::Alphabetic);
    assert_eq!(classify_char('Z'), CharClass::Alphabetic);
    assert_eq!(classify_char('é'), CharClass::Alphabetic);
    assert_eq!(classify_char('京'), CharClass::Alphabetic);
}

#[test]
fn other_characters_are_special() {
    assert_eq!(classify_char(' '), CharClass::Special);
    assert_eq!(classify_char('@'), CharClass::Special);
    assert_eq!(classify_char('.'), CharClass::Special);
    assert_eq!(classify_char('\n'), CharClass::Special);
}

#[test]
fn count_classes_counts_characters_not_bytes() {
    assert_eq!(
        count_classes("né 42!"),
        ClassCounts { numeric: 2, alphabetic: 2, special: 2 }
    );
    assert_eq!(count_classes("a1¾"), ClassCounts { numeric: 1, alphabetic: 1, special: 1 });
    assert_eq!(count_classes(""), ClassCounts { numeric: 0, alphabetic: 0, special: 0 });
}

#[test]
fn count_classes_adds_up_to_the_length() {
    let text = "user@example.com 2024-01-01 ünïcödé";
    let counts = count_classes(text);
    assert_eq!(counts.numeric + counts.alphabetic + counts.special, text.chars().count());
}

#[test]
fn contains_char_finds_a_character() {
    assert!(contains_char("user@example.com", '@'));
    assert!(contains_char("user@example.com", 'm'));
    assert!(!contains_char("user", '@'));
    assert!(!contains_char("", '@'));
}

#[test]
fn starts_with_compares_the_beginning() {
    assert!(starts_with("http://a", "http"));
    assert!(starts_with("http", "http"));
    assert!(starts_with("anything", ""));
    assert!(!starts_with("htt", "http"));
    assert!(!starts_with("xhttp", "http"));
    assert!(!starts_with("", "www"));
}

#[test]
fn contains_text_compares_whole_strings() {
    let list = vec!["Email".to_string(), "URL".to_string()];
    assert!(contains_text(&list, &"URL".to_string()));
    assert!(!contains_text(&list, &"UR".to_string()));
    assert!(!contains_text(&Vec::new(), &"URL".to_string()));
}
