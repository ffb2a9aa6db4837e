use github_bot::text::{decimal_string, parse_decimal, same_text, split_words};

#[test]
fn decimal_round_trips() {
    assert_eq!(decimal_string(0), "0");
    assert_eq!(decimal_string(558781383), "558781383");
    assert_eq!(decimal_string(usize::MAX), usize::MAX.to_string());
    assert_eq!(parse_decimal("558781383"), Some(558781383));
    assert_eq!(parse_decimal("007"), Some(7));
    assert_eq!(parse_decimal(&usize::MAX.to_string()), Some(usize::MAX));
    assert_eq!(parse_decimal("18446744073709551616"), None);
    assert_eq!(parse_decimal(""), None);
    assert_eq!(parse_decimal("+1"), None);
    assert_eq!(parse_decimal("1a"), None);
}

#[test]
fn words_of_a_line() {
    assert_eq!(split_words(" a  bc\td\n"), vec!["a", "bc", "d"]);
    assert_eq!(split_words(""), Vec::<String>::new());
    assert_eq!(split_words("   "), Vec::<String>::new());
    assert_eq!(split_words("überall ok"), vec!["überall", "ok"]);
}

#[test]
fn same_text_compares_characters() {
    assert!(same_text("issue", "issue"));
    assert!(!same_text("issue", "issues"));
    assert!(!same_text("Issue", "issue"));
    assert!(same_text("", ""));
}
