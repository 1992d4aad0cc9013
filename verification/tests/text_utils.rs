use oabctl::text::{
    bool_string, contains_text, decimal_text, find_char_from, pad_right, starts_with_text, text_eq,
};

#[test]
fn decimal_of_integers() {
    assert_eq!(decimal_text(0), "0");
    assert_eq!(decimal_text(256), "256");
    assert_eq!(decimal_text(-42), "-42");
    assert_eq!(decimal_text(i64::MAX), i64::MAX.to_string());
    assert_eq!(decimal_text(i64::MIN), i64::MIN.to_string());
    assert_eq!(decimal_text(i32::MIN as i64), "-2147483648");
}

#[test]
fn booleans() {
    assert_eq!(bool_string(true), "true");
    assert_eq!(bool_string(false), "false");
}

#[test]
fn padding_matches_format_width() {
    assert_eq!(pad_right("kiro", 8), format!("{:<8}", "kiro"));
    assert_eq!(pad_right("much-too-long", 4), "much-too-long");
    assert_eq!(pad_right("", 3), "   ");
    assert_eq!(pad_right("\u{e9}t\u{e9}", 5), format!("{:<5}", "\u{e9}t\u{e9}"));
}

#[test]
fn searching() {
    assert!(text_eq("abc", "abc"));
    assert!(!text_eq("abc", "abd"));
    assert!(starts_with_text("oab-prod-x", "oab-"));
    assert!(!starts_with_text("oa", "oab-"));
    assert!(contains_text("arn:aws:ecs:us-east-1:1:service/default/oab-prod-a", "/oab-"));
    assert!(!contains_text("arn:aws:ecs:us-east-1:1:service/default/web", "/oab-"));
    assert!(contains_text("x", ""));
    assert_eq!(find_char_from("oab-prod-a", '-', 0), Some(3));
    assert_eq!(find_char_from("oab-prod-a", '-', 4), Some(8));
    assert_eq!(find_char_from("oab-prod-a", '-', 9), None);
}
