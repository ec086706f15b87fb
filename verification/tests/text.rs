use creative_report::text::{
    chars_of, decimal, join_lines, push_decimal, push_natural, replace_all, replace_chars,
    same_text, string_of,
};

#[test]
fn chars_and_back() {
    let text = "Oświadczenie — 100%";
    let chars = chars_of(text);
    assert_eq!(chars.len(), 19);
    assert_eq!(chars[1], 'ś');
    assert_eq!(string_of(&chars), text);
    assert_eq!(chars_of(""), Vec::<char>::new());
    assert_eq!(string_of(&Vec::new()), "");
}

#[test]
fn same_text_compares_characters() {
    assert!(same_text("Opened", "Opened"));
    assert!(!same_text("Opened", "opened"));
    assert!(!same_text("Opened", "Opene"));
    assert!(!same_text("Opened", "Openedd"));
    assert!(same_text("", ""));
    assert!(!same_text("", "a"));
}

#[test]
fn decimal_of_small_and_large_numbers() {
    assert_eq!(decimal(0), "0");
    assert_eq!(decimal(7), "7");
    assert_eq!(decimal(10), "10");
    assert_eq!(decimal(42), "42");
    assert_eq!(decimal(1000), "1000");
    assert_eq!(decimal(-5), "-5");
    assert_eq!(decimal(-120), "-120");
    assert_eq!(decimal(i64::MAX), "9223372036854775807");
    assert_eq!(decimal(i64::MIN), "-9223372036854775808");
    assert_eq!(decimal(i32::MIN as i64), "-2147483648");
}

#[test]
fn push_decimal_appends() {
    let mut out = String::from("n=");
    push_decimal(&mut out, -17);
    assert_eq!(out, "n=-17");
    push_natural(&mut out, 0);
    assert_eq!(out, "n=-170");
    push_natural(&mut out, u64::MAX);
    assert_eq!(out, "n=-17018446744073709551615");
}

#[test]
fn replace_all_replaces_each_occurrence() {
    assert_eq!(replace_all("a|b|c", "|", "\\|"), "a\\|b\\|c");
    assert_eq!(replace_all("{x} and {x}", "{x}", "1"), "1 and 1");
    assert_eq!(replace_all("abc", "abc", ""), "");
    assert_eq!(replace_all("abc", "b", ""), "ac");
    assert_eq!(replace_all("abc", "d", "e"), "abc");
    assert_eq!(replace_all("", "d", "e"), "");
}

#[test]
fn replace_all_takes_occurrences_from_the_left_without_overlap() {
    assert_eq!(replace_all("aaa", "aa", "b"), "ba");
    assert_eq!(replace_all("aaaa", "aa", "b"), "bb");
    assert_eq!(replace_all("ababa", "aba", "x"), "xba");
}

#[test]
fn replace_all_does_not_look_into_what_it_put_in() {
    assert_eq!(replace_all("a", "a", "aa"), "aa");
    assert_eq!(replace_all("ab", "b", "bb"), "abb");
}

#[test]
fn replace_all_with_a_token_longer_than_the_text() {
    assert_eq!(replace_all("ab", "abc", "x"), "ab");
}

#[test]
fn replace_all_with_an_empty_token_changes_nothing() {
    assert_eq!(replace_all("abc", "", "x"), "abc");
    assert_eq!(replace_all("", "", "x"), "");
}

#[test]
fn replace_all_agrees_with_the_standard_library() {
    let texts = ["", "a", "{prs}", "x{prs}y{prs}", "{pr{prs}s}", "{{prs}}", "{prs", "prs}"];
    for text in texts {
        for value in ["", "v", "{prs}", "| 1 |\n| 2 |"] {
            assert_eq!(replace_all(text, "{prs}", value), text.replace("{prs}", value));
        }
    }
}

#[test]
fn replace_chars_works_on_characters() {
    let text: Vec<char> = "żółw|żółw".chars().collect();
    let token: Vec<char> = "|".chars().collect();
    let value: Vec<char> = "\\|".chars().collect();
    let expected: Vec<char> = "żółw\\|żółw".chars().collect();
    assert_eq!(replace_chars(&text, &token, &value), expected);
}

#[test]
fn join_lines_puts_the_separator_between() {
    assert_eq!(join_lines(&vec![], "\n"), "");
    assert_eq!(join_lines(&vec!["a".to_string()], "\n"), "a");
    assert_eq!(join_lines(&vec!["a".to_string(), "b".to_string()], "\n"), "a\nb");
    assert_eq!(
        join_lines(&vec!["a".to_string(), "".to_string(), "c".to_string()], ", "),
        "a, , c"
    );
}
