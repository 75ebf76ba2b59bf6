use raptor::text::{
    append_chars, chars_of, equals_lowercased, push_decimal, range_equals, trim_bounds,
};

#[test]
fn appends_characters_to_a_string() {
    let mut out = String::from("ab");
    append_chars(&mut out, &vec!['c', '\u{e9}', '\n']);
    assert_eq!(out, "abc\u{e9}\n");
    append_chars(&mut out, &Vec::new());
    assert_eq!(out, "abc\u{e9}\n");
}

#[test]
fn compares_a_range_with_a_text() {
    let line = chars_of("  bob ");
    assert!(range_equals(&line, 2, 5, &chars_of("bob")));
    assert!(!range_equals(&line, 2, 5, &chars_of("bog")));
    assert!(!range_equals(&line, 1, 5, &chars_of("bob")));
    assert!(!range_equals(&line, 2, 5, &chars_of("bobo")));
    assert!(range_equals(&line, 3, 3, &chars_of("")));
    assert!(range_equals(&line, 0, 6, &line));
}

#[test]
fn trim_bounds_of_blank_and_plain_texts() {
    assert_eq!(trim_bounds(&chars_of("")), (0, 0));
    assert_eq!(trim_bounds(&chars_of("bob")), (0, 3));
    assert_eq!(trim_bounds(&chars_of("  bob\t")), (2, 5));
    let (start, end) = trim_bounds(&chars_of(" \t\r\n"));
    assert_eq!(start, end);
}

#[test]
fn compares_without_regard_to_ascii_case() {
    let word = chars_of("sha256");
    assert!(equals_lowercased(&chars_of("sha256"), &word));
    assert!(equals_lowercased(&chars_of("SHA256"), &word));
    assert!(equals_lowercased(&chars_of("sHa256"), &word));
    assert!(!equals_lowercased(&chars_of("sha25"), &word));
    assert!(!equals_lowercased(&chars_of("sha2566"), &word));
    assert!(!equals_lowercased(&chars_of("sha257"), &word));
    // only the text is folded, and only its ASCII letters
    assert!(!equals_lowercased(&chars_of("sha"), &chars_of("SHA")));
    assert!(!equals_lowercased(&chars_of("\u{c9}"), &chars_of("\u{e9}")));
    assert!(equals_lowercased(&chars_of("\u{e9}"), &chars_of("\u{e9}")));
    assert!(!equals_lowercased(&chars_of("@[`{"), &chars_of("`{`{")));
    assert!(equals_lowercased(&chars_of("AZ@["), &chars_of("az@[")));
}

#[test]
fn writes_numbers_in_decimal() {
    for n in [0usize, 1, 9, 10, 11, 99, 100, 101, 128, 1000, 65535, 1234567890, usize::MAX] {
        let mut out = String::from("n=");
        push_decimal(&mut out, n);
        assert_eq!(out, format!("n={}", n));
    }
}
