use jotabot::text::{
    chars_of, contains_in, push_decimal, push_mention, some_line_contains, split_duration,
};

#[test]
fn decimal_of_numbers() {
    let mut s = String::new();
    push_decimal(&mut s, 0);
    assert_eq!(s, "0");
    let mut s = String::from("x=");
    push_decimal(&mut s, 1234567890123);
    assert_eq!(s, "x=1234567890123");
    let mut s = String::new();
    push_decimal(&mut s, u64::MAX);
    assert_eq!(s, u64::MAX.to_string());
}

#[test]
fn mention_of_user() {
    let mut s = String::new();
    push_mention(&mut s, 123456789012345678);
    assert_eq!(s, "<@123456789012345678>");
}

#[test]
fn duration_parts_add_up() {
    assert_eq!(split_duration(3725), (1, 2, 5));
    assert_eq!(split_duration(59), (0, 0, 59));
    assert_eq!(split_duration(86399), (23, 59, 59));
    for secs in [0u64, 1, 60, 3599, 3600, 3601, 123456] {
        let (h, m, s) = split_duration(secs);
        assert_eq!(h * 3600 + m * 60 + s, secs);
        assert!(m < 60 && s < 60);
    }
}

#[test]
fn chars_of_text() {
    assert_eq!(chars_of("ação"), vec!['a', 'ç', 'ã', 'o']);
}

#[test]
fn substring_search() {
    let hay = chars_of("hello world");
    assert!(contains_in(&hay, 0, hay.len(), &chars_of("o w")));
    assert!(!contains_in(&hay, 0, 5, &chars_of("world")));
    assert!(contains_in(&hay, 6, 11, &chars_of("world")));
    assert!(contains_in(&hay, 3, 3, &chars_of("")));
    assert!(!contains_in(&hay, 0, 2, &chars_of("hel")));
}

#[test]
fn line_search_follows_str_lines() {
    let t = |text: &str, needle: &str| some_line_contains(&chars_of(text), &chars_of(needle));
    for (text, needle) in [
        ("1 java -jar craftbukkit-1.21.jar\n", "craftbukkit-1.21.jar"),
        ("a\r\nb\n", "a\r"),
        ("a\rb", "a\rb"),
        ("one\ntwo\nthree", "o\nt"),
        ("", ""),
        ("\n", ""),
        ("x\n", ""),
        ("abc\r\n", "c"),
        ("abc\r", "c\r"),
    ] {
        let expected = text.lines().any(|line| line.contains(needle));
        assert_eq!(t(text, needle), expected, "{:?} {:?}", text, needle);
    }
}
