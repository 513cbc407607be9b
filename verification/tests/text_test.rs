use ised::text::{
    blank, chars_of, decimal_digits, find, is_whitespace, lines, replace, split, string_of, trimmed,
};

fn chars(s: &str) -> Vec<char> {
    s.chars().collect()
}

#[test]
fn chars_round_trip() {
    let v = chars_of("héllo");
    assert_eq!(v.len(), 5);
    assert_eq!(string_of(&v), "héllo");
    assert_eq!(string_of(&chars_of("")), "");
}

#[test]
fn white_space_is_what_the_standard_library_says() {
    for n in 0..=0x10FFFFu32 {
        if let Some(c) = char::from_u32(n) {
            assert_eq!(is_whitespace(c), c.is_whitespace(), "U+{:04X}", n);
        }
    }
}

#[test]
fn trimming_is_what_the_standard_library_does() {
    for s in ["", " ", "a", "  a b  ", "\t\n x\u{a0}\u{3000}", "x  ", "  x", "\u{2003}"] {
        assert_eq!(string_of(&trimmed(&chars(s))), s.trim(), "trim of {:?}", s);
        assert_eq!(blank(&chars(s)), s.trim().is_empty(), "blank {:?}", s);
    }
}

#[test]
fn splitting_is_what_the_standard_library_does() {
    for s in ["", ",", "a", "a,b", ",a,,b,", "a,b,c,,"] {
        let ours: Vec<String> = split(&chars(s), ',').iter().map(string_of).collect();
        let theirs: Vec<String> = s.split(',').map(|p| p.to_string()).collect();
        assert_eq!(ours, theirs, "split of {:?}", s);
    }
}

#[test]
fn lines_are_what_the_standard_library_says() {
    for s in ["", "\n", "a\nb", "a\nb\n", "a\r\nb\r\n", "a\r", "\r\n\r\n", "a\n\n\nb", "a\r\r\n"] {
        let ours: Vec<String> = lines(&chars(s)).iter().map(string_of).collect();
        let theirs: Vec<String> = s.lines().map(|p| p.to_string()).collect();
        assert_eq!(ours, theirs, "lines of {:?}", s);
    }
}

#[test]
fn find_gives_the_first_position_in_characters() {
    assert_eq!(find(&chars("abcabc"), &chars("bc")), Some(1));
    assert_eq!(find(&chars("ééabc"), &chars("abc")), Some(2));
    assert_eq!(find(&chars("abc"), &chars("")), Some(0));
    assert_eq!(find(&chars(""), &chars("")), Some(0));
    assert_eq!(find(&chars("abc"), &chars("abcd")), None);
    assert_eq!(find(&chars("abc"), &chars("x")), None);
    assert_eq!(find(&chars("aab"), &chars("ab")), Some(1));
}

#[test]
fn replacing_is_what_the_standard_library_does() {
    let cases = [
        ("a$1b$1", "$1", "X"),
        ("aaa", "aa", "b"),
        ("abc", "abc", ""),
        ("abc", "x", "y"),
        ("", "x", "y"),
        ("$1$10$1", "$1", "<$1>"),
        ("ababab", "ab", "ba"),
    ];
    for (s, from, to) in cases {
        let ours = string_of(&replace(&chars(s), &chars(from), &chars(to)));
        assert_eq!(ours, s.replace(from, to), "replace in {:?}", s);
    }
    // An empty text to look for occurs nowhere.
    assert_eq!(string_of(&replace(&chars("abc"), &chars(""), &chars("x"))), "abc");
}

#[test]
fn decimal_digits_of_numbers() {
    for n in [0usize, 1, 9, 10, 11, 99, 100, 12345, usize::MAX] {
        assert_eq!(string_of(&decimal_digits(n)), n.to_string());
    }
}
