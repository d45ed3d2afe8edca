use hexin::text::{
    contains_chars, decimal_string, field_range, find_char, is_space_char, parse_i32_range,
    parse_unsigned_range, to_chars, trim_range,
};

fn chars(s: &str) -> Vec<char> {
    s.chars().collect()
}

#[test]
fn to_chars_lists_the_characters() {
    assert_eq!(to_chars(""), Vec::<char>::new());
    assert_eq!(to_chars("a1,"), vec!['a', '1', ',']);
    assert_eq!(to_chars("默认 x"), vec!['默', '认', ' ', 'x']);
}

#[test]
fn whitespace_is_what_unicode_says() {
    for code in 0u32..=0x10FFFF {
        if let Some(c) = char::from_u32(code) {
            assert_eq!(is_space_char(c), c.is_whitespace(), "U+{:04X}", code);
        }
    }
}

#[test]
fn trim_range_agrees_with_trim() {
    let samples = [
        "", " ", "a", " a", "a ", "  a b  ", "\t\n x \r\n", "\u{a0}x\u{2003}", "   ", "x\u{3000}\u{3000}",
    ];
    for s in samples {
        let v = chars(s);
        let (a, b) = trim_range(&v, 0, v.len());
        let got: String = v[a..b].iter().collect();
        assert_eq!(got, s.trim(), "{:?}", s);
    }
}

#[test]
fn trim_range_stays_within_its_bounds() {
    let v = chars("ab  cd  ef");
    assert_eq!(trim_range(&v, 2, 8), (4, 6));
    assert_eq!(trim_range(&v, 2, 4), (4, 4));
    assert_eq!(trim_range(&v, 3, 3), (3, 3));
}

#[test]
fn find_char_gives_the_first_occurrence() {
    let v = chars("a-b-c");
    assert_eq!(find_char(&v, 0, 5, '-'), 1);
    assert_eq!(find_char(&v, 2, 5, '-'), 3);
    assert_eq!(find_char(&v, 4, 5, '-'), 5);
    assert_eq!(find_char(&v, 0, 1, '-'), 1);
    assert_eq!(find_char(&v, 0, 0, '-'), 0);
}

#[test]
fn unsigned_numbers_parse_as_in_std() {
    let samples = [
        "0", "7", "42", "007", "+5", "+", "", "-5", "5-", " 5", "5 ", "1e3", "0x10", "١٢",
        "4294967295", "4294967296", "18446744073709551615", "18446744073709551616",
        "99999999999999999999999999", "++1", "+-1",
    ];
    for s in samples {
        let v = chars(s);
        assert_eq!(parse_unsigned_range(&v, 0, v.len(), u64::MAX), s.parse::<u64>().ok(), "{:?}", s);
        assert_eq!(
            parse_unsigned_range(&v, 0, v.len(), u32::MAX as u64),
            s.parse::<u32>().ok().map(|n| n as u64),
            "{:?}",
            s
        );
    }
}

#[test]
fn unsigned_number_within_a_range_of_the_text() {
    let v = chars("ab123cd");
    assert_eq!(parse_unsigned_range(&v, 2, 5, u64::MAX), Some(123));
    assert_eq!(parse_unsigned_range(&v, 2, 4, u64::MAX), Some(12));
    assert_eq!(parse_unsigned_range(&v, 1, 5, u64::MAX), None);
    assert_eq!(parse_unsigned_range(&v, 3, 3, u64::MAX), None);
    assert_eq!(parse_unsigned_range(&v, 2, 5, 122), None);
    assert_eq!(parse_unsigned_range(&v, 2, 5, 123), Some(123));
}

#[test]
fn signed_numbers_parse_as_in_std() {
    let samples = [
        "0", "-0", "+0", "19", "-20", "+7", "-", "+", "", "--1", "-+1", "2147483647", "2147483648",
        "-2147483648", "-2147483649", "1.0", " 1", "99999999999999999999", "-99999999999999999999",
    ];
    for s in samples {
        let v = chars(s);
        assert_eq!(parse_i32_range(&v, 0, v.len()), s.parse::<i32>().ok(), "{:?}", s);
    }
}

#[test]
fn contains_chars_agrees_with_contains() {
    let hays = ["", "a", "firefox", "abcabc", "aaa", "systemd --user"];
    let needles = ["", "a", "fox", "abc", "bca", "aaaa", "x", "--", "d -", "firefoxx"];
    for h in hays {
        for n in needles {
            assert_eq!(contains_chars(&chars(h), &chars(n)), h.contains(n), "{:?} in {:?}", n, h);
        }
    }
}

#[test]
fn decimal_string_agrees_with_to_string() {
    let samples = [0u64, 1, 9, 10, 11, 99, 100, 101, 12345, 4294967295, u64::MAX];
    for n in samples {
        assert_eq!(decimal_string(n), n.to_string());
    }
    for n in 0u64..2000 {
        assert_eq!(decimal_string(n), n.to_string());
    }
}

#[test]
fn field_range_agrees_with_split_whitespace() {
    let samples = ["", "  ", "a", " a b  c ", "1 (name) S 0 -5\t19\n", "x\u{a0}y"];
    for s in samples {
        let v = chars(s);
        let fields: Vec<&str> = s.split_whitespace().collect();
        for n in 0..fields.len() + 2 {
            let got = field_range(&v, n).map(|(a, b)| v[a..b].iter().collect::<String>());
            assert_eq!(got, fields.get(n).map(|f| f.to_string()), "{:?} field {}", s, n);
        }
    }
}
