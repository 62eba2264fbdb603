use auto_bencher::text::{
    find, i32_to_string, parse_number, parse_usize, same_text, to_chars, u128_to_string,
    u64_to_string, usize_to_string,
};

fn chars(text: &str) -> Vec<char> {
    text.chars().collect()
}

#[test]
fn numbers_in_decimal() {
    assert_eq!(usize_to_string(0), "0");
    assert_eq!(usize_to_string(7), "7");
    assert_eq!(usize_to_string(10), "10");
    assert_eq!(usize_to_string(30001), "30001");
    assert_eq!(u64_to_string(u64::MAX), "18446744073709551615");
    assert_eq!(u128_to_string(u128::MAX), "340282366920938463463374607431768211455");
    assert_eq!(i32_to_string(0), "0");
    assert_eq!(i32_to_string(127), "127");
    assert_eq!(i32_to_string(-1), "-1");
    assert_eq!(i32_to_string(i32::MAX), "2147483647");
    assert_eq!(i32_to_string(i32::MIN), "-2147483648");
}

#[test]
fn characters_of_a_text() {
    assert_eq!(to_chars(""), Vec::<char>::new());
    assert_eq!(to_chars("a\u{e9}b"), vec!['a', '\u{e9}', 'b']);
}

#[test]
fn texts_are_compared_by_their_characters() {
    assert!(same_text("auto_bencher", "auto_bencher"));
    assert!(!same_text("auto_bencher", "auto_bencher "));
    assert!(same_text("", ""));
    assert!(!same_text("a", "b"));
}

#[test]
fn the_first_place_is_found() {
    assert_eq!(find(&chars("xxTOTALyyTOTAL"), &chars("TOTAL"), 0), Some(2));
    assert_eq!(find(&chars("xxTOTALyyTOTAL"), &chars("TOTAL"), 3), Some(9));
    assert_eq!(find(&chars("xxTOTALyyTOTAL"), &chars("TOTAL"), 10), None);
    assert_eq!(find(&chars("abc"), &chars("abcd"), 0), None);
    assert_eq!(find(&chars("abc"), &chars(""), 0), Some(0));
    assert_eq!(find(&chars("abc"), &chars(""), 3), Some(3));
    assert_eq!(find(&chars("abc"), &chars(""), 4), None);
    assert_eq!(find(&chars("aab"), &chars("ab"), 0), Some(1));
    assert_eq!(find(&chars(""), &chars("a"), 0), None);
}

#[test]
fn digits_are_read_as_a_number() {
    let text = chars("ab1234cd");
    assert_eq!(parse_number(&text, 2, 6, u32::MAX as u64), Some(1234));
    assert_eq!(parse_number(&text, 2, 2, u32::MAX as u64), None);
    assert_eq!(parse_number(&text, 1, 6, u32::MAX as u64), None);
    assert_eq!(parse_number(&text, 2, 7, u32::MAX as u64), None);
    assert_eq!(parse_number(&chars("0007"), 0, 4, 10), Some(7));
    assert_eq!(parse_number(&chars("4294967295"), 0, 10, u32::MAX as u64), Some(4294967295));
    assert_eq!(parse_number(&chars("4294967296"), 0, 10, u32::MAX as u64), None);
    assert_eq!(parse_number(&chars("99999999999999999999999"), 0, 23, u64::MAX), None);
    assert_eq!(parse_number(&chars("18446744073709551615"), 0, 20, u64::MAX), Some(u64::MAX));
    assert_eq!(parse_number(&chars("18446744073709551616"), 0, 20, u64::MAX), None);
    assert_eq!(parse_number(&chars("+5"), 0, 2, 100), None);
    assert_eq!(parse_number(&chars("5"), 0, 1, 4), None);
    assert_eq!(parse_number(&chars("0"), 0, 1, 0), Some(0));
}

#[test]
fn counts_may_have_a_plus() {
    assert_eq!(parse_usize("12"), Some(12));
    assert_eq!(parse_usize("+12"), Some(12));
    assert_eq!(parse_usize("0"), Some(0));
    assert_eq!(parse_usize(""), None);
    assert_eq!(parse_usize("+"), None);
    assert_eq!(parse_usize("++1"), None);
    assert_eq!(parse_usize("-1"), None);
    assert_eq!(parse_usize(" 1"), None);
    assert_eq!(parse_usize("1 "), None);
    assert_eq!(parse_usize("1.5"), None);
    assert_eq!(parse_usize(&usize::MAX.to_string()), Some(usize::MAX));
    assert_eq!(parse_usize("340282366920938463463374607431768211455"), None);
    // as the standard library reads it
    for text in ["12", "+12", "", "+", "-1", " 1", "007", "1e3"] {
        assert_eq!(parse_usize(text), text.parse::<usize>().ok());
    }
}
