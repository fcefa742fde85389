use salatui::settings::fuzzy;
use salatui::text::{
    i64_to_string, int_error_message, parse_i32, parse_u32, parse_usize, push_digits, push_int,
    push_two_digits, split, str_eq, trim, trim_by, u64_to_string, IntErrorKind, Strip,
};

#[test]
fn decimal_rendering() {
    assert_eq!(u64_to_string(0), "0");
    assert_eq!(u64_to_string(1234567890), "1234567890");
    assert_eq!(u64_to_string(u64::MAX), "18446744073709551615");
    assert_eq!(i64_to_string(-42), "-42");
    assert_eq!(i64_to_string(i64::MIN), "-9223372036854775808");
    let mut s = String::from("t=");
    push_two_digits(&mut s, 7);
    s.push(':');
    push_two_digits(&mut s, 45);
    assert_eq!(s, "t=07:45");
    let mut t = String::new();
    push_digits(&mut t, 905);
    push_int(&mut t, -3);
    assert_eq!(t, "905-3");
}

#[test]
fn integers_parse_like_str_parse() {
    assert_eq!(parse_i32("15"), Ok(15));
    assert_eq!(parse_i32("+7"), Ok(7));
    assert_eq!(parse_i32("-2147483648"), Ok(i32::MIN));
    assert_eq!(parse_i32("2147483647"), Ok(i32::MAX));
    assert_eq!(parse_i32("2147483648"), Err(IntErrorKind::PosOverflow));
    assert_eq!(parse_i32("-2147483649"), Err(IntErrorKind::NegOverflow));
    assert_eq!(parse_i32(""), Err(IntErrorKind::Empty));
    assert_eq!(parse_i32("-"), Err(IntErrorKind::InvalidDigit));
    assert_eq!(parse_i32("1x"), Err(IntErrorKind::InvalidDigit));
    assert_eq!(parse_i32(" 1"), Err(IntErrorKind::InvalidDigit));
    assert_eq!(parse_u32("-1"), Err(IntErrorKind::InvalidDigit));
    assert_eq!(parse_u32("4294967295"), Ok(u32::MAX));
    assert_eq!(parse_u32("4294967296"), Err(IntErrorKind::PosOverflow));
    assert_eq!(parse_usize("0012"), Ok(12));
    // the same answers as std
    for t in ["", "+", "-", "0", "-0", "99", "1a", "2147483648", "-2147483649", "+-1"] {
        let ours = parse_i32(t).ok();
        let std = t.parse::<i32>().ok();
        assert_eq!(ours, std, "{t:?}");
    }
}

#[test]
fn error_messages_match_std() {
    let kinds = [
        ("", IntErrorKind::Empty),
        ("z", IntErrorKind::InvalidDigit),
        ("99999999999", IntErrorKind::PosOverflow),
        ("-99999999999", IntErrorKind::NegOverflow),
    ];
    for (text, kind) in kinds {
        let std_err = text.parse::<i32>().unwrap_err();
        assert_eq!(int_error_message(kind), std_err.to_string());
    }
}

#[test]
fn trimming_and_splitting() {
    assert_eq!(trim("  a b \t\n"), "a b");
    assert_eq!(trim("   "), "");
    assert_eq!(trim_by(",,Male, ,", Strip::Comma), "Male, ");
    assert_eq!(split("a;b;;c", ';'), vec!["a", "b", "", "c"]);
    assert_eq!(split("", ';'), vec![""]);
    assert_eq!(split("x\n", '\n'), vec!["x", ""]);
    assert!(str_eq("abc", "abc"));
    assert!(!str_eq("abc", "abd"));
    assert!(!str_eq("ab", "abc"));
}

#[test]
fn patterns_match_without_case() {
    // both sides go through str::to_lowercase
    assert!(fuzzy("MaKKah", "mkh"));
    assert!(fuzzy("makkah", "MKH"));
    assert!(fuzzy("École", "éCO"));
    assert!(!fuzzy("Makkah", "hm"));
}

#[test]
fn subsequences_match_in_order() {
    assert!(salatui::settings::subsequence("Makkah", "Mkh"));
    assert!(salatui::settings::subsequence("abc", ""));
    // case matters here: only the fuzzy match lowers both sides
    assert!(!salatui::settings::subsequence("Makkah", "mkh"));
    assert!(!salatui::settings::subsequence("abc", "cb"));
    assert!(!salatui::settings::subsequence("ab", "abc"));
}
