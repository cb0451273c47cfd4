use dispo::text::{
    capitalize, contains_str, ends_with, parse_u64, parse_u8, parse_unsigned_upto, starts_with, str_eq,
    to_decimal, IntErrorKind,
};

#[test]
fn decimal_of_numbers() {
    assert_eq!(to_decimal(0), "0");
    assert_eq!(to_decimal(7), "7");
    assert_eq!(to_decimal(10), "10");
    assert_eq!(to_decimal(920880917566861332), "920880917566861332");
    assert_eq!(to_decimal(u64::MAX as u128), "18446744073709551615");
}

#[test]
fn parse_accepts_digits_and_plus() {
    assert_eq!(parse_u64("42"), Ok(42));
    assert_eq!(parse_u64("+42"), Ok(42));
    assert_eq!(parse_u64("007"), Ok(7));
    assert_eq!(parse_u64("18446744073709551615"), Ok(u64::MAX));
    assert_eq!(parse_u8("255"), Ok(255));
}

#[test]
fn parse_errors_match_std() {
    for s in ["", "+", "-", "-1", "1a", "a1", " 1", "1 ", "18446744073709551616", "99999999999999999999x", "٣"] {
        let std_kind = s.parse::<u64>().map_err(|e| e.to_string());
        let ours = parse_u64(s).map_err(|k| k.message());
        assert_eq!(ours, std_kind, "input {:?}", s);
    }
    for s in ["256", "10", "0", "+", "x", ""] {
        let std_kind = s.parse::<u8>().map_err(|e| e.to_string());
        let ours = parse_u8(s).map_err(|k| k.message());
        assert_eq!(ours, std_kind, "input {:?}", s);
    }
    assert_eq!(parse_u64(""), Err(IntErrorKind::Empty));
    assert_eq!(parse_u64("+"), Err(IntErrorKind::InvalidDigit));
    assert_eq!(parse_u64("18446744073709551616"), Err(IntErrorKind::PosOverflow));
    assert_eq!(parse_unsigned_upto("11", 10), Err(IntErrorKind::PosOverflow));
}

#[test]
fn decimal_reads_back() {
    for n in [0u64, 1, 9, 10, 99, 12345, u64::MAX] {
        assert_eq!(parse_u64(&to_decimal(n as u128)), Ok(n));
    }
}

#[test]
fn comparisons() {
    assert!(str_eq("enter", "enter"));
    assert!(!str_eq("enter", "Enter"));
    assert!(starts_with("data: 12", "data:"));
    assert!(!starts_with("dat", "data:"));
    assert!(ends_with("mod.rs", "mod.rs"));
    assert!(ends_with("hc.rs", ".rs"));
    assert!(!ends_with("hc.rs", "mod.rs"));
    assert!(contains_str("cricket", "ick"));
    assert!(contains_str("abc", ""));
    assert!(!contains_str("pong", "ping"));
}

#[test]
fn capitalize_first_letter() {
    assert_eq!(capitalize("strikeRate"), "StrikeRate");
    assert_eq!(capitalize("xp"), "Xp");
    assert_eq!(capitalize(""), "");
    assert_eq!(capitalize("ßeta"), "SSeta");
    assert_eq!(capitalize("1st"), "1st");
}

#[test]
fn capitalizing_twice_changes_nothing() {
    for s in ["strikeRate", "xp", "", "1st", "Runs", "a\u{e9}b"] {
        let once = capitalize(s);
        assert_eq!(capitalize(&once), once);
        assert_eq!(once.len(), s.len());
    }
}

#[test]
fn byte_count_counts_bytes() {
    assert_eq!(dispo::text::byte_count(""), 0);
    assert_eq!(dispo::text::byte_count("abc"), 3);
    assert_eq!(dispo::text::byte_count("é€"), 5);
}
