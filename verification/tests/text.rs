use chrono::TimeZone;
use stasis::calendar::{midnight_of, midnight_today_ms, start_of_day, unsigned_ms};
use stasis::path::FilePath;
use stasis::text::{
    contains_char, decimal_text, nonblank_lines, same_text, starts_with, strip_prefix,
    to_ascii_lowercase, trim, trim_start, whitespace,
};

#[test]
fn whitespace_is_that_of_std() {
    for n in 0..0x11_0000u32 {
        if let Some(c) = char::from_u32(n) {
            assert_eq!(whitespace(c), c.is_whitespace(), "{n:x}");
        }
    }
}

#[test]
fn trimming_is_that_of_std() {
    for s in ["", " ", " \t\n", "a", " a", "a ", " a b\u{3000}", "\u{85}é\u{a0}", "\r\nx\r\n"] {
        assert_eq!(trim(s), s.trim());
        assert_eq!(trim_start(s), s.trim_start());
    }
}

#[test]
fn prefixes() {
    assert!(starts_with("card0", "card"));
    assert!(!starts_with("car", "card"));
    assert!(starts_with("é", ""));
    assert_eq!(strip_prefix("dump 5", "dump"), Some(" 5"));
    assert_eq!(strip_prefix("dum", "dump"), None);
    assert!(same_text("é", "é"));
    assert!(!same_text("e", "é"));
}

#[test]
fn characters() {
    assert!(contains_char("card0-DP-1", '-'));
    assert!(!contains_char("card0", '-'));
    assert_eq!(to_ascii_lowercase("0X03ÄZ@["), "0x03Äz@[");
}

#[test]
fn decimal_numbers() {
    for n in [0, 9, 10, 99, 100, 12_345, u64::MAX] {
        assert_eq!(decimal_text(n), n.to_string());
    }
}

#[test]
fn lines_are_those_of_std() {
    for s in ["", "\n", "a", "a\n", "a\r\nb", "\r", "a\n\n b \n", "a\r\r\nb\r"] {
        let expected: Vec<&str> = s.lines().map(str::trim).filter(|l| !l.is_empty()).collect();
        assert_eq!(nonblank_lines(s), expected);
    }
}

#[test]
fn joining_is_that_of_std() {
    for base in ["", "/", "/a", "/a/", "a"] {
        for part in ["", "b", "b/c", "/d"] {
            let expected = std::path::Path::new(base).join(part);
            let joined = FilePath::from_text(base).join(part);
            assert_eq!(joined.bytes, expected.to_str().unwrap().as_bytes());
        }
    }
}

#[test]
fn trimming_twice_changes_nothing_more() {
    let once = trim(" \t a b \u{2028}");
    assert_eq!(once, "a b");
    assert_eq!(trim(once), once);
}

#[test]
fn midnight_is_that_of_the_local_calendar() {
    let now = chrono::Local::now();
    let midnight = now.date_naive().and_time(chrono::NaiveTime::MIN);
    let expected = now.timezone().from_local_datetime(&midnight).single();
    assert_eq!(midnight_today_ms(), expected.map(|t| t.timestamp_millis() as u64));
}

#[test]
fn midnight_of_a_date_is_that_of_the_local_calendar() {
    for (year, month, day) in [(2024, 2, 29), (2023, 6, 15), (1970, 1, 2), (1969, 12, 30)] {
        let expected = chrono::Local.with_ymd_and_hms(year, month, day, 0, 0, 0).single();
        let midnight = midnight_of(year, month, day);
        assert_eq!(midnight, expected.map(|t| t.timestamp_millis() as u64));
        let utc = chrono::Utc.with_ymd_and_hms(year, month, day, 0, 0, 0).unwrap();
        if let Some(ms) = midnight {
            assert!((ms as i64 - utc.timestamp_millis()).abs() < 86_400_000);
        }
    }
}

#[test]
fn a_date_that_does_not_exist_has_no_midnight() {
    assert_eq!(midnight_of(2023, 2, 29), None);
    assert_eq!(midnight_of(2023, 13, 1), None);
    assert_eq!(midnight_of(2023, 4, 0), None);
    assert_eq!(midnight_of(i32::MAX, 1, 1), None);
    assert_eq!(midnight_of(i32::MIN, 1, 1), None);
}

#[test]
fn midnight_lies_before_now() {
    let now = std::time::SystemTime::now()
        .duration_since(std::time::UNIX_EPOCH)
        .unwrap()
        .as_millis() as u64;
    if let Some(midnight) = midnight_today_ms() {
        assert_eq!(midnight % 1000, 0);
        assert!(midnight <= now);
        assert!(now - midnight < 26 * 3_600_000);
    }
}

#[test]
fn instants_before_the_epoch_wrap() {
    assert_eq!(unsigned_ms(1000), 1000);
    assert_eq!(unsigned_ms(-1000), u64::MAX - 999);
}

#[test]
fn a_day_starts_where_its_midnight_is_one_instant() {
    assert_eq!(start_of_day(Some(86_400_000)), Some(86_400_000));
    assert_eq!(start_of_day(Some(-1000)), Some(u64::MAX - 999));
    assert_eq!(start_of_day(None), None);
}
