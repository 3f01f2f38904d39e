use fin::text::{chars_of, contains_str, equals_str};
use fin::Date;

#[test]
fn dates_are_written_year_month_day() {
    assert_eq!(Date::from_ymd(2015, 9, 5).unwrap().text(), "2015-09-05");
    assert_eq!(Date::from_ymd(0, 1, 1).unwrap().text(), "0000-01-01");
    assert_eq!(Date::from_ymd(9999, 12, 31).unwrap().text(), "9999-12-31");
    assert_eq!(Date::from_ymd(-1, 1, 1).unwrap().text(), "-0001-01-01");
    assert_eq!(Date::from_ymd(10000, 12, 31).unwrap().text(), "+10000-12-31");
}

#[test]
fn only_calendar_days_are_dates() {
    assert!(Date::from_ymd(2023, 4, 31).is_none());
    assert!(Date::from_ymd(2015, 2, 29).is_none());
    assert!(Date::from_ymd(2024, 2, 29).is_some());
    assert!(Date::from_ymd(1900, 2, 29).is_none());
    assert!(Date::from_ymd(2000, 2, 29).is_some());
    assert!(Date::from_ymd(-4, 2, 29).is_some());
    assert!(Date::from_ymd(2015, 0, 14).is_none());
    assert!(Date::from_ymd(2015, 13, 1).is_none());
    assert!(Date::from_ymd(2015, 1, 0).is_none());
    assert!(Date::from_ymd(262142, 12, 31).is_some());
    assert!(Date::from_ymd(262143, 1, 1).is_none());
    assert!(Date::from_ymd(-262143, 1, 1).is_some());
    assert!(Date::from_ymd(-262144, 12, 31).is_none());
}

#[test]
fn dates_parse_by_format() {
    let d = Date::parse("01/12/2023", "%d/%m/%Y").unwrap();
    assert_eq!((d.year(), d.month(), d.day()), (2023, 12, 1));
    let d = Date::parse("12/01/2023", "%m/%d/%Y").unwrap();
    assert_eq!((d.year(), d.month(), d.day()), (2023, 12, 1));
    assert!(Date::parse("31/02/2023", "%d/%m/%Y").is_none());
    assert!(Date::parse("2023-12-01", "%d/%m/%Y").is_none());
}

#[test]
fn substring_search() {
    assert!(contains_str("hello world", "lo w"));
    assert!(contains_str("hello", ""));
    assert!(contains_str("", ""));
    assert!(!contains_str("", "a"));
    assert!(!contains_str("hello", "hello!"));
    assert!(contains_str("abababc", "ababc"));
    assert_eq!(chars_of("héllo"), vec!['h', 'é', 'l', 'l', 'o']);
}

#[test]
fn string_equality() {
    assert!(equals_str(&"REGEX".to_string(), "REGEX"));
    assert!(!equals_str(&"REGEX".to_string(), "REGEXP"));
    assert!(!equals_str(&"regex".to_string(), "REGEX"));
}
