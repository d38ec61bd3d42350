use chrono::NaiveTime;
use f1_data::laptime::{best_qualifying_time, number_or_zero, LapTime};

fn time(hour: u32, minute: u32, second: u32, milli: u32) -> LapTime {
    LapTime::from_hms_milli_opt(hour, minute, second, milli).unwrap()
}

#[test]
fn reads_minutes_seconds_and_milliseconds() {
    assert_eq!(LapTime::parse("1:22.109"), Some(time(0, 1, 22, 109)));
    assert_eq!(LapTime::parse("1:26.103"), Some(time(0, 1, 26, 103)));
    assert_eq!(LapTime::parse("0:59.999"), Some(time(0, 0, 59, 999)));
    assert_eq!(LapTime::parse("59:59.999"), Some(time(0, 59, 59, 999)));
}

#[test]
fn reads_bare_seconds() {
    assert_eq!(LapTime::parse("58.079"), Some(time(0, 0, 58, 79)));
    assert_eq!(LapTime::parse("7.5"), Some(time(0, 0, 7, 5)));
    assert_eq!(LapTime::parse("42"), Some(time(0, 0, 42, 0)));
}

#[test]
fn empty_text_is_midnight() {
    assert_eq!(LapTime::parse(""), Some(LapTime::midnight()));
    assert_eq!(LapTime::parse(""), Some(time(0, 0, 0, 0)));
    assert_eq!(LapTime::parse_or_midnight(""), time(0, 0, 0, 0));
}

#[test]
fn seconds_from_sixty_on_carry_into_minutes() {
    // minutes' = m + s / 60, seconds' = s % 60
    assert_eq!(LapTime::parse("1:60.000"), Some(time(0, 2, 0, 0)));
    assert_eq!(LapTime::parse("1:83.456"), Some(time(0, 2, 23, 456)));
    assert_eq!(LapTime::parse("0:119.001"), Some(time(0, 1, 59, 1)));
    assert_eq!(LapTime::parse("0:3599.9"), Some(time(0, 59, 59, 9)));
    assert_eq!(LapTime::parse("97.5"), Some(time(0, 1, 37, 5)));
    for m in 0..5u32 {
        for s in 60..400u32 {
            let parsed = LapTime::parse(&format!("{}:{}.{}", m, s, 7)).unwrap();
            assert_eq!(parsed.minute(), m + s / 60);
            assert_eq!(parsed.second(), s % 60);
            assert!(parsed.second() <= 59);
            assert_eq!(parsed.millisecond(), 7);
            assert_eq!(parsed.hour(), 0);
        }
    }
}

#[test]
fn rejects_what_is_no_time_of_day() {
    assert_eq!(LapTime::parse("60:00.000"), None);
    assert_eq!(LapTime::parse("59:60.000"), None);
    assert_eq!(LapTime::parse("1:22.1000"), None);
    assert_eq!(LapTime::parse("0:3600.0"), None);
    assert_eq!(LapTime::parse("4294967295:4294967295.0"), None);
    assert_eq!(LapTime::parse_or_midnight("60:00.000"), LapTime::midnight());
    assert_eq!(LapTime::parse_or_midnight("1:22.1000"), LapTime::midnight());
}

#[test]
fn a_part_that_is_no_number_counts_as_zero() {
    assert_eq!(LapTime::parse("x:22.109"), Some(time(0, 0, 22, 109)));
    assert_eq!(LapTime::parse("1:xx.109"), Some(time(0, 1, 0, 109)));
    assert_eq!(LapTime::parse("1:22.abc"), Some(time(0, 1, 22, 0)));
    assert_eq!(LapTime::parse("no time"), Some(time(0, 0, 0, 0)));
    assert_eq!(LapTime::parse(":"), Some(time(0, 0, 0, 0)));
    assert_eq!(LapTime::parse("1:"), Some(time(0, 1, 0, 0)));
    assert_eq!(LapTime::parse(":5"), Some(time(0, 0, 5, 0)));
    assert_eq!(LapTime::parse(".5"), Some(time(0, 0, 0, 5)));
    assert_eq!(LapTime::parse("-1:22.109"), Some(time(0, 0, 22, 109)));
    // A number too large for 32 bits is no number.
    assert_eq!(LapTime::parse("4294967296:22.109"), Some(time(0, 0, 22, 109)));
    assert_eq!(LapTime::parse("1:22.109 "), Some(time(0, 1, 22, 0)));
}

#[test]
fn texts_with_more_parts() {
    // The minutes stand before the first colon, the seconds after the last.
    assert_eq!(LapTime::parse("1:30:17.345"), Some(time(0, 1, 17, 345)));
    // The milliseconds stand between the first and the second point.
    assert_eq!(LapTime::parse("1:22.109.7"), Some(time(0, 1, 22, 109)));
}

#[test]
fn constructor_rejects_fields_out_of_range() {
    assert!(LapTime::from_hms_milli_opt(0, 0, 0, 0).is_some());
    assert!(LapTime::from_hms_milli_opt(23, 59, 59, 999).is_some());
    assert!(LapTime::from_hms_milli_opt(24, 0, 0, 0).is_none());
    assert!(LapTime::from_hms_milli_opt(0, 60, 0, 0).is_none());
    assert!(LapTime::from_hms_milli_opt(0, 0, 60, 0).is_none());
    assert!(LapTime::from_hms_milli_opt(0, 0, 0, 1000).is_none());
    let t = time(3, 4, 5, 6);
    assert_eq!((t.hour(), t.minute(), t.second(), t.millisecond()), (3, 4, 5, 6));
}

#[test]
fn normalized_carries_and_rejects() {
    assert_eq!(LapTime::normalized(1, 83, 456), Some(time(0, 2, 23, 456)));
    assert_eq!(LapTime::normalized(0, 0, 0), Some(LapTime::midnight()));
    assert_eq!(LapTime::normalized(59, 59, 999), Some(time(0, 59, 59, 999)));
    assert_eq!(LapTime::normalized(59, 60, 0), None);
    assert_eq!(LapTime::normalized(0, 0, 1000), None);
    assert_eq!(LapTime::normalized(u32::MAX, u32::MAX, u32::MAX), None);
    assert_eq!(LapTime::normalized(0, u32::MAX, 0), None);
}

#[test]
fn agrees_with_chrono_on_valid_times() {
    let parsed = LapTime::parse("1:22.109").unwrap();
    let naive = NaiveTime::from_hms_milli_opt(
        parsed.hour(),
        parsed.minute(),
        parsed.second(),
        parsed.millisecond(),
    );
    assert_eq!(naive, NaiveTime::from_hms_milli_opt(0, 1, 22, 109));
}

#[test]
fn selects_the_last_qualifying_segment_with_a_time() {
    assert_eq!(best_qualifying_time("1:23.000", "", "1:22.109"), "1:22.109");
    assert_eq!(best_qualifying_time("1:23.000", "1:22.500", "1:22.109"), "1:22.109");
    assert_eq!(best_qualifying_time("1:23.000", "1:22.500", ""), "1:22.500");
    assert_eq!(best_qualifying_time("1:23.000", "", ""), "1:23.000");
    assert_eq!(best_qualifying_time("", "", ""), "");
    assert_eq!(LapTime::parse(best_qualifying_time("", "", "")), Some(LapTime::midnight()));
}

#[test]
fn number_or_zero_is_best_effort() {
    let chars = |s: &str| s.chars().collect::<Vec<char>>();
    assert_eq!(number_or_zero(&chars("109")), 109);
    assert_eq!(number_or_zero(&chars("007")), 7);
    assert_eq!(number_or_zero(&chars("+7")), 7);
    assert_eq!(number_or_zero(&chars("")), 0);
    assert_eq!(number_or_zero(&chars("-7")), 0);
    assert_eq!(number_or_zero(&chars("7a")), 0);
    assert_eq!(number_or_zero(&chars("4294967295")), 4294967295);
    assert_eq!(number_or_zero(&chars("4294967296")), 0);
}
