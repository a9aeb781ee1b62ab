use uda_schedule::dates::{civil_day_number, is_upcoming, parse_exam_date, weekday_index_of_instant};
use uda_schedule::CivilDate;

// 2024-01-01 00:00 in UTC+7, as seconds since the Unix epoch.
const MONDAY_2024_01_01: u64 = 1704042000;

#[test]
fn parses_far_future_date() {
    let d = parse_exam_date("01/01/2099").unwrap();
    assert_eq!(d, CivilDate { year: 2099, month: 1, day: 1 });
}

#[test]
fn parses_far_past_date() {
    let d = parse_exam_date("01/01/2000").unwrap();
    assert_eq!(d, CivilDate { year: 2000, month: 1, day: 1 });
}

#[test]
fn rejects_malformed_dates() {
    assert!(parse_exam_date("not-a-date").is_none());
    assert!(parse_exam_date("").is_none());
    assert!(parse_exam_date("1/1/2025").is_none());
    assert!(parse_exam_date("01-01-2025").is_none());
    assert!(parse_exam_date("01/01/25").is_none());
    assert!(parse_exam_date("01/01/2025 ").is_none());
}

#[test]
fn rejects_impossible_dates() {
    assert!(parse_exam_date("32/01/2025").is_none());
    assert!(parse_exam_date("00/01/2025").is_none());
    assert!(parse_exam_date("31/04/2025").is_none());
    assert!(parse_exam_date("29/02/2023").is_none());
    assert!(parse_exam_date("01/13/2025").is_none());
    assert!(parse_exam_date("01/00/2025").is_none());
    assert!(parse_exam_date("01/01/0000").is_none());
}

#[test]
fn accepts_leap_day_in_leap_years() {
    assert!(parse_exam_date("29/02/2024").is_some());
    assert!(parse_exam_date("29/02/2000").is_some());
    assert!(parse_exam_date("29/02/1900").is_none());
}

#[test]
fn day_numbers_match_known_dates() {
    assert_eq!(civil_day_number(&CivilDate { year: 1970, month: 1, day: 1 }), 0);
    assert_eq!(civil_day_number(&CivilDate { year: 1970, month: 1, day: 2 }), 1);
    assert_eq!(civil_day_number(&CivilDate { year: 1969, month: 12, day: 31 }), -1);
    assert_eq!(civil_day_number(&CivilDate { year: 2024, month: 1, day: 1 }), 19723);
    assert_eq!(civil_day_number(&CivilDate { year: 2000, month: 3, day: 1 }), 11017);
}

#[test]
fn far_future_date_is_retained() {
    let d = parse_exam_date("01/01/2099").unwrap();
    assert!(is_upcoming(&d, MONDAY_2024_01_01));
}

#[test]
fn far_past_date_is_excluded() {
    let d = parse_exam_date("01/01/2000").unwrap();
    assert!(!is_upcoming(&d, MONDAY_2024_01_01));
}

#[test]
fn grace_window_keeps_yesterday() {
    // Midnight of 2023-12-31 plus the one-day grace lands exactly on the
    // reference instant: still retained under the inclusive rule.
    let yesterday = parse_exam_date("31/12/2023").unwrap();
    assert!(is_upcoming(&yesterday, MONDAY_2024_01_01));
    let before = parse_exam_date("30/12/2023").unwrap();
    assert!(!is_upcoming(&before, MONDAY_2024_01_01));
    let today = parse_exam_date("01/01/2024").unwrap();
    assert!(is_upcoming(&today, MONDAY_2024_01_01));
}

#[test]
fn far_dates_against_the_real_clock() {
    let ts = chrono::Utc::now().timestamp();
    let now = if ts >= 0 { ts as u64 } else { 0 };
    let future = parse_exam_date("01/01/2099").unwrap();
    assert!(is_upcoming(&future, now));
    let past = parse_exam_date("01/01/2000").unwrap();
    assert!(!is_upcoming(&past, now));
}

#[test]
fn weekday_of_reference_instants() {
    // 2024-01-01 was a Monday (index 0).
    assert_eq!(weekday_index_of_instant(MONDAY_2024_01_01), 0);
    // The epoch instant falls on Thursday 1970-01-01 07:00 in UTC+7.
    assert_eq!(weekday_index_of_instant(0), 3);
    // One second before local Tuesday begins it is still Monday.
    assert_eq!(weekday_index_of_instant(MONDAY_2024_01_01 + 86399), 0);
    assert_eq!(weekday_index_of_instant(MONDAY_2024_01_01 + 86400), 1);
}
