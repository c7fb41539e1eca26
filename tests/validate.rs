use tsv_tennis_backend::date::Date;
use tsv_tennis_backend::models::WorkHourEntry;
use tsv_tennis_backend::numeral::parse_hours;
use tsv_tennis_backend::validate::{
    check_submission, positive_hours, validate_submission, validate_submission_today,
    CreateWorkHourRequest, HoursInput, ValidationError,
};

fn day(year: i32, month: u32, d: u32) -> Date {
    Date { year, month, day: d }
}

fn request(date: &str, description: &str, hours: &str) -> CreateWorkHourRequest {
    CreateWorkHourRequest {
        date: date.to_string(),
        description: description.to_string(),
        hours: HoursInput::Text(hours.to_string()),
    }
}

fn entry(date: &str, hours: u64) -> WorkHourEntry {
    WorkHourEntry {
        id: "wh1".to_string(),
        date: date.to_string(),
        description: "Platzpflege".to_string(),
        duration_hours: hours,
    }
}

fn error_of(r: Result<tsv_tennis_backend::validate::ValidatedEntry, ValidationError>) -> ValidationError {
    match r {
        Ok(_) => panic!("accepted"),
        Err(e) => e,
    }
}

#[test]
fn hours_numerals_are_read_in_hundredths() {
    assert_eq!(parse_hours("2.5"), Some(250));
    assert_eq!(parse_hours("8"), Some(800));
    assert_eq!(parse_hours(".75"), Some(75));
    assert_eq!(parse_hours("3."), Some(300));
    assert_eq!(parse_hours("1.125"), Some(113));
    assert_eq!(parse_hours("1.124"), Some(112));
    assert_eq!(parse_hours("0"), Some(0));
}

#[test]
fn non_numerals_are_not_hours() {
    assert_eq!(parse_hours("abc"), None);
    assert_eq!(parse_hours(""), None);
    assert_eq!(parse_hours("."), None);
    assert_eq!(parse_hours("-1"), None);
    assert_eq!(parse_hours("1.2.3"), None);
    assert_eq!(parse_hours("1234567890"), None);
    assert_eq!(parse_hours("123456789"), Some(12345678900));
}

#[test]
fn only_positive_hours_pass() {
    assert_eq!(positive_hours(&HoursInput::Text("2.5".to_string())), Some(250));
    assert_eq!(positive_hours(&HoursInput::Text("0".to_string())), None);
    assert_eq!(positive_hours(&HoursInput::Text("0.001".to_string())), None);
    assert_eq!(positive_hours(&HoursInput::Hundredths(150)), Some(150));
    assert_eq!(positive_hours(&HoursInput::Hundredths(0)), None);
    assert_eq!(positive_hours(&HoursInput::Hundredths(-250)), None);
}

#[test]
fn valid_submission_is_accepted() {
    let r = validate_submission(&request("2025-03-05", "Platzpflege", "2.5"), day(2025, 3, 10), &vec![]);
    let v = r.ok().unwrap();
    assert_eq!(v.date, "2025-03-05");
    assert_eq!(v.description, "Platzpflege");
    assert_eq!(v.duration_hours, 250);
    assert_eq!(v.work_date, day(2025, 3, 5));
}

#[test]
fn bad_dates_are_rejected() {
    let today = day(2025, 3, 10);
    assert_eq!(error_of(validate_submission(&request("", "x", "1"), today, &vec![])), ValidationError::BadDateFormat);
    assert_eq!(
        error_of(validate_submission(&request("invalid-date", "x", "1"), today, &vec![])),
        ValidationError::BadDateFormat
    );
    assert_eq!(
        error_of(validate_submission(&request("2025-13-01", "x", "1"), today, &vec![])),
        ValidationError::BadDateFormat
    );
}

#[test]
fn missing_description_is_rejected() {
    let r = validate_submission(&request("2025-03-05", "", "1"), day(2025, 3, 10), &vec![]);
    assert_eq!(error_of(r), ValidationError::MissingDescription);
}

#[test]
fn zero_negative_and_non_numeric_hours_are_rejected() {
    let today = day(2025, 3, 10);
    for h in ["0", "-2", "abc", "", "0.00"] {
        let r = validate_submission(&request("2025-03-05", "Platzpflege", h), today, &vec![]);
        assert_eq!(error_of(r), ValidationError::InvalidHours);
    }
    let p = CreateWorkHourRequest {
        date: "2025-03-05".to_string(),
        description: "Platzpflege".to_string(),
        hours: HoursInput::Hundredths(-100),
    };
    assert_eq!(error_of(validate_submission(&p, today, &vec![])), ValidationError::InvalidHours);
}

#[test]
fn checks_run_in_order() {
    let r = validate_submission(&request("bad", "", "abc"), day(2025, 3, 10), &vec![]);
    assert_eq!(error_of(r), ValidationError::BadDateFormat);
    let r = validate_submission(&request("2025-03-05", "", "abc"), day(2025, 3, 10), &vec![]);
    assert_eq!(error_of(r), ValidationError::MissingDescription);
    let r = validate_submission(&request("2020-03-05", "x", "abc"), day(2025, 3, 10), &vec![]);
    assert_eq!(error_of(r), ValidationError::InvalidHours);
}

#[test]
fn previous_year_is_open_in_january() {
    let r = validate_submission(&request("2024-12-31", "Platzpflege", "1"), day(2025, 1, 15), &vec![]);
    assert!(r.is_ok());
}

#[test]
fn previous_year_is_closed_in_february() {
    let r = validate_submission(&request("2024-12-31", "Platzpflege", "1"), day(2025, 2, 1), &vec![]);
    assert_eq!(
        error_of(r),
        ValidationError::YearOutOfRange { current_year: 2025, january_grace: false }
    );
}

#[test]
fn two_years_back_is_closed_even_in_january() {
    let r = validate_submission(&request("2023-12-31", "Platzpflege", "1"), day(2025, 1, 15), &vec![]);
    assert_eq!(
        error_of(r),
        ValidationError::YearOutOfRange { current_year: 2025, january_grace: true }
    );
}

#[test]
fn later_years_are_open() {
    let r = validate_submission(&request("2026-01-02", "Platzpflege", "1"), day(2025, 6, 1), &vec![]);
    assert!(r.is_ok());
}

#[test]
fn second_entry_on_a_day_is_a_duplicate() {
    let today = day(2025, 3, 10);
    let first = validate_submission(&request("2025-03-05", "Platzpflege", "2"), today, &vec![]);
    let v = first.ok().unwrap();
    let stored = vec![entry(&v.date, v.duration_hours)];
    let r = validate_submission(&request("2025-03-05", "Hallendienst", "4.5"), today, &stored);
    assert_eq!(error_of(r), ValidationError::DuplicateForDate);
}

#[test]
fn stored_date_times_count_as_their_day() {
    let stored = vec![entry("2025-03-05T10:00:00Z", 100)];
    let r = validate_submission(&request("2025-03-05", "Platzpflege", "1"), day(2025, 3, 10), &stored);
    assert_eq!(error_of(r), ValidationError::DuplicateForDate);
    let r = validate_submission(&request("2025-03-06", "Platzpflege", "1"), day(2025, 3, 10), &stored);
    assert!(r.is_ok());
}

#[test]
fn checks_run_on_a_given_day() {
    let p = request("whatever", "Platzpflege", "1");
    let r = check_submission(&p, Some(day(2025, 3, 5)), day(2025, 3, 10), &vec![]);
    assert_eq!(r.ok().unwrap().work_date, day(2025, 3, 5));
    let r = check_submission(&p, None, day(2025, 3, 10), &vec![]);
    assert_eq!(error_of(r), ValidationError::BadDateFormat);
}

#[test]
fn submission_is_checked_against_today() {
    let r = validate_submission_today(&request("2999-01-01", "Platzpflege", "1"), &vec![]);
    assert!(r.is_ok());
    let r = validate_submission_today(&request("2000-01-01", "Platzpflege", "1"), &vec![]);
    assert!(matches!(error_of(r), ValidationError::YearOutOfRange { .. }));
}
