use tsv_tennis_backend::aggregate::date_year;
use tsv_tennis_backend::date::{
    normalize_date, parse_calendar_date, parse_day, record_date, record_day_given, Date,
};

#[test]
fn date_time_suffix_is_stripped() {
    assert_eq!(normalize_date("2024-03-05T10:00:00Z"), "2024-03-05");
}

#[test]
fn plain_date_is_kept() {
    assert_eq!(normalize_date("2024-03-05"), "2024-03-05");
    assert_eq!(normalize_date(""), "");
}

#[test]
fn normalizing_twice_changes_nothing() {
    let once = normalize_date("2024-03-05T10:00:00Z");
    assert_eq!(normalize_date(&once), once);
}

#[test]
fn calendar_dates_are_read() {
    assert_eq!(parse_calendar_date("2024-03-05"), Some(Date { year: 2024, month: 3, day: 5 }));
    assert_eq!(parse_calendar_date("invalid-date"), None);
    assert_eq!(parse_calendar_date("2024-02-30"), None);
    assert_eq!(parse_calendar_date("2024-03-05T10:00:00Z"), None);
}

#[test]
fn days_are_read_from_dates_and_date_times() {
    assert_eq!(parse_day("2019-10-08"), Some(Date { year: 2019, month: 10, day: 8 }));
    assert_eq!(
        parse_day("2019-10-08T22:21:36.000Z"),
        Some(Date { year: 2019, month: 10, day: 8 })
    );
    assert_eq!(parse_day("2019-10-08T23:30:00-02:00"), Some(Date { year: 2019, month: 10, day: 9 }));
    assert_eq!(parse_day("yesterday"), None);
}

#[test]
fn year_prefix_is_read() {
    assert_eq!(date_year("2024-03-05"), Some(2024));
    assert_eq!(date_year("1999-12-31"), Some(1999));
    assert_eq!(date_year("2024"), None);
    assert_eq!(date_year("24-03-05"), None);
    assert_eq!(date_year("abcd-01-01"), None);
}

#[test]
fn stored_dates_are_read_as_berlin_days() {
    assert_eq!(record_date("2024-03-05T23:30:00Z"), "2024-03-06");
    assert_eq!(record_date("2024-07-01T10:00:00Z"), "2024-07-01");
    assert_eq!(record_date("2024-03-05"), "2024-03-05");
    assert_eq!(record_date("2024-03-05 extra"), "2024-03-05");
    assert_eq!(record_date("short"), "");
    assert_eq!(record_day_given("2024-03-05T23:30:00Z", Some("2024-03-06".to_string())), "2024-03-06");
    assert_eq!(record_day_given("2024-03-05xyz", None), "2024-03-05");
}
