use anki_rewind::date::{calculate_id_offset, days_between, parse_date, parse_date_with_today,
    validate_dates, Date};

fn ymd(y: i32, m: u32, d: u32) -> Date {
    Date::from_ymd_opt(y, m, d).unwrap()
}

#[test]
fn test_days_between() {
    let from = ymd(2024, 1, 1);
    let to = ymd(2024, 1, 3);
    assert_eq!(days_between(from, to), 2); // Jan 1 to Jan 3 = 2 days

    // Same date should return 0 days
    assert_eq!(days_between(from, from), 0);

    // Jan 1 to Jan 2 should be 1 day
    let jan2 = ymd(2024, 1, 2);
    assert_eq!(days_between(from, jan2), 1);
}

#[test]
fn test_days_between_across_boundaries() {
    // leap year: 2024-02-28 to 2024-03-01 spans the leap day
    assert_eq!(days_between(ymd(2024, 2, 28), ymd(2024, 3, 1)), 2);
    // non-leap year
    assert_eq!(days_between(ymd(2023, 2, 28), ymd(2023, 3, 1)), 1);
    // year boundary
    assert_eq!(days_between(ymd(2024, 12, 31), ymd(2025, 1, 1)), 1);
    // a whole leap year
    assert_eq!(days_between(ymd(2024, 1, 1), ymd(2025, 1, 1)), 366);
    // century rule: 1900 is not a leap year, 2000 is
    assert_eq!(days_between(ymd(1900, 2, 28), ymd(1900, 3, 1)), 1);
    assert_eq!(days_between(ymd(2000, 2, 28), ymd(2000, 3, 1)), 2);
    // antisymmetry on a sample
    assert_eq!(days_between(ymd(2024, 1, 1), ymd(2024, 3, 1)),
        -days_between(ymd(2024, 3, 1), ymd(2024, 1, 1)));
}

#[test]
fn test_calculate_id_offset() {
    assert_eq!(calculate_id_offset(1), 86_400_000);
    assert_eq!(calculate_id_offset(2), 86_400_000 * 2);
    assert_eq!(calculate_id_offset(7), 86_400_000 * 7);
}

#[test]
fn test_calculate_id_offset_examples() {
    assert_eq!(calculate_id_offset(0), 0);
    assert_eq!(calculate_id_offset(1), 86_400_000);
    assert_eq!(calculate_id_offset(7), 604_800_000);
    assert_eq!(calculate_id_offset(-3), -259_200_000);
}

#[test]
fn test_parse_date_special_keywords() {
    let today_naive = chrono::Local::now().date_naive();
    let today = Date::from_ymd_opt(
        chrono::Datelike::year(&today_naive),
        chrono::Datelike::month(&today_naive),
        chrono::Datelike::day(&today_naive),
    )
    .unwrap();
    let yesterday_naive = today_naive.pred_opt().unwrap();
    let yesterday = Date::from_ymd_opt(
        chrono::Datelike::year(&yesterday_naive),
        chrono::Datelike::month(&yesterday_naive),
        chrono::Datelike::day(&yesterday_naive),
    )
    .unwrap();

    assert_eq!(parse_date("today").unwrap(), today);
    assert_eq!(parse_date("TODAY").unwrap(), today);
    assert_eq!(parse_date("yesterday").unwrap(), yesterday);
    assert_eq!(parse_date("YESTERDAY").unwrap(), yesterday);
}

#[test]
fn test_parse_date_formats() {
    let expected = ymd(2024, 1, 15);
    assert_eq!(parse_date("2024-01-15").unwrap(), expected);
    assert_eq!(parse_date("20240115").unwrap(), expected);
}

#[test]
fn test_parse_date_invalid() {
    assert!(parse_date("invalid").is_err());
    assert!(parse_date("2024-13-45").is_err());
    assert!(parse_date("20241345").is_err());
}

#[test]
fn test_parse_date_with_today_keywords() {
    let today = ymd(2025, 6, 15);
    assert_eq!(parse_date_with_today("today", today).unwrap(), today);
    assert_eq!(parse_date_with_today("Yesterday", today).unwrap(), ymd(2025, 6, 14));
    // the predecessor crosses a month boundary
    assert_eq!(parse_date_with_today("yesterday", ymd(2025, 3, 1)).unwrap(), ymd(2025, 2, 28));
    // and a year boundary
    assert_eq!(parse_date_with_today("yesterday", ymd(2025, 1, 1)).unwrap(), ymd(2024, 12, 31));
    // the first representable date has no predecessor
    let min = Date::from_ymd_opt(0, 1, 1).unwrap();
    assert_eq!(
        parse_date_with_today("yesterday", min).unwrap_err(),
        "Failed to calculate yesterday's date"
    );
}

#[test]
fn test_parse_date_error_message() {
    assert_eq!(
        parse_date("not-a-date!").unwrap_err(),
        "Invalid date format. Please use YYYY-MM-DD, YYYYMMDD, 'today', or 'yesterday'"
    );
}

fn mock_today() -> Date {
    ymd(2025, 1, 4) // Mocked "today" for testing
}

#[test]
fn test_validate_dates_valid_case() {
    let from_date = Some(ymd(2025, 1, 3)); // Not in the future
    let to_date = Some(ymd(2025, 1, 1)); // Earlier than from_date
    let today = ymd(2025, 1, 4); // Mocked current date

    let result = validate_dates(from_date, to_date, today);

    assert!(result.is_ok(), "Expected Ok(()), got: {:?}", result);
}

#[test]
fn test_validate_dates_valid_from_only() {
    let from_date = Some(ymd(2025, 1, 1));
    let today = mock_today();
    assert!(validate_dates(from_date, None, today).is_ok());
}

#[test]
fn test_validate_dates_invalid_date_order() {
    let from_date = Some(ymd(2025, 1, 1));
    let to_date = Some(ymd(2025, 1, 5));
    let today = ymd(2025, 1, 4);

    let result = validate_dates(from_date, to_date, today);

    let expected_errors = vec![
        "Invalid date range: 'from_date' (2025-01-01) must be after 'to_date' (2025-01-05)."
            .to_string(),
        "Invalid 'to_date': 2025-01-05 is in the future.".to_string(),
    ];

    assert!(
        expected_errors.contains(&result.clone().unwrap_err()),
        "Unexpected error: {:?}",
        result
    );
}

#[test]
fn test_validate_dates_from_in_future() {
    let today = ymd(2025, 1, 4);
    let err = validate_dates(Some(ymd(2025, 2, 1)), Some(ymd(2025, 1, 1)), today).unwrap_err();
    assert_eq!(err, "Invalid 'from_date': 2025-02-01 is in the future.");
}

#[test]
fn test_validate_dates_range_error_message() {
    let today = ymd(2025, 1, 10);
    let err = validate_dates(Some(ymd(2025, 1, 2)), Some(ymd(2025, 1, 5)), today).unwrap_err();
    assert_eq!(
        err,
        "Invalid date range: 'from_date' (2025-01-02) must be after 'to_date' (2025-01-05)."
    );
}
