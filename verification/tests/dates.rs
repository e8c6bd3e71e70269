use chrono::Datelike;
use chrono::Months;
use chrono::NaiveDate;
use lessons::date::is_leap_year;
use lessons::date::month_length;
use lessons::date::Date;

fn date(year: u32, month: u32, day: u32) -> Date {
    Date::new(year, month, day).unwrap()
}

#[test]
fn new_accepts_the_days_of_the_calendar() {
    let d = date(2024, 2, 29);
    assert_eq!(d.year(), 2024);
    assert_eq!(d.month(), 2);
    assert_eq!(d.day(), 29);
    assert!(Date::new(1, 1, 1).is_some());
    assert!(Date::new(9999, 12, 31).is_some());
    assert!(Date::new(2000, 2, 29).is_some());
}

#[test]
fn new_rejects_what_the_calendar_lacks() {
    assert!(Date::new(2023, 2, 29).is_none());
    assert!(Date::new(1900, 2, 29).is_none());
    assert!(Date::new(2024, 4, 31).is_none());
    assert!(Date::new(2024, 13, 1).is_none());
    assert!(Date::new(2024, 0, 1).is_none());
    assert!(Date::new(2024, 1, 0).is_none());
    assert!(Date::new(2024, 1, 32).is_none());
    assert!(Date::new(0, 1, 1).is_none());
    assert!(Date::new(10000, 1, 1).is_none());
}

#[test]
fn leap_years_follow_the_gregorian_rule() {
    assert!(is_leap_year(2024));
    assert!(is_leap_year(2000));
    assert!(!is_leap_year(1900));
    assert!(!is_leap_year(2023));
    assert_eq!(month_length(2024, 2), 29);
    assert_eq!(month_length(2023, 2), 28);
    assert_eq!(month_length(2023, 4), 30);
    assert_eq!(month_length(2023, 12), 31);
}

#[test]
fn ordinal_counts_days_from_the_first_of_year_one() {
    assert_eq!(date(1, 1, 1).ordinal(), 1);
    assert_eq!(date(1, 12, 31).ordinal(), 365);
    assert_eq!(date(2, 1, 1).ordinal(), 366);
    assert_eq!(date(1970, 1, 1).ordinal(), 719163);
    assert_eq!(date(2024, 1, 15).ordinal(), 738900);
    assert_eq!(date(9999, 12, 31).ordinal(), 3652059);
}

#[test]
fn ordinal_agrees_with_chrono_on_every_day_of_some_years() {
    for year in [1u32, 4, 100, 400, 1899, 1900, 1999, 2000, 2023, 2024, 2100, 9999] {
        for month in 1u32..=12 {
            for day in 1u32..=31 {
                let ours = Date::new(year, month, day);
                let theirs = NaiveDate::from_ymd_opt(year as i32, month, day);
                assert_eq!(ours.is_some(), theirs.is_some());
                if let (Some(ours), Some(theirs)) = (ours, theirs) {
                    assert_eq!(ours.ordinal() as i32, theirs.num_days_from_ce());
                }
            }
        }
    }
}

#[test]
fn ordinal_grows_by_one_from_day_to_day() {
    let mut day = NaiveDate::from_ymd_opt(2023, 12, 1).unwrap();
    let end = NaiveDate::from_ymd_opt(2025, 3, 5).unwrap();
    let mut last = date(2023, 11, 30).ordinal();
    while day <= end {
        let ours = date(day.year() as u32, day.month(), day.day());
        assert_eq!(ours.ordinal(), last + 1);
        last = ours.ordinal();
        day = day.succ_opt().unwrap();
    }
}

#[test]
fn dates_compare_as_the_calendar_orders_them() {
    let a = date(2023, 12, 31);
    let b = date(2024, 1, 1);
    assert!(a.lt(&b));
    assert!(a.le(&b));
    assert!(!b.lt(&a));
    assert!(!b.le(&a));
    assert!(a.le(&a));
    assert!(!a.lt(&a));
    assert_eq!(a, date(2023, 12, 31));
    assert_ne!(a, b);
}

#[test]
fn days_since_is_signed() {
    assert_eq!(date(2024, 1, 15).days_since(&date(2024, 1, 1)), 14);
    assert_eq!(date(2024, 1, 1).days_since(&date(2024, 1, 15)), -14);
    assert_eq!(date(2024, 3, 1).days_since(&date(2024, 2, 1)), 29);
    assert_eq!(date(2023, 3, 1).days_since(&date(2023, 2, 1)), 28);
    assert_eq!(date(2024, 1, 1).days_since(&date(2024, 1, 1)), 0);
    assert_eq!(date(9999, 12, 31).days_since(&date(1, 1, 1)), 3652058);
}

#[test]
fn months_since_counts_calendar_months() {
    assert_eq!(date(2024, 3, 1).months_since(&date(2024, 1, 31)), 2);
    assert_eq!(date(2025, 1, 1).months_since(&date(2024, 12, 31)), 1);
    assert_eq!(date(2024, 1, 31).months_since(&date(2024, 3, 1)), -2);
    assert_eq!(date(2024, 5, 20).months_since(&date(2024, 5, 1)), 0);
}

#[test]
fn adding_months_keeps_the_day_or_takes_the_last_of_the_month() {
    let start = date(2024, 1, 31);
    assert_eq!(start.checked_add_months(0), Some(start));
    assert_eq!(start.checked_add_months(1), Some(date(2024, 2, 29)));
    assert_eq!(start.checked_add_months(2), Some(date(2024, 3, 31)));
    assert_eq!(start.checked_add_months(3), Some(date(2024, 4, 30)));
    assert_eq!(start.checked_add_months(12), Some(date(2025, 1, 31)));
    assert_eq!(start.checked_add_months(13), Some(date(2025, 2, 28)));
    assert_eq!(date(2023, 11, 15).checked_add_months(3), Some(date(2024, 2, 15)));
}

#[test]
fn adding_months_stops_at_the_last_year() {
    assert_eq!(date(9999, 12, 1).checked_add_months(1), None);
    assert_eq!(date(9999, 11, 30).checked_add_months(1), Some(date(9999, 12, 30)));
    assert_eq!(date(2024, 1, 1).checked_add_months(u32::MAX), None);
}

#[test]
fn adding_months_agrees_with_chrono() {
    for (year, month, day) in [(2024u32, 1u32, 31u32), (2023, 8, 30), (2020, 2, 29), (1999, 12, 31)] {
        let ours = date(year, month, day);
        let theirs = NaiveDate::from_ymd_opt(year as i32, month, day).unwrap();
        for months in 0u32..60 {
            let a = ours.checked_add_months(months).unwrap();
            let b = theirs.checked_add_months(Months::new(months)).unwrap();
            assert_eq!((a.year() as i32, a.month(), a.day()), (b.year(), b.month(), b.day()));
        }
    }
}

#[test]
fn the_first_day_number_after_a_year_is_the_next_years_first() {
    for year in [1u32, 1999, 2000, 2023, 2024, 9998] {
        assert_eq!(date(year + 1, 1, 1).ordinal(), date(year, 12, 31).ordinal() + 1);
        assert_eq!(date(year, 3, 1).ordinal(), date(year, 2, month_length(year, 2)).ordinal() + 1);
    }
}
