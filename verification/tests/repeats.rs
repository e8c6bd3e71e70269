use lessons::date::Date;
use lessons::repeat::divides;
use lessons::repeat::Repeat;
use lessons::repeat::RepeatFault;
use lessons::repeat::RepeatID;
use lessons::repeat::RepeatUnit;

fn date(year: u32, month: u32, day: u32) -> Date {
    Date::new(year, month, day).unwrap()
}

fn rule(start: Date, unit: RepeatUnit, step: u32, end: Option<Date>) -> Repeat {
    Repeat { id: RepeatID(1), start, unit, step, end }
}

#[test]
fn a_rule_with_step_zero_is_faulty() {
    let r = rule(date(2024, 1, 1), RepeatUnit::Daily, 0, None);
    assert_eq!(r.check(), Some(RepeatFault::ZeroStep));
}

#[test]
fn a_rule_that_ends_before_it_starts_is_faulty() {
    let r = rule(date(2024, 1, 2), RepeatUnit::Daily, 1, Some(date(2024, 1, 1)));
    assert_eq!(r.check(), Some(RepeatFault::EndBeforeStart));
}

#[test]
fn the_step_is_looked_at_before_the_end() {
    let r = rule(date(2024, 1, 2), RepeatUnit::Daily, 0, Some(date(2024, 1, 1)));
    assert_eq!(r.check(), Some(RepeatFault::ZeroStep));
}

#[test]
fn a_rule_may_end_on_the_day_it_starts() {
    let r = rule(date(2024, 1, 1), RepeatUnit::Weekly, 1, Some(date(2024, 1, 1)));
    assert_eq!(r.check(), None);
    assert!(r.matches(&date(2024, 1, 1)));
    assert!(!r.matches(&date(2024, 1, 8)));
}

#[test]
fn a_daily_rule_matches_every_step_days() {
    let r = rule(date(2024, 2, 27), RepeatUnit::Daily, 3, None);
    assert!(r.matches(&date(2024, 2, 27)));
    assert!(!r.matches(&date(2024, 2, 28)));
    assert!(!r.matches(&date(2024, 2, 29)));
    assert!(r.matches(&date(2024, 3, 1)));
    assert!(r.matches(&date(2024, 3, 4)));
    assert!(!r.matches(&date(2024, 2, 24)));
}

#[test]
fn a_weekly_rule_matches_every_seventh_day() {
    let r = rule(date(2024, 1, 1), RepeatUnit::Weekly, 1, None);
    assert!(r.matches(&date(2024, 1, 1)));
    assert!(r.matches(&date(2024, 1, 8)));
    assert!(r.matches(&date(2024, 1, 15)));
    assert!(!r.matches(&date(2024, 1, 9)));
    assert!(!r.matches(&date(2023, 12, 25)));
    let every_other = rule(date(2024, 1, 1), RepeatUnit::Weekly, 2, None);
    assert!(!every_other.matches(&date(2024, 1, 8)));
    assert!(every_other.matches(&date(2024, 1, 15)));
}

#[test]
fn a_monthly_rule_from_the_31st_takes_the_last_day_of_shorter_months() {
    let r = rule(date(2024, 1, 31), RepeatUnit::Monthly, 1, None);
    assert!(r.matches(&date(2024, 1, 31)));
    assert!(r.matches(&date(2024, 2, 29)));
    assert!(r.matches(&date(2024, 3, 31)));
    assert!(r.matches(&date(2024, 4, 30)));
    assert!(r.matches(&date(2025, 2, 28)));
    assert!(!r.matches(&date(2024, 2, 28)));
    assert!(!r.matches(&date(2024, 3, 29)));
    assert!(!r.matches(&date(2024, 3, 30)));
    assert!(!r.matches(&date(2023, 12, 31)));
}

#[test]
fn a_monthly_rule_counts_its_step_in_months() {
    let r = rule(date(2024, 1, 15), RepeatUnit::Monthly, 3, None);
    assert!(r.matches(&date(2024, 4, 15)));
    assert!(r.matches(&date(2025, 1, 15)));
    assert!(!r.matches(&date(2024, 2, 15)));
    assert!(!r.matches(&date(2024, 3, 15)));
    assert!(!r.matches(&date(2024, 4, 16)));
}

#[test]
fn a_rule_matches_nothing_after_its_end() {
    let r = rule(date(2024, 1, 1), RepeatUnit::Daily, 1, Some(date(2024, 1, 10)));
    assert!(r.matches(&date(2024, 1, 10)));
    assert!(!r.matches(&date(2024, 1, 11)));
}

#[test]
fn a_rule_with_step_zero_matches_its_start_alone() {
    for unit in [RepeatUnit::Daily, RepeatUnit::Weekly, RepeatUnit::Monthly] {
        let r = rule(date(2024, 1, 31), unit, 0, None);
        assert!(r.matches(&date(2024, 1, 31)));
        assert!(!r.matches(&date(2024, 2, 1)));
        assert!(!r.matches(&date(2024, 2, 29)));
    }
}

#[test]
fn divides_knows_the_multiples() {
    assert!(divides(7, 0));
    assert!(divides(7, 14));
    assert!(!divides(7, 15));
    assert!(divides(0, 0));
    assert!(!divides(0, 3));
    assert!(divides(1, u64::MAX));
}
