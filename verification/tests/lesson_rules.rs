use lessons::account::AccountID;
use lessons::date::Date;
use lessons::lesson::check_repeats;
use lessons::lesson::check_singles;
use lessons::lesson::Lesson;
use lessons::lesson::LessonID;
use lessons::lesson::OccurrenceView;
use lessons::lesson::OptionalField;
use lessons::lesson::ValidationError;
use lessons::repeat::Repeat;
use lessons::repeat::RepeatID;
use lessons::repeat::RepeatUnit;
use lessons::single_occurrence::OccurrenceKind;
use lessons::single_occurrence::SingleOccurrence;

fn date(year: u32, month: u32, day: u32) -> Date {
    Date::new(year, month, day).unwrap()
}

fn weekly(id: u128, start: Date) -> Repeat {
    Repeat { id: RepeatID(id), start, unit: RepeatUnit::Weekly, step: 1, end: None }
}

fn single(date: Date, kind: OccurrenceKind) -> SingleOccurrence {
    SingleOccurrence { date, kind, title: None, description: None }
}

fn lesson(repeats: Vec<Repeat>, singles: Vec<SingleOccurrence>) -> Lesson {
    Lesson::create(
        LessonID(7),
        "Piano".to_string(),
        Some("Room 2".to_string()),
        repeats,
        singles,
        AccountID(1),
    )
    .unwrap()
}

fn plain(date: Date) -> OccurrenceView {
    OccurrenceView {
        lesson_id: LessonID(7),
        date,
        title: "Piano".to_string(),
        description: Some("Room 2".to_string()),
    }
}

#[test]
fn create_keeps_the_parts() {
    let made = lesson(
        vec![weekly(1, date(2024, 1, 1))],
        vec![single(date(2024, 1, 3), OccurrenceKind::Standalone)],
    );
    assert_eq!(made.id(), LessonID(7));
    assert_eq!(made.title(), "Piano");
    assert_eq!(made.description(), &Some("Room 2".to_string()));
    assert_eq!(made.owner(), AccountID(1));
    assert_eq!(made.repeats(), &vec![weekly(1, date(2024, 1, 1))]);
    assert_eq!(made.singles(), &vec![single(date(2024, 1, 3), OccurrenceKind::Standalone)]);
    assert_eq!(made.clone(), made);
}

#[test]
fn create_names_the_first_rule_with_step_zero() {
    let mut bad = weekly(2, date(2024, 1, 1));
    bad.step = 0;
    let res = Lesson::create(
        LessonID(7),
        "Piano".to_string(),
        None,
        vec![weekly(1, date(2024, 1, 1)), bad, bad],
        vec![],
        AccountID(1),
    );
    assert_eq!(res, Err(ValidationError::ZeroStep { index: 1 }));
}

#[test]
fn create_names_the_first_rule_that_ends_before_it_starts() {
    let mut bad = weekly(2, date(2024, 1, 10));
    bad.end = Some(date(2024, 1, 9));
    let res = Lesson::create(
        LessonID(7),
        "Piano".to_string(),
        None,
        vec![bad],
        vec![],
        AccountID(1),
    );
    assert_eq!(res, Err(ValidationError::EndBeforeStart { index: 0 }));
}

#[test]
fn create_names_the_date_that_two_single_occurrences_share() {
    let res = Lesson::create(
        LessonID(7),
        "Piano".to_string(),
        None,
        vec![],
        vec![
            single(date(2024, 1, 1), OccurrenceKind::Standalone),
            single(date(2024, 1, 2), OccurrenceKind::Standalone),
            single(date(2024, 1, 3), OccurrenceKind::Standalone),
            single(date(2024, 1, 2), OccurrenceKind::CancellationOf(RepeatID(1), date(2024, 1, 2))),
            single(date(2024, 1, 1), OccurrenceKind::Standalone),
        ],
        AccountID(1),
    );
    assert_eq!(res, Err(ValidationError::DuplicateDate(date(2024, 1, 2))));
}

#[test]
fn create_looks_at_the_rules_before_the_single_occurrences() {
    let mut bad = weekly(2, date(2024, 1, 1));
    bad.step = 0;
    let res = Lesson::create(
        LessonID(7),
        "Piano".to_string(),
        None,
        vec![bad],
        vec![
            single(date(2024, 1, 1), OccurrenceKind::Standalone),
            single(date(2024, 1, 1), OccurrenceKind::Standalone),
        ],
        AccountID(1),
    );
    assert_eq!(res, Err(ValidationError::ZeroStep { index: 0 }));
}

#[test]
fn the_checks_accept_empty_lists() {
    assert_eq!(check_repeats(&vec![]), Ok(()));
    assert_eq!(check_singles(&vec![]), Ok(()));
}

#[test]
fn a_lesson_without_rules_and_single_occurrences_never_occurs() {
    let empty = lesson(vec![], vec![]);
    let mut day = date(2023, 12, 25);
    for _ in 0..400 {
        assert_eq!(empty.occurs_on(&day), None);
        day = next_day(day);
    }
}

fn next_day(day: Date) -> Date {
    Date::new(day.year(), day.month(), day.day() + 1)
        .or_else(|| Date::new(day.year(), day.month() + 1, 1))
        .or_else(|| Date::new(day.year() + 1, 1, 1))
        .unwrap()
}

#[test]
fn a_cancellation_suppresses_what_a_rule_produces() {
    let start = date(2024, 1, 1);
    let cancelled = date(2024, 1, 15);
    let l = lesson(
        vec![weekly(1, start)],
        vec![single(cancelled, OccurrenceKind::CancellationOf(RepeatID(1), cancelled))],
    );
    assert_eq!(l.occurs_on(&cancelled), None);
    assert_eq!(l.occurs_on(&date(2024, 1, 8)), Some(plain(date(2024, 1, 8))));
    assert_eq!(l.occurs_on(&date(2024, 1, 22)), Some(plain(date(2024, 1, 22))));
    assert_eq!(l.occurs_on(&date(2024, 1, 9)), None);
}

#[test]
fn a_monthly_lesson_from_the_31st_occurs_on_the_last_of_february() {
    let start = date(2024, 1, 31);
    let monthly = Repeat {
        id: RepeatID(1),
        start,
        unit: RepeatUnit::Monthly,
        step: 1,
        end: None,
    };
    let l = lesson(vec![monthly], vec![]);
    assert_eq!(l.occurs_on(&date(2024, 2, 29)), Some(plain(date(2024, 2, 29))));
    assert_eq!(l.occurs_on(&date(2024, 3, 31)), Some(plain(date(2024, 3, 31))));
    assert_eq!(l.occurs_on(&date(2024, 3, 29)), None);
}

#[test]
fn an_override_sets_what_it_holds_and_leaves_the_rest() {
    let day = date(2024, 1, 8);
    let l = lesson(
        vec![weekly(1, date(2024, 1, 1))],
        vec![SingleOccurrence {
            date: day,
            kind: OccurrenceKind::OverrideOf(RepeatID(1)),
            title: Some("Piano, with guest".to_string()),
            description: None,
        }],
    );
    assert_eq!(
        l.occurs_on(&day),
        Some(OccurrenceView {
            lesson_id: LessonID(7),
            date: day,
            title: "Piano, with guest".to_string(),
            description: Some("Room 2".to_string()),
        })
    );
}

#[test]
fn a_standalone_occurrence_shows_on_a_date_that_no_rule_produces() {
    let day = date(2024, 1, 4);
    let l = lesson(
        vec![weekly(1, date(2024, 1, 1))],
        vec![SingleOccurrence {
            date: day,
            kind: OccurrenceKind::Standalone,
            title: None,
            description: Some("Room 5".to_string()),
        }],
    );
    assert_eq!(
        l.occurs_on(&day),
        Some(OccurrenceView {
            lesson_id: LessonID(7),
            date: day,
            title: "Piano".to_string(),
            description: Some("Room 5".to_string()),
        })
    );
    assert_eq!(l.occurs_on(&date(2024, 1, 5)), None);
}

#[test]
fn two_rules_on_one_date_give_one_occurrence() {
    let l = lesson(
        vec![
            weekly(1, date(2024, 1, 1)),
            Repeat {
                id: RepeatID(2),
                start: date(2024, 1, 8),
                unit: RepeatUnit::Daily,
                step: 1,
                end: None,
            },
        ],
        vec![],
    );
    assert_eq!(l.occurs_on(&date(2024, 1, 8)), Some(plain(date(2024, 1, 8))));
}

#[test]
fn a_patch_with_null_clears_the_description_and_one_without_keeps_it() {
    let mut l = lesson(vec![], vec![]);
    assert_eq!(l.update(None, None, None, OptionalField::Absent), Ok(()));
    assert_eq!(l.description(), &Some("Room 2".to_string()));
    assert_eq!(l.update(None, None, None, OptionalField::Null), Ok(()));
    assert_eq!(l.description(), &None);
    assert_eq!(l.update(None, None, None, OptionalField::Absent), Ok(()));
    assert_eq!(l.description(), &None);
    assert_eq!(l.update(None, None, None, OptionalField::Value("Room 9".to_string())), Ok(()));
    assert_eq!(l.description(), &Some("Room 9".to_string()));
    assert_eq!(l.title(), "Piano");
}

#[test]
fn a_patch_replaces_each_list_as_a_whole() {
    let mut l = lesson(
        vec![weekly(1, date(2024, 1, 1)), weekly(2, date(2024, 1, 2))],
        vec![single(date(2024, 1, 3), OccurrenceKind::Standalone)],
    );
    let res = l.update(
        Some("Cello".to_string()),
        Some(vec![weekly(3, date(2024, 1, 5))]),
        None,
        OptionalField::Absent,
    );
    assert_eq!(res, Ok(()));
    assert_eq!(l.title(), "Cello");
    assert_eq!(l.repeats(), &vec![weekly(3, date(2024, 1, 5))]);
    assert_eq!(l.singles(), &vec![single(date(2024, 1, 3), OccurrenceKind::Standalone)]);
    assert_eq!(l.occurs_on(&date(2024, 1, 8)), None);
    assert!(l.occurs_on(&date(2024, 1, 12)).is_some());
    let res = l.update(None, None, Some(vec![]), OptionalField::Absent);
    assert_eq!(res, Ok(()));
    assert_eq!(l.singles(), &vec![]);
    assert_eq!(l.occurs_on(&date(2024, 1, 3)), None);
}

#[test]
fn a_patch_with_no_rules_leaves_no_occurrence_of_a_rule() {
    let mut l = lesson(vec![weekly(1, date(2024, 1, 1))], vec![]);
    assert!(l.occurs_on(&date(2024, 1, 8)).is_some());
    assert_eq!(l.update(None, Some(vec![]), None, OptionalField::Absent), Ok(()));
    assert_eq!(l.repeats(), &vec![]);
    assert_eq!(l.occurs_on(&date(2024, 1, 1)), None);
    assert_eq!(l.occurs_on(&date(2024, 1, 8)), None);
}

#[test]
fn a_patch_that_is_rejected_changes_nothing() {
    let mut l = lesson(vec![weekly(1, date(2024, 1, 1))], vec![]);
    let before = l.clone();
    let mut bad = weekly(2, date(2024, 1, 1));
    bad.step = 0;
    let res = l.update(
        Some("Cello".to_string()),
        Some(vec![bad]),
        Some(vec![]),
        OptionalField::Null,
    );
    assert_eq!(res, Err(ValidationError::ZeroStep { index: 0 }));
    assert_eq!(l, before);
    let res = l.update(
        Some("Cello".to_string()),
        None,
        Some(vec![
            single(date(2024, 2, 2), OccurrenceKind::Standalone),
            single(date(2024, 2, 2), OccurrenceKind::Standalone),
        ]),
        OptionalField::Null,
    );
    assert_eq!(res, Err(ValidationError::DuplicateDate(date(2024, 2, 2))));
    assert_eq!(l, before);
}

#[test]
fn a_validation_error_names_its_list() {
    assert_eq!(ValidationError::ZeroStep { index: 3 }.field(), "repeats");
    assert_eq!(ValidationError::EndBeforeStart { index: 0 }.field(), "repeats");
    assert_eq!(ValidationError::DuplicateDate(date(2024, 1, 1)).field(), "singles");
}
