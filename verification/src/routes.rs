//! The entry points of the service. Each one that touches a lesson runs the
//! access check first and the operation after it, and tells a caller whom
//! the check refuses nothing but that.

use vstd::prelude::*;

use crate::account::AccountID;
use crate::date::Date;
use crate::error::APIError;
use crate::lesson::copy_repeats;
use crate::lesson::dates_distinct;
use crate::lesson::given;
use crate::lesson::is_first_fault;
use crate::lesson::repeats_option_view;
use crate::lesson::repeats_valid;
use crate::lesson::singles_option_view;
use crate::lesson::Lesson;
use crate::lesson::LessonID;
use crate::lesson::OccurrenceView;
use crate::lesson::OptionalField;
use crate::lesson::SpecLesson;
use crate::permission::PermissionType;
use crate::repeat::Repeat;
use crate::single_occurrence::copy_singles;
use crate::single_occurrence::SingleOccurrence;
use crate::store::occurrences_view;
use crate::store::LessonStore;
use crate::text::copy_text;
use crate::text::text_view;

verus! {

/// What a request to create a lesson holds. A list that is left out
/// stands for the empty list.
#[derive(Debug)]
pub struct LessonCreateRequest {
    /// The lesson's title.
    pub title: String,
    /// The lesson's description, if it has one.
    pub description: Option<String>,
    /// The lesson's recurrence rules.
    pub repeats: Option<Vec<Repeat>>,
    /// The lesson's single occurrences.
    pub singles: Option<Vec<SingleOccurrence>>,
}

/// What a request to change a lesson holds. Each part that is left out
/// stays as it is.
#[derive(Debug)]
pub struct LessonUpdateRequest {
    /// The new title.
    pub title: Option<String>,
    /// What becomes of the description.
    pub description: OptionalField,
    /// The rules that replace the lesson's own.
    pub repeats: Option<Vec<Repeat>>,
    /// The single occurrences that replace the lesson's own.
    pub singles: Option<Vec<SingleOccurrence>>,
}

impl Clone for LessonUpdateRequest {
    fn clone(&self) -> (res: Self)
        ensures
            text_view(res.title) == text_view(self.title),
            res.description@ == self.description@,
            repeats_option_view(res.repeats) == repeats_option_view(self.repeats),
            singles_option_view(res.singles) == singles_option_view(self.singles),
    {
        LessonUpdateRequest {
            title: copy_text(&self.title),
            description: self.description.clone(),
            repeats: match &self.repeats {
                Some(repeats) => Some(copy_repeats(repeats)),
                None => None,
            },
            singles: match &self.singles {
                Some(singles) => Some(copy_singles(singles)),
                None => None,
            },
        }
    }
}

impl Default for LessonUpdateRequest {
    fn default() -> (res: LessonUpdateRequest)
        ensures
            res.title is None,
            res.description is Absent,
            res.repeats is None,
            res.singles is None,
    {
        LessonUpdateRequest {
            title: None,
            description: OptionalField::Absent,
            repeats: None,
            singles: None,
        }
    }
}

/// What a query for the occurrences of one day holds.
#[derive(Clone, Copy, Debug)]
pub struct GetLessonsQuery {
    /// The day that is asked for.
    pub date: Date,
}

/// Whether `account` passes the access check of the store for the lesson `id` with
/// the level `required`.
pub open spec fn passes_check(
    store: &LessonStore,
    account: AccountID,
    id: LessonID,
    required: PermissionType,
) -> bool {
    store@.contains(id) && store@.level(account, id).covers(required)
}

/// The lesson `lesson_id`, for an account that may read it.
pub fn get_lesson(store: &LessonStore, account_id: AccountID, lesson_id: LessonID) -> (res: Result<
    Lesson,
    APIError,
>)
    ensures
        res is Ok <==> passes_check(store, account_id, lesson_id, PermissionType::Read),
        res matches Ok(lesson) ==> lesson@ == store@.lesson(lesson_id),
        res matches Err(error) ==> error == APIError::AccessDenied,
{
    let capability = match store.check(account_id, lesson_id, PermissionType::Read) {
        Err(error) => {
            return Err(APIError::from(error));
        },
        Ok(capability) => capability,
    };
    match store.by_id(&capability) {
        Err(error) => Err(APIError::from(error)),
        Ok(lesson) => Ok(lesson.clone()),
    }
}

/// Creates the lesson that the request describes, under the identity `id`
/// and owned by `account_id`, who is granted read-write for it. Returns the
/// lesson as it is stored.
pub fn put_lesson(
    store: &mut LessonStore,
    id: LessonID,
    lesson: LessonCreateRequest,
    account_id: AccountID,
) -> (res: Result<Lesson, APIError>)
    ensures
        res is Ok <==> {
            &&& repeats_valid(given(repeats_option_view(lesson.repeats)))
            &&& dates_distinct(given(singles_option_view(lesson.singles)))
            &&& !old(store)@.contains(id)
        },
        res matches Ok(created) ==> {
            &&& created@ == (SpecLesson {
                id,
                title: lesson.title@,
                description: text_view(lesson.description),
                owner: account_id,
                repeats: given(repeats_option_view(lesson.repeats)),
                singles: given(singles_option_view(lesson.singles)),
            })
            &&& final(store)@.lessons() == old(store)@.lessons().insert(id, created@)
            &&& forall|account: AccountID, other: LessonID| #[trigger]
                final(store)@.level(account, other) == if other == id && account == account_id {
                    PermissionType::ReadWrite
                } else {
                    old(store)@.level(account, other)
                }
        },
        res matches Err(error) ==> {
            &&& *final(store) == *old(store)
            &&& match error {
                APIError::Validation(fault) => is_first_fault(
                    given(repeats_option_view(lesson.repeats)),
                    given(singles_option_view(lesson.singles)),
                    fault,
                ),
                APIError::LessonAlreadyPresent => {
                    &&& repeats_valid(given(repeats_option_view(lesson.repeats)))
                    &&& dates_distinct(given(singles_option_view(lesson.singles)))
                },
                _ => false,
            }
        },
{
    let LessonCreateRequest { title, description, repeats, singles } = lesson;
    let repeats = match repeats {
        Some(repeats) => repeats,
        None => Vec::new(),
    };
    let singles = match singles {
        Some(singles) => singles,
        None => Vec::new(),
    };
    proof {
        assert(crate::single_occurrence::singles_view(singles@) =~= given(
            singles_option_view(lesson.singles),
        ));
        assert(repeats@ =~= given(repeats_option_view(lesson.repeats)));
    }
    match store.create(id, title, description, repeats, singles, account_id) {
        Err(error) => Err(APIError::from(error)),
        Ok(created) => Ok(created),
    }
}

/// Applies the partial update `patch` to the lesson `lesson_id`, for an
/// account that may change it: as a whole or not at all.
pub fn patch_lesson(
    store: &mut LessonStore,
    account_id: AccountID,
    lesson_id: LessonID,
    patch: LessonUpdateRequest,
) -> (res: Result<(), APIError>)
    ensures
        res is Ok <==> {
            &&& passes_check(old(store), account_id, lesson_id, PermissionType::ReadWrite)
            &&& repeats_valid(given(repeats_option_view(patch.repeats)))
            &&& dates_distinct(given(singles_option_view(patch.singles)))
        },
        res is Ok ==> {
            &&& final(store)@.lessons() == old(store)@.lessons().insert(
                lesson_id,
                old(store)@.lesson(lesson_id).patched(
                    text_view(patch.title),
                    repeats_option_view(patch.repeats),
                    singles_option_view(patch.singles),
                    patch.description@,
                ),
            )
            &&& forall|account: AccountID, other: LessonID| #[trigger]
                final(store)@.level(account, other) == old(store)@.level(account, other)
        },
        res matches Err(error) ==> {
            &&& *final(store) == *old(store)
            &&& match error {
                APIError::AccessDenied => !passes_check(
                    old(store),
                    account_id,
                    lesson_id,
                    PermissionType::ReadWrite,
                ),
                APIError::Validation(fault) => {
                    &&& passes_check(old(store), account_id, lesson_id, PermissionType::ReadWrite)
                    &&& is_first_fault(
                        given(repeats_option_view(patch.repeats)),
                        given(singles_option_view(patch.singles)),
                        fault,
                    )
                },
                _ => false,
            }
        },
{
    let capability = match store.check(account_id, lesson_id, PermissionType::ReadWrite) {
        Err(error) => {
            return Err(APIError::from(error));
        },
        Ok(capability) => capability,
    };
    let LessonUpdateRequest { title, description, repeats, singles } = patch;
    match store.update(&capability, title, repeats, singles, description) {
        Err(error) => Err(APIError::from(error)),
        Ok(()) => Ok(()),
    }
}

/// Removes the lesson `lesson_id`, with all that belongs to it, for an
/// account that may change it.
pub fn delete_lesson(store: &mut LessonStore, account_id: AccountID, lesson_id: LessonID) -> (res:
    Result<(), APIError>)
    ensures
        res is Ok <==> passes_check(old(store), account_id, lesson_id, PermissionType::ReadWrite),
        res is Ok ==> {
            &&& final(store)@.lessons() == old(store)@.lessons().remove(lesson_id)
            &&& forall|account: AccountID, other: LessonID| #[trigger]
                final(store)@.level(account, other) == if other == lesson_id {
                    PermissionType::NoAccess
                } else {
                    old(store)@.level(account, other)
                }
        },
        res matches Err(error) ==> *final(store) == *old(store) && error == APIError::AccessDenied,
{
    let capability = match store.check(account_id, lesson_id, PermissionType::ReadWrite) {
        Err(error) => {
            return Err(APIError::from(error));
        },
        Ok(capability) => capability,
    };
    match store.delete(&capability) {
        Err(error) => Err(APIError::from(error)),
        Ok(()) => Ok(()),
    }
}

/// The occurrences on the day of the query of the lessons that
/// `account_id` may read, in the order of the lessons' identities.
pub fn get_lessons(store: &LessonStore, query: GetLessonsQuery, account_id: AccountID) -> (res:
    Vec<OccurrenceView>)
    ensures
        store@.is_listing(account_id, query.date, occurrences_view(res@)),
{
    let GetLessonsQuery { date } = query;
    store.for_date(account_id, &date)
}

} // verus!
