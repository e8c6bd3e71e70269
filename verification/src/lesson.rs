//! Lessons, and the resolution of a lesson and a date to an occurrence.

use vstd::prelude::*;

use crate::account::AccountID;
use crate::date::Date;
use crate::repeat::Repeat;
use crate::repeat::RepeatFault;
use crate::single_occurrence::copy_singles;
use crate::single_occurrence::singles_view;
use crate::single_occurrence::SingleOccurrence;
use crate::single_occurrence::SpecSingleOccurrence;
use crate::text::copy_text;
use crate::text::text_view;

verus! {

/// The identity of a lesson.
#[derive(Clone, Copy, Debug, PartialEq, Eq, Structural, Hash)]
pub struct LessonID(pub u128);

/// Why the rules and single occurrences offered for a lesson are not
/// accepted.
#[derive(Clone, Copy, Debug, PartialEq, Eq, Structural, Hash)]
pub enum ValidationError {
    /// The recurrence rule at `index` of the list has a step of 0.
    ZeroStep { index: usize },
    /// The recurrence rule at `index` of the list ends before it starts.
    EndBeforeStart { index: usize },
    /// Two single occurrences are bound to this date.
    DuplicateDate(Date),
}

impl ValidationError {
    /// The name of the list that the error is about: `repeats` for a rule,
    /// `singles` for a single occurrence.
    pub open spec fn spec_field(&self) -> Seq<char> {
        match self {
            ValidationError::DuplicateDate(_) => "singles"@,
            _ => "repeats"@,
        }
    }

    /// The name of the list that the error is about.
    pub fn field(&self) -> (res: &'static str)
        ensures
            res@ == self.spec_field(),
    {
        match self {
            ValidationError::DuplicateDate(_) => "singles",
            _ => "repeats",
        }
    }
}

/// A lesson: what it is called, who owns it, and when it occurs.
#[derive(Debug, PartialEq, Eq)]
pub struct Lesson {
    pub(crate) id: LessonID,
    pub(crate) title: String,
    pub(crate) description: Option<String>,
    pub(crate) owner: AccountID,
    pub(crate) repeats: Vec<Repeat>,
    pub(crate) singles: Vec<SingleOccurrence>,
}

/// What a [`Lesson`] holds.
pub struct SpecLesson {
    /// The lesson's identity.
    pub id: LessonID,
    /// The lesson's title.
    pub title: Seq<char>,
    /// The lesson's description, if it has one.
    pub description: Option<Seq<char>>,
    /// The account that owns the lesson.
    pub owner: AccountID,
    /// The lesson's recurrence rules.
    pub repeats: Seq<Repeat>,
    /// The lesson's single occurrences.
    pub singles: Seq<SpecSingleOccurrence>,
}

/// One occurrence of a lesson on one date, as shown to a reader.
#[derive(Debug, PartialEq, Eq)]
pub struct OccurrenceView {
    /// The lesson that occurs.
    pub lesson_id: LessonID,
    /// The date on which it occurs.
    pub date: Date,
    /// The title of the occurrence.
    pub title: String,
    /// The description of the occurrence, if it has one.
    pub description: Option<String>,
}

/// What an [`OccurrenceView`] holds.
pub struct SpecOccurrence {
    /// The lesson that occurs.
    pub lesson_id: LessonID,
    /// The date on which it occurs.
    pub date: Date,
    /// The title of the occurrence.
    pub title: Seq<char>,
    /// The description of the occurrence, if it has one.
    pub description: Option<Seq<char>>,
}

impl View for OccurrenceView {
    type V = SpecOccurrence;

    open spec fn view(&self) -> SpecOccurrence {
        SpecOccurrence {
            lesson_id: self.lesson_id,
            date: self.date,
            title: self.title@,
            description: text_view(self.description),
        }
    }
}

/// What an optional occurrence holds.
pub open spec fn occurrence_view(occurrence: Option<OccurrenceView>) -> Option<SpecOccurrence> {
    match occurrence {
        Some(o) => Some(o@),
        None => None,
    }
}

/// A change to an optional text field: none, its removal, or a new value.
#[derive(Debug, PartialEq, Eq)]
pub enum OptionalField {
    /// The field is not mentioned: it stays as it is.
    Absent,
    /// The field is set to null: it is cleared.
    Null,
    /// The field is given a value.
    Value(String),
}

/// What an [`OptionalField`] holds.
pub enum SpecOptionalField {
    /// The field is not mentioned: it stays as it is.
    Absent,
    /// The field is set to null: it is cleared.
    Null,
    /// The field is given a value.
    Value(Seq<char>),
}

impl View for OptionalField {
    type V = SpecOptionalField;

    open spec fn view(&self) -> SpecOptionalField {
        match self {
            OptionalField::Absent => SpecOptionalField::Absent,
            OptionalField::Null => SpecOptionalField::Null,
            OptionalField::Value(s) => SpecOptionalField::Value(s@),
        }
    }
}

impl Clone for OptionalField {
    fn clone(&self) -> (res: Self)
        ensures
            res@ == self@,
    {
        match self {
            OptionalField::Absent => OptionalField::Absent,
            OptionalField::Null => OptionalField::Null,
            OptionalField::Value(text) => OptionalField::Value(text.clone()),
        }
    }
}

/// What an optional list of rules holds.
pub open spec fn repeats_option_view(repeats: Option<Vec<Repeat>>) -> Option<Seq<Repeat>> {
    match repeats {
        Some(r) => Some(r@),
        None => None,
    }
}

/// What an optional list of single occurrences holds.
pub open spec fn singles_option_view(singles: Option<Vec<SingleOccurrence>>) -> Option<
    Seq<SpecSingleOccurrence>,
> {
    match singles {
        Some(s) => Some(singles_view(s@)),
        None => None,
    }
}

/// Whether every rule of the list has a step of at least 1 and no end
/// before its start.
pub open spec fn repeats_valid(repeats: Seq<Repeat>) -> bool {
    forall|i: int| 0 <= i < repeats.len() ==> (#[trigger] repeats[i]).valid()
}

/// Whether no two single occurrences of the list are bound to one date.
pub open spec fn dates_distinct(singles: Seq<SpecSingleOccurrence>) -> bool {
    forall|i: int, j: int|
        0 <= i < j < singles.len() ==> (#[trigger] singles[i]).date != (#[trigger] singles[j]).date
}

/// Whether `error` names the first rule of the list that is not valid, and
/// what is wrong with it.
pub open spec fn is_first_repeat_fault(repeats: Seq<Repeat>, error: ValidationError) -> bool {
    match error {
        ValidationError::ZeroStep { index } => {
            &&& index < repeats.len()
            &&& repeats_valid(repeats.take(index as int))
            &&& repeats[index as int].fault() == Some(RepeatFault::ZeroStep)
        },
        ValidationError::EndBeforeStart { index } => {
            &&& index < repeats.len()
            &&& repeats_valid(repeats.take(index as int))
            &&& repeats[index as int].fault() == Some(RepeatFault::EndBeforeStart)
        },
        ValidationError::DuplicateDate(_) => false,
    }
}

/// Whether `error` names the date of the first single occurrence of the
/// list that is bound to the date of one before it.
pub open spec fn is_first_duplicate(
    singles: Seq<SpecSingleOccurrence>,
    error: ValidationError,
) -> bool {
    match error {
        ValidationError::DuplicateDate(date) => exists|i: int, j: int|
            {
                &&& 0 <= i < j < singles.len()
                &&& (#[trigger] singles[i]).date == date
                &&& (#[trigger] singles[j]).date == date
                &&& dates_distinct(singles.take(j))
            },
        _ => false,
    }
}

/// Whether `error` is what is wrong first with the two lists: the rules are
/// looked at before the single occurrences.
pub open spec fn is_first_fault(
    repeats: Seq<Repeat>,
    singles: Seq<SpecSingleOccurrence>,
    error: ValidationError,
) -> bool {
    if repeats_valid(repeats) {
        is_first_duplicate(singles, error)
    } else {
        is_first_repeat_fault(repeats, error)
    }
}

impl SpecLesson {
    /// What a lesson asks of its lists: valid rules, and at most one single
    /// occurrence for each date.
    pub open spec fn valid(self) -> bool {
        &&& repeats_valid(self.repeats)
        &&& dates_distinct(self.singles)
    }

    /// Whether the lesson has a single occurrence bound to `date`.
    pub open spec fn has_single_on(self, date: Date) -> bool {
        exists|i: int| 0 <= i < self.singles.len() && (#[trigger] self.singles[i]).date == date
    }

    /// The lesson's single occurrence bound to `date`, where it has one.
    pub open spec fn single_on(self, date: Date) -> SpecSingleOccurrence {
        self.singles[choose|i: int|
            0 <= i < self.singles.len() && (#[trigger] self.singles[i]).date == date]
    }

    /// Whether one of the lesson's rules produces an occurrence on `date`.
    pub open spec fn recurs_on(self, date: Date) -> bool {
        exists|i: int| 0 <= i < self.repeats.len() && (#[trigger] self.repeats[i]).recurs_on(date)
    }

    /// The occurrence that a rule of the lesson produces on `date`: it has
    /// the lesson's own title and description.
    pub open spec fn plain_occurrence(self, date: Date) -> SpecOccurrence {
        SpecOccurrence {
            lesson_id: self.id,
            date,
            title: self.title,
            description: self.description,
        }
    }

    /// The occurrence that the single occurrence `single` stands for: what
    /// the record sets comes first, and the lesson's own title and
    /// description stand in for what it leaves out.
    pub open spec fn merged_occurrence(self, single: SpecSingleOccurrence) -> SpecOccurrence {
        SpecOccurrence {
            lesson_id: self.id,
            date: single.date,
            title: match single.title {
                Some(title) => title,
                None => self.title,
            },
            description: match single.description {
                Some(description) => Some(description),
                None => self.description,
            },
        }
    }

    /// The occurrence of the lesson on `date`, if it has one. A single
    /// occurrence bound to the date decides alone: a cancellation leaves
    /// none, any other record gives its own. Without such a record the
    /// lesson occurs where one of its rules produces the date.
    pub open spec fn occurrence_on(self, date: Date) -> Option<SpecOccurrence> {
        if self.has_single_on(date) {
            let single = self.single_on(date);
            if single.is_cancellation() {
                None
            } else {
                Some(self.merged_occurrence(single))
            }
        } else if self.recurs_on(date) {
            Some(self.plain_occurrence(date))
        } else {
            None
        }
    }

    /// The lesson after a partial update: each part that is given replaces
    /// the lesson's own as a whole, each part that is not stays.
    pub open spec fn patched(
        self,
        title: Option<Seq<char>>,
        repeats: Option<Seq<Repeat>>,
        singles: Option<Seq<SpecSingleOccurrence>>,
        description: SpecOptionalField,
    ) -> SpecLesson {
        SpecLesson {
            id: self.id,
            title: match title {
                Some(title) => title,
                None => self.title,
            },
            description: match description {
                SpecOptionalField::Absent => self.description,
                SpecOptionalField::Null => None,
                SpecOptionalField::Value(description) => Some(description),
            },
            owner: self.owner,
            repeats: match repeats {
                Some(repeats) => repeats,
                None => self.repeats,
            },
            singles: match singles {
                Some(singles) => singles,
                None => self.singles,
            },
        }
    }
}

/// The list that an optional list stands for in a check: itself, or the
/// empty list.
pub open spec fn given<T>(list: Option<Seq<T>>) -> Seq<T> {
    match list {
        Some(list) => list,
        None => Seq::empty(),
    }
}

/// Looks for the first rule that is not valid.
pub fn check_repeats(repeats: &Vec<Repeat>) -> (res: Result<(), ValidationError>)
    ensures
        res is Ok <==> repeats_valid(repeats@),
        res matches Err(error) ==> is_first_repeat_fault(repeats@, error),
{
    let mut index: usize = 0;
    while index < repeats.len()
        invariant
            index <= repeats.len(),
            repeats_valid(repeats@.take(index as int)),
        decreases repeats.len() - index,
    {
        match repeats[index].check() {
            Some(RepeatFault::ZeroStep) => {
                return Err(ValidationError::ZeroStep { index });
            },
            Some(RepeatFault::EndBeforeStart) => {
                return Err(ValidationError::EndBeforeStart { index });
            },
            None => {},
        }
        assert forall|i: int| 0 <= i < index + 1 implies (#[trigger] repeats@.take(
            index + 1,
        )[i]).valid() by {
            if i < index {
                assert(repeats@.take(index as int)[i].valid());
            }
        }
        index = index + 1;
    }
    assert(repeats@.take(index as int) =~= repeats@);
    Ok(())
}

/// Looks for the first single occurrence that is bound to the date of one
/// before it.
pub fn check_singles(singles: &Vec<SingleOccurrence>) -> (res: Result<(), ValidationError>)
    ensures
        res is Ok <==> dates_distinct(singles_view(singles@)),
        res matches Err(error) ==> is_first_duplicate(singles_view(singles@), error),
{
    let ghost view = singles_view(singles@);
    let mut j: usize = 0;
    while j < singles.len()
        invariant
            j <= singles.len(),
            view == singles_view(singles@),
            dates_distinct(view.take(j as int)),
        decreases singles.len() - j,
    {
        let mut i: usize = 0;
        while i < j
            invariant
                i <= j < singles.len(),
                view == singles_view(singles@),
                dates_distinct(view.take(j as int)),
                forall|k: int| 0 <= k < i ==> (#[trigger] view[k]).date != view[j as int].date,
            decreases j - i,
        {
            if singles[i].date == singles[j].date {
                proof {
                    let date = singles@[j as int].date;
                    assert(view[i as int].date == date && view[j as int].date == date);
                    assert(is_first_duplicate(view, ValidationError::DuplicateDate(date)));
                    assert(!dates_distinct(view));
                }
                return Err(ValidationError::DuplicateDate(singles[j].date));
            }
            i = i + 1;
        }
        assert forall|a: int, b: int| 0 <= a < b < j + 1 implies (#[trigger] view.take(
            j + 1,
        )[a]).date != (#[trigger] view.take(j + 1)[b]).date by {
            if b < j {
                assert(view.take(j as int)[a].date != view.take(j as int)[b].date);
            }
        }
        j = j + 1;
    }
    assert(view.take(j as int) =~= view);
    Ok(())
}

/// A copy of a list of rules.
pub fn copy_repeats(repeats: &Vec<Repeat>) -> (res: Vec<Repeat>)
    ensures
        res@ == repeats@,
{
    let mut res: Vec<Repeat> = Vec::new();
    let mut i: usize = 0;
    while i < repeats.len()
        invariant
            i <= repeats.len(),
            res@ == repeats@.take(i as int),
        decreases repeats.len() - i,
    {
        res.push(repeats[i]);
        assert(res@ =~= repeats@.take(i + 1));
        i = i + 1;
    }
    assert(repeats@.take(i as int) =~= repeats@);
    res
}

impl Clone for Lesson {
    fn clone(&self) -> (res: Self)
        ensures
            res@ == self@,
    {
        proof {
            use_type_invariant(self);
        }
        Lesson {
            id: self.id,
            title: self.title.clone(),
            description: copy_text(&self.description),
            owner: self.owner,
            repeats: copy_repeats(&self.repeats),
            singles: copy_singles(&self.singles),
        }
    }
}

impl Lesson {
    /// What the lesson holds.
    pub open(crate) spec fn view(&self) -> SpecLesson {
        SpecLesson {
            id: self.id,
            title: self.title@,
            description: text_view(self.description),
            owner: self.owner,
            repeats: self.repeats@,
            singles: singles_view(self.singles@),
        }
    }

    /// What every lesson in executable code satisfies.
    #[verifier::type_invariant]
    pub open(crate) spec fn valid(self) -> bool {
        self@.valid()
    }

    /// The lesson's identity.
    pub fn id(&self) -> (res: LessonID)
        ensures
            res == self@.id,
    {
        self.id
    }

    /// The lesson's title.
    pub fn title(&self) -> (res: &String)
        ensures
            res@ == self@.title,
    {
        &self.title
    }

    /// The lesson's description, if it has one.
    pub fn description(&self) -> (res: &Option<String>)
        ensures
            text_view(*res) == self@.description,
    {
        &self.description
    }

    /// The account that owns the lesson.
    pub fn owner(&self) -> (res: AccountID)
        ensures
            res == self@.owner,
    {
        self.owner
    }

    /// The lesson's recurrence rules, all of them valid.
    pub fn repeats(&self) -> (res: &Vec<Repeat>)
        ensures
            res@ == self@.repeats,
            repeats_valid(res@),
    {
        proof {
            use_type_invariant(self);
        }
        &self.repeats
    }

    /// The lesson's single occurrences, no two of them bound to one date.
    pub fn singles(&self) -> (res: &Vec<SingleOccurrence>)
        ensures
            singles_view(res@) == self@.singles,
            dates_distinct(singles_view(res@)),
    {
        proof {
            use_type_invariant(self);
        }
        &self.singles
    }

    /// A lesson of the given parts, if the rules are valid and no two single
    /// occurrences are bound to one date.
    pub fn create(
        id: LessonID,
        title: String,
        description: Option<String>,
        repeats: Vec<Repeat>,
        singles: Vec<SingleOccurrence>,
        owner: AccountID,
    ) -> (res: Result<Lesson, ValidationError>)
        ensures
            res is Ok <==> repeats_valid(repeats@) && dates_distinct(singles_view(singles@)),
            res matches Ok(lesson) ==> lesson@ == (SpecLesson {
                id,
                title: title@,
                description: text_view(description),
                owner,
                repeats: repeats@,
                singles: singles_view(singles@),
            }),
            res matches Err(error) ==> is_first_fault(repeats@, singles_view(singles@), error),
    {
        match check_repeats(&repeats) {
            Err(error) => {
                return Err(error);
            },
            Ok(()) => {},
        }
        match check_singles(&singles) {
            Err(error) => {
                return Err(error);
            },
            Ok(()) => {},
        }
        Ok(Lesson { id, title, description, owner, repeats, singles })
    }

    /// Applies a partial update. Each part that is given replaces the
    /// lesson's own as a whole; a part that is not given stays. Where a
    /// given list is not accepted, nothing changes.
    pub fn update(
        &mut self,
        title: Option<String>,
        repeats: Option<Vec<Repeat>>,
        singles: Option<Vec<SingleOccurrence>>,
        description: OptionalField,
    ) -> (res: Result<(), ValidationError>)
        ensures
            res is Ok <==> repeats_valid(given(repeats_option_view(repeats))) && dates_distinct(
                given(singles_option_view(singles)),
            ),
            res is Ok ==> final(self)@ == old(self)@.patched(
                text_view(title),
                repeats_option_view(repeats),
                singles_option_view(singles),
                description@,
            ),
            res matches Err(error) ==> *final(self) == *old(self) && is_first_fault(
                given(repeats_option_view(repeats)),
                given(singles_option_view(singles)),
                error,
            ),
    {
        proof {
            use_type_invariant(&*self);
        }
        match &repeats {
            Some(list) => {
                match check_repeats(list) {
                    Err(error) => {
                        return Err(error);
                    },
                    Ok(()) => {},
                }
            },
            None => {},
        }
        match &singles {
            Some(list) => {
                match check_singles(list) {
                    Err(error) => {
                        return Err(error);
                    },
                    Ok(()) => {},
                }
            },
            None => {},
        }
        match title {
            Some(title) => {
                self.title = title;
            },
            None => {},
        }
        match description {
            OptionalField::Absent => {},
            OptionalField::Null => {
                self.description = None;
            },
            OptionalField::Value(description) => {
                self.description = Some(description);
            },
        }
        match repeats {
            Some(repeats) => {
                self.repeats = repeats;
            },
            None => {},
        }
        match singles {
            Some(singles) => {
                self.singles = singles;
            },
            None => {},
        }
        Ok(())
    }

    /// The occurrence of the lesson on `date`, if it has one.
    pub fn occurs_on(&self, date: &Date) -> (res: Option<OccurrenceView>)
        ensures
            occurrence_view(res) == self@.occurrence_on(*date),
    {
        proof {
            use_type_invariant(self);
        }
        let ghost singles = self@.singles;
        let mut i: usize = 0;
        while i < self.singles.len()
            invariant
                i <= self.singles.len(),
                singles == singles_view(self.singles@),
                singles == self@.singles,
                dates_distinct(singles),
                forall|k: int| 0 <= k < i ==> (#[trigger] singles[k]).date != *date,
            decreases self.singles.len() - i,
        {
            let single = &self.singles[i];
            if single.date == *date {
                proof {
                    assert(singles[i as int] == single@);
                    lemma_single_at(self@, i as int);
                }
                if single.is_cancellation() {
                    return None;
                }
                let title = match &single.title {
                    Some(title) => title.clone(),
                    None => self.title.clone(),
                };
                let description = match &single.description {
                    Some(description) => Some(description.clone()),
                    None => copy_text(&self.description),
                };
                return Some(
                    OccurrenceView { lesson_id: self.id, date: single.date, title, description },
                );
            }
            i = i + 1;
        }
        assert(!self@.has_single_on(*date));
        let mut k: usize = 0;
        while k < self.repeats.len()
            invariant
                k <= self.repeats.len(),
                !self@.has_single_on(*date),
                forall|n: int| 0 <= n < k ==> !(#[trigger] self.repeats@[n]).recurs_on(*date),
            decreases self.repeats.len() - k,
        {
            if self.repeats[k].matches(date) {
                assert(self@.repeats[k as int].recurs_on(*date));
                return Some(
                    OccurrenceView {
                        lesson_id: self.id,
                        date: *date,
                        title: self.title.clone(),
                        description: copy_text(&self.description),
                    },
                );
            }
            k = k + 1;
        }
        None
    }
}


/// Where no two single occurrences share a date, the one at a place is
/// the lesson's single occurrence on its date.
pub proof fn lemma_single_at(lesson: SpecLesson, i: int)
    requires
        dates_distinct(lesson.singles),
        0 <= i < lesson.singles.len(),
    ensures
        lesson.has_single_on(lesson.singles[i].date),
        lesson.single_on(lesson.singles[i].date) == lesson.singles[i],
{
    let date = lesson.singles[i].date;
    assert(lesson.has_single_on(date));
    let chosen = choose|k: int|
        0 <= k < lesson.singles.len() && (#[trigger] lesson.singles[k]).date == date;
    if chosen < i {
        assert(lesson.singles[chosen].date != lesson.singles[i].date);
    }
    if i < chosen {
        assert(lesson.singles[i].date != lesson.singles[chosen].date);
    }
}

/// A lesson without rules and without single occurrences occurs on no
/// date.
pub proof fn lemma_empty_lesson_never_occurs(lesson: SpecLesson, date: Date)
    requires
        lesson.repeats.len() == 0,
        lesson.singles.len() == 0,
    ensures
        lesson.occurrence_on(date) is None,
{
}

/// A cancellation decides its date: the lesson does not occur on it,
/// whatever the lesson's rules produce.
pub proof fn lemma_cancellation_suppresses(lesson: SpecLesson, i: int)
    requires
        lesson.valid(),
        0 <= i < lesson.singles.len(),
        lesson.singles[i].is_cancellation(),
    ensures
        lesson.occurrence_on(lesson.singles[i].date) is None,
{
    lemma_single_at(lesson, i);
}

/// A single occurrence that is no cancellation decides its date too: the
/// lesson occurs on it, with what the record sets over the lesson's own.
pub proof fn lemma_single_occurrence_shows(lesson: SpecLesson, i: int)
    requires
        lesson.valid(),
        0 <= i < lesson.singles.len(),
        !lesson.singles[i].is_cancellation(),
    ensures
        lesson.occurrence_on(lesson.singles[i].date) == Some(
            lesson.merged_occurrence(lesson.singles[i]),
        ),
{
    lemma_single_at(lesson, i);
}

/// On a date that no single occurrence is bound to, the lesson occurs
/// where one of its rules produces the date, and then as itself.
pub proof fn lemma_rule_shows(lesson: SpecLesson, i: int, date: Date)
    requires
        0 <= i < lesson.repeats.len(),
        lesson.repeats[i].recurs_on(date),
        !lesson.has_single_on(date),
    ensures
        lesson.occurrence_on(date) == Some(lesson.plain_occurrence(date)),
{
}

/// A partial update that sets the description to null clears it, and one
/// that leaves the description out keeps it: the two differ wherever the
/// lesson had a description.
pub proof fn lemma_patch_description(
    lesson: SpecLesson,
    title: Option<Seq<char>>,
    repeats: Option<Seq<Repeat>>,
    singles: Option<Seq<SpecSingleOccurrence>>,
    text: Seq<char>,
)
    ensures
        lesson.patched(title, repeats, singles, SpecOptionalField::Null).description is None,
        lesson.patched(title, repeats, singles, SpecOptionalField::Absent).description
            == lesson.description,
        lesson.patched(title, repeats, singles, SpecOptionalField::Value(text)).description
            == Some(text),
        lesson.description is Some ==> lesson.patched(
            title,
            repeats,
            singles,
            SpecOptionalField::Null,
        ) != lesson.patched(title, repeats, singles, SpecOptionalField::Absent),
{
}

/// A partial update keeps the lesson's identity and owner, and each list
/// that it gives replaces the lesson's own as a whole.
pub proof fn lemma_patch_replaces(
    lesson: SpecLesson,
    title: Option<Seq<char>>,
    repeats: Option<Seq<Repeat>>,
    singles: Option<Seq<SpecSingleOccurrence>>,
    description: SpecOptionalField,
)
    ensures
        lesson.patched(title, repeats, singles, description).id == lesson.id,
        lesson.patched(title, repeats, singles, description).owner == lesson.owner,
        repeats matches Some(list) ==> lesson.patched(title, repeats, singles, description).repeats
            == list,
        repeats is None ==> lesson.patched(title, repeats, singles, description).repeats
            == lesson.repeats,
        singles matches Some(list) ==> lesson.patched(title, repeats, singles, description).singles
            == list,
        singles is None ==> lesson.patched(title, repeats, singles, description).singles
            == lesson.singles,
        lesson.valid() && repeats_valid(given(repeats)) && dates_distinct(given(singles))
            ==> lesson.patched(title, repeats, singles, description).valid(),
{
}

/// After a partial update that gives an empty list of rules, the lesson has
/// no rule left, and occurs on no date but those that a single occurrence
/// is bound to.
pub proof fn lemma_patch_empty_repeats(
    lesson: SpecLesson,
    title: Option<Seq<char>>,
    singles: Option<Seq<SpecSingleOccurrence>>,
    description: SpecOptionalField,
    date: Date,
)
    ensures
        ({
            let after = lesson.patched(title, Some(Seq::empty()), singles, description);
            &&& after.repeats.len() == 0
            &&& !after.recurs_on(date)
            &&& !after.has_single_on(date) ==> after.occurrence_on(date) is None
        }),
{
}

} // verus!
