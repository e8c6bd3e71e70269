//! The lessons that exist, with the levels that accounts hold for them: the
//! access check that every operation passes first, and the operations
//! themselves.

use vstd::prelude::*;

use crate::account::AccountID;
use crate::date::Date;
use crate::lesson::dates_distinct;
use crate::lesson::given;
use crate::lesson::is_first_fault;
use crate::lesson::repeats_option_view;
use crate::lesson::repeats_valid;
use crate::lesson::singles_option_view;
use crate::lesson::check_repeats;
use crate::lesson::check_singles;
use crate::lesson::Lesson;
use crate::lesson::LessonID;
use crate::lesson::OccurrenceView;
use crate::lesson::OptionalField;
use crate::lesson::SpecLesson;
use crate::lesson::SpecOccurrence;
use crate::lesson::SpecOptionalField;
use crate::lesson::ValidationError;
use crate::permission::AuthzError;
use crate::permission::Capability;
use crate::permission::Grant;
use crate::permission::PermissionType;
use crate::repeat::Repeat;
use crate::single_occurrence::singles_view;
use crate::single_occurrence::SingleOccurrence;
use crate::single_occurrence::SpecSingleOccurrence;
use crate::text::text_view;

verus! {

/// A lesson of the store with the levels granted for it.
#[derive(Debug)]
pub struct Entry {
    pub(crate) lesson: Lesson,
    pub(crate) grants: Vec<Grant>,
}

/// What an [`Entry`] holds.
pub struct SpecEntry {
    /// The lesson.
    pub lesson: SpecLesson,
    /// The levels granted for the lesson, one for each account at most.
    pub grants: Seq<Grant>,
}

/// Whether no two grants of the list are for one account.
pub open spec fn accounts_distinct(grants: Seq<Grant>) -> bool {
    forall|i: int, j: int|
        0 <= i < j < grants.len() ==> (#[trigger] grants[i]).account != (#[trigger] grants[j]).account
}

impl SpecEntry {
    /// What the store asks of an entry: a valid lesson, and at most one
    /// grant for each account.
    pub open spec fn valid(self) -> bool {
        &&& self.lesson.valid()
        &&& accounts_distinct(self.grants)
    }

    /// Whether a level was granted to `account`.
    pub open spec fn has_grant(self, account: AccountID) -> bool {
        exists|i: int| 0 <= i < self.grants.len() && (#[trigger] self.grants[i]).account == account
    }

    /// The level that was granted to `account`: no access where none was.
    pub open spec fn granted(self, account: AccountID) -> PermissionType {
        if self.has_grant(account) {
            self.grants[choose|i: int|
                0 <= i < self.grants.len() && (#[trigger] self.grants[i]).account == account].kind
        } else {
            PermissionType::NoAccess
        }
    }

    /// The level that `account` holds for the lesson: read-write for the
    /// lesson's owner, and what was granted for any other account.
    pub open spec fn level(self, account: AccountID) -> PermissionType {
        if account == self.lesson.owner {
            PermissionType::ReadWrite
        } else {
            self.granted(account)
        }
    }
}

/// What a [`LessonStore`] holds: its entries, in the order of the lessons'
/// identities.
pub struct SpecStore {
    /// The entries.
    pub entries: Seq<SpecEntry>,
}

impl SpecStore {
    /// What every store satisfies: valid entries, in the strict order of
    /// their lessons' identities.
    pub open spec fn valid(self) -> bool {
        &&& forall|i: int| 0 <= i < self.entries.len() ==> (#[trigger] self.entries[i]).valid()
        &&& forall|i: int, j: int|
            0 <= i < j < self.entries.len() ==> (#[trigger] self.entries[i]).lesson.id.0 < (
            #[trigger] self.entries[j]).lesson.id.0
    }

    /// Whether the store has a lesson of the identity `id`.
    pub open spec fn contains(self, id: LessonID) -> bool {
        exists|i: int| 0 <= i < self.entries.len() && (#[trigger] self.entries[i]).lesson.id == id
    }

    /// The place of the lesson `id` among the entries.
    pub open spec fn position(self, id: LessonID) -> int {
        choose|i: int| 0 <= i < self.entries.len() && (#[trigger] self.entries[i]).lesson.id == id
    }

    /// The lesson of the identity `id`, where the store has it.
    pub open spec fn lesson(self, id: LessonID) -> SpecLesson {
        self.entries[self.position(id)].lesson
    }

    /// The lessons of the store, by their identities.
    pub open spec fn lessons(self) -> Map<LessonID, SpecLesson> {
        Map::new(|id: LessonID| self.contains(id), |id: LessonID| self.lesson(id))
    }

    /// The level that `account` holds for the lesson `id`: no access where
    /// the store has no such lesson.
    pub open spec fn level(self, account: AccountID, id: LessonID) -> PermissionType {
        if self.contains(id) {
            self.entries[self.position(id)].level(account)
        } else {
            PermissionType::NoAccess
        }
    }

    /// Whether a query of `account` for `date` shows the lesson `id`: the
    /// store has it, the account may read it, and it occurs on the date.
    pub open spec fn shows(self, account: AccountID, date: Date, id: LessonID) -> bool {
        &&& self.contains(id)
        &&& self.level(account, id).covers(PermissionType::Read)
        &&& self.lesson(id).occurrence_on(date) is Some
    }

    /// Whether `listing` is the answer to a query of `account` for `date`:
    /// the occurrences on that date of the lessons that the account may
    /// read, each lesson once, in the order of the lessons' identities.
    pub open spec fn is_listing(
        self,
        account: AccountID,
        date: Date,
        listing: Seq<SpecOccurrence>,
    ) -> bool {
        &&& forall|i: int, j: int|
            0 <= i < j < listing.len() ==> (#[trigger] listing[i]).lesson_id.0 < (
            #[trigger] listing[j]).lesson_id.0
        &&& forall|i: int|
            0 <= i < listing.len() ==> {
                &&& self.shows(account, date, (#[trigger] listing[i]).lesson_id)
                &&& self.lesson(listing[i].lesson_id).occurrence_on(date) == Some(listing[i])
            }
        &&& forall|id: LessonID| #[trigger]
            self.shows(account, date, id) ==> exists|i: int|
                0 <= i < listing.len() && (#[trigger] listing[i]).lesson_id == id
    }
}

/// In a valid store, the entry at a place is the one that the store has
/// for the identity of its lesson.
pub proof fn lemma_entry_at(store: SpecStore, i: int)
    requires
        store.valid(),
        0 <= i < store.entries.len(),
    ensures
        store.contains(store.entries[i].lesson.id),
        store.position(store.entries[i].lesson.id) == i,
        store.lesson(store.entries[i].lesson.id) == store.entries[i].lesson,
        forall|account: AccountID| #[trigger]
            store.level(account, store.entries[i].lesson.id) == store.entries[i].level(account),
{
    let id = store.entries[i].lesson.id;
    let p = store.position(id);
    if p < i {
        assert(store.entries[p].lesson.id.0 < store.entries[i].lesson.id.0);
    }
    if i < p {
        assert(store.entries[i].lesson.id.0 < store.entries[p].lesson.id.0);
    }
}

/// Whether the lesson of `entry` belongs at the place `p` of the store:
/// after the lessons of lower identity and before those of higher identity.
spec fn fits_at(store: SpecStore, p: int, entry: SpecEntry) -> bool {
    &&& 0 <= p <= store.entries.len()
    &&& forall|i: int|
        0 <= i < p ==> (#[trigger] store.entries[i]).lesson.id.0 < entry.lesson.id.0
    &&& forall|i: int|
        p <= i < store.entries.len() ==> entry.lesson.id.0 < (
        #[trigger] store.entries[i]).lesson.id.0
}

/// An entry put at the place where it belongs adds its lesson to the
/// store, with its levels, and changes nothing else.
proof fn lemma_insert(store: SpecStore, p: int, entry: SpecEntry)
    requires
        store.valid(),
        entry.valid(),
        fits_at(store, p, entry),
    ensures
        !store.contains(entry.lesson.id),
        ({
            let after = SpecStore { entries: store.entries.insert(p, entry) };
            &&& after.valid()
            &&& after.lessons() == store.lessons().insert(entry.lesson.id, entry.lesson)
            &&& forall|account: AccountID, id: LessonID| #[trigger]
                after.level(account, id) == if id == entry.lesson.id {
                    entry.level(account)
                } else {
                    store.level(account, id)
                }
        }),
{
    let after = SpecStore { entries: store.entries.insert(p, entry) };
    let key = entry.lesson.id;
    assert forall|i: int| 0 <= i < after.entries.len() implies (#[trigger] after.entries[i]) == (
    if i < p {
        store.entries[i]
    } else if i == p {
        entry
    } else {
        store.entries[i - 1]
    }) by {}
    assert(after.valid()) by {
        assert forall|i: int, j: int| 0 <= i < j < after.entries.len() implies (
        #[trigger] after.entries[i]).lesson.id.0 < (#[trigger] after.entries[j]).lesson.id.0 by {
            let a = if i < p {
                i
            } else {
                i - 1
            };
            let b = if j < p {
                j
            } else {
                j - 1
            };
            if i != p && j != p {
                assert(store.entries[a].lesson.id.0 < store.entries[b].lesson.id.0);
            } else if i == p {
                assert(entry.lesson.id.0 < store.entries[b].lesson.id.0);
            } else {
                assert(store.entries[a].lesson.id.0 < entry.lesson.id.0);
            }
        }
    }
    if store.contains(key) {
        let i = store.position(key);
        if i < p {
            assert(store.entries[i].lesson.id.0 < key.0);
        } else {
            assert(key.0 < store.entries[i].lesson.id.0);
        }
    }
    assert forall|id: LessonID| #[trigger] after.contains(id) == (store.contains(id) || id == key) by {
        if store.contains(id) {
            let i = store.position(id);
            let j = if i < p {
                i
            } else {
                i + 1
            };
            assert(after.entries[j].lesson.id == id);
        }
        if id == key {
            assert(after.entries[p].lesson.id == id);
        }
        if after.contains(id) && id != key {
            let j = after.position(id);
            let i = if j < p {
                j
            } else {
                j - 1
            };
            assert(store.entries[i].lesson.id == id);
        }
    }
    assert forall|id: LessonID| #[trigger] after.contains(id) implies after.lesson(id) == (if id
        == key {
        entry.lesson
    } else {
        store.lesson(id)
    }) && (forall|account: AccountID| #[trigger]
        after.level(account, id) == if id == key {
            entry.level(account)
        } else {
            store.level(account, id)
        }) by {
        let j = after.position(id);
        lemma_entry_at(after, j);
        if j != p {
            let i = if j < p {
                j
            } else {
                j - 1
            };
            lemma_entry_at(store, i);
        }
    }
    assert(after.lessons() =~= store.lessons().insert(key, entry.lesson));
}

/// An entry taken out of the store takes its lesson with it, and every
/// level held for that lesson, and changes nothing else.
proof fn lemma_remove(store: SpecStore, p: int)
    requires
        store.valid(),
        0 <= p < store.entries.len(),
    ensures
        ({
            let after = SpecStore { entries: store.entries.remove(p) };
            let gone = store.entries[p].lesson.id;
            &&& after.valid()
            &&& fits_at(after, p, store.entries[p])
            &&& !after.contains(gone)
            &&& after.lessons() == store.lessons().remove(gone)
            &&& forall|account: AccountID, id: LessonID| #[trigger]
                after.level(account, id) == if id == gone {
                    PermissionType::NoAccess
                } else {
                    store.level(account, id)
                }
        }),
{
    let after = SpecStore { entries: store.entries.remove(p) };
    let gone = store.entries[p].lesson.id;
    assert forall|i: int| 0 <= i < after.entries.len() implies (#[trigger] after.entries[i]) == (
    if i < p {
        store.entries[i]
    } else {
        store.entries[i + 1]
    }) by {}
    assert(after.valid()) by {
        assert forall|i: int, j: int| 0 <= i < j < after.entries.len() implies (
        #[trigger] after.entries[i]).lesson.id.0 < (#[trigger] after.entries[j]).lesson.id.0 by {
            let a = if i < p {
                i
            } else {
                i + 1
            };
            let b = if j < p {
                j
            } else {
                j + 1
            };
            assert(store.entries[a].lesson.id.0 < store.entries[b].lesson.id.0);
        }
    }
    assert(fits_at(after, p, store.entries[p])) by {
        assert forall|i: int| 0 <= i < p implies (#[trigger] after.entries[i]).lesson.id.0
            < gone.0 by {
            assert(store.entries[i].lesson.id.0 < store.entries[p].lesson.id.0);
        }
        assert forall|i: int| p <= i < after.entries.len() implies gone.0 < (
        #[trigger] after.entries[i]).lesson.id.0 by {
            assert(store.entries[p].lesson.id.0 < store.entries[i + 1].lesson.id.0);
        }
    }
    lemma_insert(after, p, store.entries[p]);
    assert(after.entries.insert(p, store.entries[p]) =~= store.entries);
    assert(SpecStore { entries: after.entries.insert(p, store.entries[p]) } == store);
    assert(after.lessons() =~= store.lessons().remove(gone));
    assert forall|account: AccountID, id: LessonID| #[trigger]
        after.level(account, id) == if id == gone {
            PermissionType::NoAccess
        } else {
            store.level(account, id)
        } by {
        if id != gone {
            assert(store.level(account, id) == after.level(account, id));
        }
    }
}

/// A grant written over the one that its account had at the place `j`, or
/// added behind the others where the account had none, sets the level of
/// that account, unless it owns the lesson, and of no other.
proof fn lemma_regrant(
    entry: SpecEntry,
    after: SpecEntry,
    j: int,
    account: AccountID,
    kind: PermissionType,
)
    requires
        entry.valid(),
        after.lesson == entry.lesson,
        0 <= j <= entry.grants.len(),
        forall|k: int| 0 <= k < j ==> (#[trigger] entry.grants[k]).account != account,
        j < entry.grants.len() ==> entry.grants[j].account == account && after.grants
            == entry.grants.update(j, Grant { account, kind }),
        j == entry.grants.len() ==> after.grants == entry.grants.push(Grant { account, kind }),
    ensures
        after.valid(),
        forall|holder: AccountID| #[trigger]
            after.level(holder) == if holder == account && holder != entry.lesson.owner {
                kind
            } else {
                entry.level(holder)
            },
{
    assert forall|a: int, b: int| 0 <= a < b < after.grants.len() implies (
    #[trigger] after.grants[a]).account != (#[trigger] after.grants[b]).account by {
        if b < entry.grants.len() {
            assert(entry.grants[a].account != entry.grants[b].account);
        } else {
            assert(entry.grants[a].account != account);
        }
    }
    assert(after.grants[j].account == account);
    assert forall|holder: AccountID| #[trigger]
        after.granted(holder) == if holder == account {
            kind
        } else {
            entry.granted(holder)
        } by {
        if holder == account {
            let k = choose|k: int|
                0 <= k < after.grants.len() && (#[trigger] after.grants[k]).account == holder;
            if k < j {
                assert(after.grants[k].account != after.grants[j].account);
            }
            if j < k {
                assert(after.grants[j].account != after.grants[k].account);
            }
        } else {
            if entry.has_grant(holder) {
                let k = choose|k: int|
                    0 <= k < entry.grants.len() && (#[trigger] entry.grants[k]).account
                        == holder;
                assert(after.grants[k].account == holder);
                let m = choose|m: int|
                    0 <= m < after.grants.len() && (#[trigger] after.grants[m]).account
                        == holder;
                if k < m {
                    assert(after.grants[k].account != after.grants[m].account);
                }
                if m < k {
                    assert(after.grants[m].account != after.grants[k].account);
                }
            }
            if after.has_grant(holder) {
                let m = choose|m: int|
                    0 <= m < after.grants.len() && (#[trigger] after.grants[m]).account
                        == holder;
                assert(entry.grants[m].account == holder);
            }
        }
    }
}

/// Why an operation on a lesson fails after the access check.
#[derive(Clone, Copy, Debug, PartialEq, Eq, Structural, Hash)]
pub enum ServiceError {
    /// The store has no lesson of that identity.
    NotFound,
    /// The token does not cover the operation, or the account no longer
    /// holds the level that the operation asks for.
    Forbidden,
    /// The store already has a lesson of that identity.
    AlreadyExists,
    /// The rules or single occurrences offered are not accepted.
    Validation(ValidationError),
}

/// What a list of entries holds.
pub open(crate) spec fn entries_view(entries: Seq<Entry>) -> Seq<SpecEntry> {
    entries.map_values(|e: Entry| e@)
}

/// What a list of occurrences holds.
pub open spec fn occurrences_view(occurrences: Seq<OccurrenceView>) -> Seq<SpecOccurrence> {
    occurrences.map_values(|o: OccurrenceView| o@)
}

/// The lessons with the levels that accounts hold for them.
#[derive(Debug)]
pub struct LessonStore {
    pub(crate) entries: Vec<Entry>,
}

impl Entry {
    /// What the entry holds.
    pub open(crate) spec fn view(&self) -> SpecEntry {
        SpecEntry { lesson: self.lesson@, grants: self.grants@ }
    }

    /// The level that `account` holds for the entry's lesson.
    pub(crate) fn level(&self, account: AccountID) -> (res: PermissionType)
        requires
            self@.valid(),
        ensures
            res == self@.level(account),
    {
        if account == self.lesson.owner {
            return PermissionType::ReadWrite;
        }
        let mut i: usize = 0;
        while i < self.grants.len()
            invariant
                i <= self.grants.len(),
                account != self@.lesson.owner,
                accounts_distinct(self.grants@),
                forall|k: int| 0 <= k < i ==> (#[trigger] self.grants@[k]).account != account,
            decreases self.grants.len() - i,
        {
            if self.grants[i].account == account {
                proof {
                    assert(self@.grants[i as int].account == account);
                    assert(self@.has_grant(account));
                    let chosen = choose|k: int|
                        0 <= k < self.grants@.len() && (#[trigger] self.grants@[k]).account
                            == account;
                    if chosen < i {
                        assert(self.grants@[chosen].account != self.grants@[i as int].account);
                    }
                    if i < chosen {
                        assert(self.grants@[i as int].account != self.grants@[chosen].account);
                    }
                }
                return self.grants[i].kind;
            }
            i = i + 1;
        }
        PermissionType::NoAccess
    }
}

impl LessonStore {
    /// What the store holds.
    pub open(crate) spec fn view(&self) -> SpecStore {
        SpecStore { entries: entries_view(self.entries@) }
    }

    /// What every store in executable code satisfies.
    #[verifier::type_invariant]
    pub open(crate) spec fn valid(self) -> bool {
        self@.valid()
    }

    /// A store without lessons.
    pub fn new() -> (res: LessonStore)
        ensures
            res@.entries.len() == 0,
    {
        LessonStore { entries: Vec::new() }
    }

    /// The number of lessons in the store.
    pub fn len(&self) -> (res: usize)
        ensures
            res == self@.entries.len(),
    {
        self.entries.len()
    }

    /// Whether the store has a lesson of the identity `id`.
    pub fn has(&self, id: LessonID) -> (res: bool)
        ensures
            res == self@.contains(id),
    {
        self.find(id).is_some()
    }

    /// The level that `account` holds for the lesson `id`: read-write for
    /// the lesson's owner, what was granted for any other account, and no
    /// access where the store has no such lesson.
    pub fn level(&self, account: AccountID, id: LessonID) -> (res: PermissionType)
        ensures
            res == self@.level(account, id),
    {
        proof {
            use_type_invariant(self);
        }
        match self.find(id) {
            None => PermissionType::NoAccess,
            Some(i) => {
                assert(self@.entries[i as int] == self.entries@[i as int]@);
                self.entries[i].level(account)
            },
        }
    }

    /// The place of the lesson `id` among the entries, if the store has it.
    fn find(&self, id: LessonID) -> (res: Option<usize>)
        ensures
            res is Some <==> self@.contains(id),
            res matches Some(i) ==> i < self.entries.len() && self@.position(id) == i
                && self.entries@[i as int].lesson.id == id,
    {
        proof {
            use_type_invariant(self);
        }
        let mut i: usize = 0;
        while i < self.entries.len()
            invariant
                i <= self.entries.len(),
                self@.valid(),
                forall|k: int| 0 <= k < i ==> (#[trigger] self@.entries[k]).lesson.id != id,
            decreases self.entries.len() - i,
        {
            if self.entries[i].lesson.id == id {
                proof {
                    assert(self@.entries[i as int].lesson.id == id);
                    lemma_entry_at(self@, i as int);
                }
                return Some(i);
            }
            i = i + 1;
        }
        None
    }

    /// The access check: whether `account` holds at least the level `required` for
    /// the lesson `lesson`. Only a check that succeeds makes the token that
    /// the operations on a lesson ask for.
    pub fn check(&self, account: AccountID, lesson: LessonID, required: PermissionType) -> (res:
        Result<Capability, AuthzError>)
        ensures
            res is Ok <==> self@.contains(lesson) && self@.level(account, lesson).covers(required),
            res matches Ok(capability) ==> capability.spec_account() == account
                && capability.spec_lesson() == lesson && capability.spec_level() == required,
            res matches Err(error) ==> error == (if self@.contains(lesson) {
                AuthzError::Insufficient
            } else {
                AuthzError::NotFound
            }),
    {
        proof {
            use_type_invariant(self);
        }
        match self.find(lesson) {
            None => Err(AuthzError::NotFound),
            Some(i) => {
                assert(self@.entries[i as int] == self.entries@[i as int]@);
                if self.entries[i].level(account).allows(required) {
                    Ok(Capability { account, lesson, level: required })
                } else {
                    Err(AuthzError::Insufficient)
                }
            },
        }
    }

    /// Whether the token covers an operation that asks for the level
    /// `needed`, now: the token was made for that level or a higher one,
    /// and its account still holds it for its lesson.
    pub open spec fn honours(&self, capability: &Capability, needed: PermissionType) -> bool {
        &&& capability.spec_level().covers(needed)
        &&& self@.level(capability.spec_account(), capability.spec_lesson()).covers(needed)
    }

    /// Looks, after the access check, for the token's lesson, and whether the token
    /// covers an operation that asks for `needed`: the place of the lesson
    /// among the entries, or why the operation fails.
    fn locate(&self, capability: &Capability, needed: PermissionType) -> (res: Result<
        usize,
        ServiceError,
    >)
        ensures
            res is Ok <==> self@.contains(capability.spec_lesson()) && self.honours(
                capability,
                needed,
            ),
            res matches Ok(i) ==> i < self.entries.len() && self@.position(
                capability.spec_lesson(),
            ) == i,
            res matches Err(error) ==> error == (if self@.contains(capability.spec_lesson()) {
                ServiceError::Forbidden
            } else {
                ServiceError::NotFound
            }),
    {
        proof {
            use_type_invariant(self);
        }
        match self.find(capability.lesson) {
            None => Err(ServiceError::NotFound),
            Some(i) => {
                assert(self@.entries[i as int] == self.entries@[i as int]@);
                if capability.level.allows(needed) && self.entries[i].level(
                    capability.account,
                ).allows(needed) {
                    Ok(i)
                } else {
                    Err(ServiceError::Forbidden)
                }
            },
        }
    }

    /// The lesson that the token is for, as it is stored.
    pub fn by_id(&self, capability: &Capability) -> (res: Result<&Lesson, ServiceError>)
        ensures
            res is Ok <==> self@.contains(capability.spec_lesson()) && self.honours(
                capability,
                PermissionType::Read,
            ),
            res matches Ok(lesson) ==> lesson@ == self@.lesson(capability.spec_lesson()),
            res matches Err(error) ==> error == (if self@.contains(capability.spec_lesson()) {
                ServiceError::Forbidden
            } else {
                ServiceError::NotFound
            }),
    {
        match self.locate(capability, PermissionType::Read) {
            Err(error) => Err(error),
            Ok(i) => {
                assert(self@.entries[i as int] == self.entries@[i as int]@);
                Ok(&self.entries[i].lesson)
            },
        }
    }

    /// Adds a lesson of the given parts, owned by `owner`, and grants the
    /// owner read-write for it: both or neither. Returns the lesson as it
    /// is stored.
    pub fn create(
        &mut self,
        id: LessonID,
        title: String,
        description: Option<String>,
        repeats: Vec<Repeat>,
        singles: Vec<SingleOccurrence>,
        owner: AccountID,
    ) -> (res: Result<Lesson, ServiceError>)
        ensures
            res is Ok <==> repeats_valid(repeats@) && dates_distinct(singles_view(singles@))
                && !old(self)@.contains(id),
            res matches Ok(lesson) ==> {
                &&& lesson@ == (SpecLesson {
                    id,
                    title: title@,
                    description: text_view(description),
                    owner,
                    repeats: repeats@,
                    singles: singles_view(singles@),
                })
                &&& final(self)@.lessons() == old(self)@.lessons().insert(id, lesson@)
                &&& forall|account: AccountID, other: LessonID| #[trigger]
                    final(self)@.level(account, other) == if other == id && account == owner {
                        PermissionType::ReadWrite
                    } else {
                        old(self)@.level(account, other)
                    }
            },
            res matches Err(error) ==> {
                &&& *final(self) == *old(self)
                &&& match error {
                    ServiceError::Validation(fault) => is_first_fault(
                        repeats@,
                        singles_view(singles@),
                        fault,
                    ),
                    ServiceError::AlreadyExists => repeats_valid(repeats@) && dates_distinct(
                        singles_view(singles@),
                    ),
                    _ => false,
                }
            },
    {
        proof {
            use_type_invariant(&*self);
        }
        let lesson = match Lesson::create(id, title, description, repeats, singles, owner) {
            Err(fault) => {
                return Err(ServiceError::Validation(fault));
            },
            Ok(lesson) => lesson,
        };
        let ghost store = self@;
        let mut p: usize = 0;
        while p < self.entries.len() && self.entries[p].lesson.id.0 < id.0
            invariant
                p <= self.entries.len(),
                store == self@,
                forall|i: int| 0 <= i < p ==> (#[trigger] store.entries[i]).lesson.id.0 < id.0,
            decreases self.entries.len() - p,
        {
            assert(store.entries[p as int] == self.entries@[p as int]@);
            p = p + 1;
        }
        if p < self.entries.len() {
            assert(store.entries[p as int] == self.entries@[p as int]@);
            if self.entries[p].lesson.id == id {
                proof {
                    assert(store.entries[p as int].lesson.id == id);
                }
                return Err(ServiceError::AlreadyExists);
            }
        }
        let copy = lesson.clone();
        let mut grants: Vec<Grant> = Vec::new();
        grants.push(Grant { account: owner, kind: PermissionType::ReadWrite });
        let entry = Entry { lesson, grants };
        proof {
            use_type_invariant(&entry.lesson);
            assert(entry@.valid());
            assert(fits_at(store, p as int, entry@)) by {
                assert forall|i: int| p <= i < store.entries.len() implies id.0 < (
                #[trigger] store.entries[i]).lesson.id.0 by {
                    assert(store.entries[p as int] == self.entries@[p as int]@);
                    if p < i {
                        assert(store.entries[p as int].lesson.id.0 < store.entries[i].lesson.id.0);
                    }
                }
            }
            lemma_insert(store, p as int, entry@);
            assert(entries_view(self.entries@.insert(p as int, entry)) =~= store.entries.insert(
                p as int,
                entry@,
            ));
            assert forall|account: AccountID| #[trigger]
                entry@.level(account) == if account == owner {
                    PermissionType::ReadWrite
                } else {
                    PermissionType::NoAccess
                } by {
                if account != owner && entry@.has_grant(account) {
                    let i = choose|i: int|
                        0 <= i < entry@.grants.len() && (#[trigger] entry@.grants[i]).account
                            == account;
                    assert(entry@.grants[i].account == owner);
                }
            }
        }
        let mut entries: Vec<Entry> = Vec::new();
        core::mem::swap(&mut self.entries, &mut entries);
        entries.insert(p, entry);
        core::mem::swap(&mut self.entries, &mut entries);
        Ok(copy)
    }

    /// Applies a partial update to the token's lesson. Each part that is
    /// given replaces the lesson's own as a whole; a part that is not given
    /// stays. The update is applied as a whole or not at all.
    pub fn update(
        &mut self,
        capability: &Capability,
        title: Option<String>,
        repeats: Option<Vec<Repeat>>,
        singles: Option<Vec<SingleOccurrence>>,
        description: OptionalField,
    ) -> (res: Result<(), ServiceError>)
        ensures
            res is Ok <==> {
                &&& old(self)@.contains(capability.spec_lesson())
                &&& old(self).honours(capability, PermissionType::ReadWrite)
                &&& repeats_valid(given(repeats_option_view(repeats)))
                &&& dates_distinct(given(singles_option_view(singles)))
            },
            res is Ok ==> {
                &&& final(self)@.lessons() == old(self)@.lessons().insert(
                    capability.spec_lesson(),
                    old(self)@.lesson(capability.spec_lesson()).patched(
                        text_view(title),
                        repeats_option_view(repeats),
                        singles_option_view(singles),
                        description@,
                    ),
                )
                &&& forall|account: AccountID, other: LessonID| #[trigger]
                    final(self)@.level(account, other) == old(self)@.level(account, other)
            },
            res matches Err(error) ==> {
                &&& *final(self) == *old(self)
                &&& match error {
                    ServiceError::NotFound => !old(self)@.contains(capability.spec_lesson()),
                    ServiceError::Forbidden => old(self)@.contains(capability.spec_lesson())
                        && !old(self).honours(capability, PermissionType::ReadWrite),
                    ServiceError::Validation(fault) => {
                        &&& old(self)@.contains(capability.spec_lesson())
                        &&& old(self).honours(capability, PermissionType::ReadWrite)
                        &&& is_first_fault(
                            given(repeats_option_view(repeats)),
                            given(singles_option_view(singles)),
                            fault,
                        )
                    },
                    ServiceError::AlreadyExists => false,
                }
            },
    {
        proof {
            use_type_invariant(&*self);
        }
        let p = match self.locate(capability, PermissionType::ReadWrite) {
            Err(error) => {
                return Err(error);
            },
            Ok(p) => p,
        };
        match &repeats {
            Some(list) => {
                match check_repeats(list) {
                    Err(fault) => {
                        return Err(ServiceError::Validation(fault));
                    },
                    Ok(()) => {},
                }
            },
            None => {},
        }
        match &singles {
            Some(list) => {
                match check_singles(list) {
                    Err(fault) => {
                        return Err(ServiceError::Validation(fault));
                    },
                    Ok(()) => {},
                }
            },
            None => {},
        }
        let ghost store = self@;
        proof {
            lemma_entry_at(store, p as int);
            lemma_remove(store, p as int);
            assert(entries_view(self.entries@.remove(p as int)) =~= store.entries.remove(
                p as int,
            ));
            assert(store.entries[p as int] == self.entries@[p as int]@);
        }
        let mut entries: Vec<Entry> = Vec::new();
        core::mem::swap(&mut self.entries, &mut entries);
        let mut entry = entries.remove(p);
        let ghost without = SpecStore { entries: entries_view(entries@) };
        let _ = entry.lesson.update(title, repeats, singles, description);
        proof {
            use_type_invariant(&entry.lesson);
            assert(entry@.valid());
            assert(fits_at(without, p as int, entry@));
            lemma_insert(without, p as int, entry@);
            assert(entries_view(entries@.insert(p as int, entry)) =~= without.entries.insert(
                p as int,
                entry@,
            ));
            assert(store.lessons().remove(capability.spec_lesson()).insert(
                capability.spec_lesson(),
                entry@.lesson,
            ) =~= store.lessons().insert(capability.spec_lesson(), entry@.lesson));
        }
        entries.insert(p, entry);
        core::mem::swap(&mut self.entries, &mut entries);
        Ok(())
    }

    /// Removes the token's lesson, with its rules, its single occurrences
    /// and every level held for it.
    pub fn delete(&mut self, capability: &Capability) -> (res: Result<(), ServiceError>)
        ensures
            res is Ok <==> old(self)@.contains(capability.spec_lesson()) && old(self).honours(
                capability,
                PermissionType::ReadWrite,
            ),
            res is Ok ==> {
                &&& final(self)@.lessons() == old(self)@.lessons().remove(
                    capability.spec_lesson(),
                )
                &&& forall|account: AccountID, other: LessonID| #[trigger]
                    final(self)@.level(account, other) == if other == capability.spec_lesson() {
                        PermissionType::NoAccess
                    } else {
                        old(self)@.level(account, other)
                    }
            },
            res matches Err(error) ==> {
                &&& *final(self) == *old(self)
                &&& error == (if old(self)@.contains(capability.spec_lesson()) {
                    ServiceError::Forbidden
                } else {
                    ServiceError::NotFound
                })
            },
    {
        proof {
            use_type_invariant(&*self);
        }
        let p = match self.locate(capability, PermissionType::ReadWrite) {
            Err(error) => {
                return Err(error);
            },
            Ok(p) => p,
        };
        proof {
            lemma_entry_at(self@, p as int);
            lemma_remove(self@, p as int);
            assert(entries_view(self.entries@.remove(p as int)) =~= self@.entries.remove(
                p as int,
            ));
        }
        let mut entries: Vec<Entry> = Vec::new();
        core::mem::swap(&mut self.entries, &mut entries);
        let _ = entries.remove(p);
        core::mem::swap(&mut self.entries, &mut entries);
        Ok(())
    }

    /// Sets the level that was granted to `account` for the lesson
    /// `lesson`. The lesson's owner holds read-write whatever is granted.
    pub fn grant(&mut self, account: AccountID, lesson: LessonID, kind: PermissionType) -> (res:
        Result<(), ServiceError>)
        ensures
            res is Ok <==> old(self)@.contains(lesson),
            res is Ok ==> {
                &&& final(self)@.lessons() == old(self)@.lessons()
                &&& forall|holder: AccountID, other: LessonID| #[trigger]
                    final(self)@.level(holder, other) == if other == lesson && holder == account
                        && holder != old(self)@.lesson(lesson).owner {
                        kind
                    } else {
                        old(self)@.level(holder, other)
                    }
            },
            res matches Err(error) ==> *final(self) == *old(self) && error
                == ServiceError::NotFound,
    {
        proof {
            use_type_invariant(&*self);
        }
        let p = match self.find(lesson) {
            None => {
                return Err(ServiceError::NotFound);
            },
            Some(p) => p,
        };
        let ghost store = self@;
        proof {
            lemma_entry_at(store, p as int);
            lemma_remove(store, p as int);
            assert(entries_view(self.entries@.remove(p as int)) =~= store.entries.remove(
                p as int,
            ));
            assert(store.entries[p as int] == self.entries@[p as int]@);
        }
        let mut entries: Vec<Entry> = Vec::new();
        core::mem::swap(&mut self.entries, &mut entries);
        let mut entry = entries.remove(p);
        let ghost without = SpecStore { entries: entries_view(entries@) };
        let ghost before = entry@;
        let mut j: usize = 0;
        while j < entry.grants.len() && entry.grants[j].account != account
            invariant
                j <= entry.grants.len(),
                entry@ == before,
                forall|k: int| 0 <= k < j ==> (#[trigger] before.grants[k]).account != account,
            decreases entry.grants.len() - j,
        {
            j = j + 1;
        }
        if j < entry.grants.len() {
            entry.grants.set(j, Grant { account, kind });
        } else {
            entry.grants.push(Grant { account, kind });
        }
        proof {
            lemma_regrant(before, entry@, j as int, account, kind);
            assert(fits_at(without, p as int, entry@));
            lemma_insert(without, p as int, entry@);
            assert(entries_view(entries@.insert(p as int, entry)) =~= without.entries.insert(
                p as int,
                entry@,
            ));
            assert(store.lessons().remove(lesson).insert(lesson, entry@.lesson)
                =~= store.lessons());
        }
        entries.insert(p, entry);
        core::mem::swap(&mut self.entries, &mut entries);
        Ok(())
    }

    /// The occurrences on `date` of the lessons that `account` may read, in
    /// the order of the lessons' identities.
    pub fn for_date(&self, account: AccountID, date: &Date) -> (res: Vec<OccurrenceView>)
        ensures
            self@.is_listing(account, *date, occurrences_view(res@)),
    {
        proof {
            use_type_invariant(self);
        }
        let ghost store = self@;
        let mut res: Vec<OccurrenceView> = Vec::new();
        let mut n: usize = 0;
        while n < self.entries.len()
            invariant
                n <= self.entries.len(),
                store == self@,
                store.valid(),
                forall|i: int, j: int|
                    0 <= i < j < res@.len() ==> (#[trigger] res@[i]).lesson_id.0 < (
                    #[trigger] res@[j]).lesson_id.0,
                forall|i: int|
                    0 <= i < res@.len() ==> exists|k: int|
                        {
                            &&& 0 <= k < n
                            &&& (#[trigger] store.entries[k]).lesson.id == (
                            #[trigger] res@[i]).lesson_id
                            &&& store.entries[k].level(account).covers(PermissionType::Read)
                            &&& store.entries[k].lesson.occurrence_on(*date) == Some(res@[i]@)
                        },
                forall|k: int|
                    0 <= k < n && (#[trigger] store.entries[k]).level(account).covers(
                        PermissionType::Read,
                    ) && store.entries[k].lesson.occurrence_on(*date) is Some ==> exists|i: int|
                        0 <= i < res@.len() && (#[trigger] res@[i]).lesson_id
                            == store.entries[k].lesson.id,
            decreases self.entries.len() - n,
        {
            let entry = &self.entries[n];
            assert(store.entries[n as int] == entry@);
            if entry.level(account).allows(PermissionType::Read) {
                match entry.lesson.occurs_on(date) {
                    Some(occurrence) => {
                        let ghost before = res@;
                        proof {
                            assert forall|i: int| 0 <= i < before.len() implies (
                            #[trigger] before[i]).lesson_id.0 < occurrence.lesson_id.0 by {
                                let k = choose|k: int|
                                    {
                                        &&& 0 <= k < n
                                        &&& (#[trigger] store.entries[k]).lesson.id == (
                                        #[trigger] before[i]).lesson_id
                                        &&& store.entries[k].level(account).covers(
                                            PermissionType::Read,
                                        )
                                        &&& store.entries[k].lesson.occurrence_on(*date) == Some(
                                            before[i]@,
                                        )
                                    };
                                assert(store.entries[k].lesson.id.0 < store.entries[n as int].lesson.id.0);
                            }
                        }
                        res.push(occurrence);
                        proof {
                            assert forall|i: int| 0 <= i < res@.len() implies exists|k: int|
                                {
                                    &&& 0 <= k < n + 1
                                    &&& (#[trigger] store.entries[k]).lesson.id == (
                                    #[trigger] res@[i]).lesson_id
                                    &&& store.entries[k].level(account).covers(
                                        PermissionType::Read,
                                    )
                                    &&& store.entries[k].lesson.occurrence_on(*date) == Some(
                                        res@[i]@,
                                    )
                                } by {
                                if i < before.len() {
                                    assert(res@[i] == before[i]);
                                    let k = choose|k: int|
                                        {
                                            &&& 0 <= k < n
                                            &&& (#[trigger] store.entries[k]).lesson.id == (
                                            #[trigger] before[i]).lesson_id
                                            &&& store.entries[k].level(account).covers(
                                                PermissionType::Read,
                                            )
                                            &&& store.entries[k].lesson.occurrence_on(*date)
                                                == Some(before[i]@)
                                        };
                                    assert(store.entries[k].lesson.id == res@[i].lesson_id);
                                } else {
                                    assert(store.entries[n as int].lesson.id == res@[i].lesson_id);
                                }
                            }
                            assert forall|k: int|
                                0 <= k < n + 1 && (#[trigger] store.entries[k]).level(
                                    account,
                                ).covers(PermissionType::Read) && store.entries[k].lesson.occurrence_on(
                                    *date,
                                ) is Some implies exists|i: int|
                                0 <= i < res@.len() && (#[trigger] res@[i]).lesson_id
                                    == store.entries[k].lesson.id by {
                                if k < n {
                                    let i = choose|i: int|
                                        0 <= i < before.len() && (#[trigger] before[i]).lesson_id
                                            == store.entries[k].lesson.id;
                                    assert(res@[i].lesson_id == store.entries[k].lesson.id);
                                } else {
                                    assert(res@[before.len() as int].lesson_id
                                        == store.entries[k].lesson.id);
                                }
                            }
                        }
                    },
                    None => {},
                }
            }
            n = n + 1;
        }
        proof {
            lemma_listing(store, account, *date, res@);
        }
        res
    }
}

/// A list that holds, in the order of the entries, the occurrences of the
/// entries that a query shows is the answer to the query.
proof fn lemma_listing(
    store: SpecStore,
    account: AccountID,
    date: Date,
    res: Seq<OccurrenceView>,
)
    requires
        store.valid(),
        forall|i: int, j: int|
            0 <= i < j < res.len() ==> (#[trigger] res[i]).lesson_id.0 < (
            #[trigger] res[j]).lesson_id.0,
        forall|i: int|
            0 <= i < res.len() ==> exists|k: int|
                {
                    &&& 0 <= k < store.entries.len()
                    &&& (#[trigger] store.entries[k]).lesson.id == (#[trigger] res[i]).lesson_id
                    &&& store.entries[k].level(account).covers(PermissionType::Read)
                    &&& store.entries[k].lesson.occurrence_on(date) == Some(res[i]@)
                },
        forall|k: int|
            0 <= k < store.entries.len() && (#[trigger] store.entries[k]).level(account).covers(
                PermissionType::Read,
            ) && store.entries[k].lesson.occurrence_on(date) is Some ==> exists|i: int|
                0 <= i < res.len() && (#[trigger] res[i]).lesson_id == store.entries[k].lesson.id,
    ensures
        store.is_listing(account, date, occurrences_view(res)),
{
    let listing = occurrences_view(res);
    assert forall|i: int| 0 <= i < listing.len() implies {
        &&& store.shows(account, date, (#[trigger] listing[i]).lesson_id)
        &&& store.lesson(listing[i].lesson_id).occurrence_on(date) == Some(listing[i])
    } by {
        let k = choose|k: int|
            {
                &&& 0 <= k < store.entries.len()
                &&& (#[trigger] store.entries[k]).lesson.id == (#[trigger] res[i]).lesson_id
                &&& store.entries[k].level(account).covers(PermissionType::Read)
                &&& store.entries[k].lesson.occurrence_on(date) == Some(res[i]@)
            };
        lemma_entry_at(store, k);
    }
    assert forall|id: LessonID| #[trigger] store.shows(account, date, id) implies exists|i: int|
        0 <= i < listing.len() && (#[trigger] listing[i]).lesson_id == id by {
        let k = store.position(id);
        lemma_entry_at(store, k);
        let i = choose|i: int|
            0 <= i < res.len() && (#[trigger] res[i]).lesson_id == store.entries[k].lesson.id;
        assert(listing[i].lesson_id == id);
    }
    assert forall|i: int, j: int| 0 <= i < j < listing.len() implies (
    #[trigger] listing[i]).lesson_id.0 < (#[trigger] listing[j]).lesson_id.0 by {
        assert(res[i].lesson_id.0 < res[j].lesson_id.0);
    }
}


/// The map of the lessons says what the store has: a key for each lesson
/// that it contains, with that lesson.
pub proof fn lemma_lessons_map(store: SpecStore, id: LessonID)
    ensures
        store.lessons().dom().contains(id) <==> store.contains(id),
        store.contains(id) ==> store.lessons()[id] == store.lesson(id),
        !store.contains(id) ==> forall|account: AccountID| #[trigger]
            store.level(account, id) == PermissionType::NoAccess,
{
}

/// A lesson is stored under its own identity.
pub proof fn lemma_lesson_identity(store: SpecStore, id: LessonID)
    requires
        store.contains(id),
    ensures
        store.lesson(id).id == id,
        store.valid() ==> store.lesson(id).valid(),
{
}

/// The owner of a lesson holds read-write for it, whatever was granted.
pub proof fn lemma_owner_holds_read_write(store: SpecStore, id: LessonID)
    requires
        store.contains(id),
    ensures
        store.level(store.lesson(id).owner, id) == PermissionType::ReadWrite,
{
}

/// A query has one answer: two lists that both answer it are the same.
pub proof fn lemma_listing_unique(
    store: SpecStore,
    account: AccountID,
    date: Date,
    first: Seq<SpecOccurrence>,
    second: Seq<SpecOccurrence>,
)
    requires
        store.is_listing(account, date, first),
        store.is_listing(account, date, second),
    ensures
        first == second,
{
    lemma_listing_prefix(store, account, date, first, second, first.len() as int);
    lemma_listing_prefix(store, account, date, second, first, second.len() as int);
    assert(first =~= second);
}

/// Two answers to one query agree on their first `n` places, where the
/// first has that many.
proof fn lemma_listing_prefix(
    store: SpecStore,
    account: AccountID,
    date: Date,
    first: Seq<SpecOccurrence>,
    second: Seq<SpecOccurrence>,
    n: int,
)
    requires
        store.is_listing(account, date, first),
        store.is_listing(account, date, second),
        0 <= n <= first.len(),
    ensures
        n <= second.len(),
        forall|i: int| 0 <= i < n ==> first[i] == second[i],
    decreases n,
{
    if n > 0 {
        lemma_listing_prefix(store, account, date, first, second, n - 1);
        let id = first[n - 1].lesson_id;
        assert(store.shows(account, date, id));
        let j = choose|j: int| 0 <= j < second.len() && (#[trigger] second[j]).lesson_id == id;
        if j < n - 1 {
            assert(first[j] == second[j]);
            assert(first[j].lesson_id.0 < first[n - 1].lesson_id.0);
        }
        if j > n - 1 {
            let other = second[n - 1].lesson_id;
            assert(store.shows(account, date, other));
            let k = choose|k: int| 0 <= k < first.len() && (#[trigger] first[k]).lesson_id == other;
            assert(second[n - 1].lesson_id.0 < second[j].lesson_id.0);
            if k < n - 1 {
                assert(first[k] == second[k]);
                assert(second[k].lesson_id.0 < second[n - 1].lesson_id.0);
            }
            if k > n - 1 {
                assert(first[n - 1].lesson_id.0 < first[k].lesson_id.0);
            }
        }
        assert(store.lesson(id).occurrence_on(date) == Some(first[n - 1]));
        assert(store.lesson(id).occurrence_on(date) == Some(second[n - 1]));
    }
}

/// The answer to a query holds a lesson exactly where the query shows it:
/// the store has the lesson, the account may read it, and it occurs on the
/// date.
pub proof fn lemma_listed_where_shown(
    store: SpecStore,
    account: AccountID,
    date: Date,
    listing: Seq<SpecOccurrence>,
    id: LessonID,
)
    requires
        store.is_listing(account, date, listing),
    ensures
        store.shows(account, date, id) <==> exists|i: int|
            0 <= i < listing.len() && (#[trigger] listing[i]).lesson_id == id,
{
    if exists|i: int| 0 <= i < listing.len() && (#[trigger] listing[i]).lesson_id == id {
        let i = choose|i: int| 0 <= i < listing.len() && (#[trigger] listing[i]).lesson_id == id;
        assert(store.shows(account, date, listing[i].lesson_id));
    }
}

/// No query for any date and by any account shows a lesson that has no
/// rules and no single occurrences.
pub proof fn lemma_empty_lesson_never_listed(
    store: SpecStore,
    account: AccountID,
    date: Date,
    listing: Seq<SpecOccurrence>,
    id: LessonID,
)
    requires
        store.is_listing(account, date, listing),
        store.contains(id),
        store.lesson(id).repeats.len() == 0,
        store.lesson(id).singles.len() == 0,
    ensures
        forall|i: int| 0 <= i < listing.len() ==> (#[trigger] listing[i]).lesson_id != id,
{
    crate::lesson::lemma_empty_lesson_never_occurs(store.lesson(id), date);
    assert forall|i: int| 0 <= i < listing.len() implies (#[trigger] listing[i]).lesson_id
        != id by {
        if listing[i].lesson_id == id {
            assert(store.shows(account, date, listing[i].lesson_id));
        }
    }
}

/// No query shows a lesson without rules on a date that none of the
/// lesson's single occurrences is bound to: so a lesson whose rules were
/// replaced by the empty list is gone from the dates that its rules
/// produced.
pub proof fn lemma_without_rules_not_listed(
    store: SpecStore,
    account: AccountID,
    date: Date,
    listing: Seq<SpecOccurrence>,
    id: LessonID,
)
    requires
        store.is_listing(account, date, listing),
        store.contains(id),
        store.lesson(id).repeats.len() == 0,
        !store.lesson(id).has_single_on(date),
    ensures
        forall|i: int| 0 <= i < listing.len() ==> (#[trigger] listing[i]).lesson_id != id,
{
    assert forall|i: int| 0 <= i < listing.len() implies (#[trigger] listing[i]).lesson_id
        != id by {
        if listing[i].lesson_id == id {
            assert(store.shows(account, date, listing[i].lesson_id));
        }
    }
}

/// No query shows a lesson to an account that holds no level for it.
pub proof fn lemma_unreadable_not_listed(
    store: SpecStore,
    account: AccountID,
    date: Date,
    listing: Seq<SpecOccurrence>,
    id: LessonID,
)
    requires
        store.is_listing(account, date, listing),
        store.level(account, id) == PermissionType::NoAccess,
    ensures
        forall|i: int| 0 <= i < listing.len() ==> (#[trigger] listing[i]).lesson_id != id,
{
    assert forall|i: int| 0 <= i < listing.len() implies (#[trigger] listing[i]).lesson_id
        != id by {
        if listing[i].lesson_id == id {
            assert(store.shows(account, date, listing[i].lesson_id));
        }
    }
}

/// After a partial update that gave the lesson `id` an empty list of
/// rules, no query shows the lesson on a date that none of its single
/// occurrences is bound to, whatever its rules produced before.
pub proof fn lemma_patched_without_rules_not_listed(
    before: SpecStore,
    after: SpecStore,
    id: LessonID,
    title: Option<Seq<char>>,
    singles: Option<Seq<SpecSingleOccurrence>>,
    description: SpecOptionalField,
    account: AccountID,
    date: Date,
    listing: Seq<SpecOccurrence>,
)
    requires
        after.lessons() == before.lessons().insert(
            id,
            before.lesson(id).patched(title, Some(Seq::empty()), singles, description),
        ),
        after.is_listing(account, date, listing),
        !after.lesson(id).has_single_on(date),
    ensures
        after.contains(id),
        after.lesson(id).repeats.len() == 0,
        forall|i: int| 0 <= i < listing.len() ==> (#[trigger] listing[i]).lesson_id != id,
{
    assert(after.lessons().dom().contains(id));
    assert(after.lessons()[id] == after.lesson(id));
    lemma_without_rules_not_listed(after, account, date, listing, id);
}

/// A lesson that was created is in the store with its owner's level, and a
/// lesson that was removed is gone with every level held for it: in no
/// state does an account hold a level for a lesson that the store lacks.
pub proof fn lemma_levels_follow_lessons(store: SpecStore, account: AccountID, id: LessonID)
    ensures
        store.level(account, id) != PermissionType::NoAccess ==> store.contains(id),
        store.contains(id) ==> store.level(store.lesson(id).owner, id).covers(
            PermissionType::ReadWrite,
        ),
{
}

} // verus!
