//! Access levels, and the token that shows that an account's access to a
//! lesson was checked.

use core::cmp::Ordering;
use vstd::prelude::*;
use vstd::std_specs::cmp::PartialOrdSpec;

use crate::account::AccountID;
use crate::lesson::LessonID;

verus! {

/// What an account may do with a lesson. The levels are ordered, and `<`
/// compares them: no access is below read, and read is below read-write.
#[derive(Clone, Copy, Debug, PartialEq, Eq, Structural, Hash)]
pub enum PermissionType {
    /// The account may do nothing with the lesson.
    NoAccess,
    /// The account may read the lesson.
    Read,
    /// The account may read and change the lesson.
    ReadWrite,
}

impl PermissionType {
    /// The level's place in the order: 0 for no access, 1 for read, 2 for
    /// read-write.
    pub open spec fn rank(self) -> int {
        match self {
            PermissionType::NoAccess => 0,
            PermissionType::Read => 1,
            PermissionType::ReadWrite => 2,
        }
    }

    /// Whether this level is below `other`.
    pub open spec fn below(self, other: PermissionType) -> bool {
        self.rank() < other.rank()
    }

    /// Whether an account that holds this level may do what asks for
    /// `required`: the level is `required` or above it.
    pub open spec fn covers(self, required: PermissionType) -> bool {
        self.rank() >= required.rank()
    }

    /// Whether an account that holds this level may do what asks for
    /// `required`.
    pub fn allows(&self, required: PermissionType) -> (res: bool)
        ensures
            res == self.covers(required),
    {
        *self >= required
    }
}

impl PartialOrd for PermissionType {
    fn partial_cmp(&self, other: &PermissionType) -> (res: Option<Ordering>) {
        match (*self, *other) {
            (PermissionType::NoAccess, PermissionType::NoAccess) => Some(Ordering::Equal),
            (PermissionType::NoAccess, _) => Some(Ordering::Less),
            (PermissionType::Read, PermissionType::NoAccess) => Some(Ordering::Greater),
            (PermissionType::Read, PermissionType::Read) => Some(Ordering::Equal),
            (PermissionType::Read, PermissionType::ReadWrite) => Some(Ordering::Less),
            (PermissionType::ReadWrite, PermissionType::ReadWrite) => Some(Ordering::Equal),
            (PermissionType::ReadWrite, _) => Some(Ordering::Greater),
        }
    }
}

impl vstd::std_specs::cmp::PartialOrdSpecImpl for PermissionType {
    open spec fn obeys_partial_cmp_spec() -> bool {
        true
    }

    open spec fn partial_cmp_spec(&self, other: &PermissionType) -> Option<Ordering> {
        if self.rank() < other.rank() {
            Some(Ordering::Less)
        } else if self.rank() == other.rank() {
            Some(Ordering::Equal)
        } else {
            Some(Ordering::Greater)
        }
    }
}

/// The level that one account was granted.
#[derive(Clone, Copy, Debug, PartialEq, Eq, Structural, Hash)]
pub struct Grant {
    /// The account that holds the level.
    pub account: AccountID,
    /// The level that it holds.
    pub kind: PermissionType,
}

/// Why an account is refused by the access check.
#[derive(Clone, Copy, Debug, PartialEq, Eq, Structural, Hash)]
pub enum AuthzError {
    /// There is no lesson of that identity.
    NotFound,
    /// The account's level for the lesson is below the one required.
    Insufficient,
}

/// The proof that an account passed the access check for a lesson: only a check
/// that succeeded makes one, and every operation on a lesson asks for one.
#[derive(Debug)]
pub struct Capability {
    pub(crate) account: AccountID,
    pub(crate) lesson: LessonID,
    pub(crate) level: PermissionType,
}

impl Capability {
    /// The account that was checked.
    pub open(crate) spec fn spec_account(&self) -> AccountID {
        self.account
    }

    /// The lesson that the account was checked for.
    pub open(crate) spec fn spec_lesson(&self) -> LessonID {
        self.lesson
    }

    /// The level that the check asked for.
    pub open(crate) spec fn spec_level(&self) -> PermissionType {
        self.level
    }

    /// The account that was checked.
    #[verifier::when_used_as_spec(spec_account)]
    pub fn account(&self) -> (res: AccountID)
        ensures
            res == self.spec_account(),
    {
        self.account
    }

    /// The lesson that the account was checked for.
    #[verifier::when_used_as_spec(spec_lesson)]
    pub fn lesson(&self) -> (res: LessonID)
        ensures
            res == self.spec_lesson(),
    {
        self.lesson
    }

    /// The level that the check asked for.
    #[verifier::when_used_as_spec(spec_level)]
    pub fn level(&self) -> (res: PermissionType)
        ensures
            res == self.spec_level(),
    {
        self.level
    }
}


/// The levels are in a strict order that holds through: no access is below
/// read, read is below read-write, so no access is below read-write; no
/// level is below itself, and of two different levels one is below the
/// other. A level covers what asks for a level that is not above it.
pub proof fn lemma_levels_ordered(a: PermissionType, b: PermissionType, c: PermissionType)
    ensures
        PermissionType::NoAccess.below(PermissionType::Read),
        PermissionType::Read.below(PermissionType::ReadWrite),
        a.below(b) && b.below(c) ==> a.below(c),
        !a.below(a),
        a != b ==> a.below(b) || b.below(a),
        !(a.below(b) && b.below(a)),
        a.covers(b) <==> !a.below(b),
        a.covers(b) && b.covers(c) ==> a.covers(c),
        a.partial_cmp_spec(&b) == Some(Ordering::Less) <==> a.below(b),
        a.partial_cmp_spec(&b) == Some(Ordering::Equal) <==> a == b,
{
}

/// An account that holds read and no more does not pass where read-write
/// is asked for, and passes where read is.
pub proof fn lemma_read_is_not_read_write()
    ensures
        !PermissionType::Read.covers(PermissionType::ReadWrite),
        PermissionType::Read.covers(PermissionType::Read),
        PermissionType::ReadWrite.covers(PermissionType::Read),
        !PermissionType::NoAccess.covers(PermissionType::Read),
{
}

} // verus!
