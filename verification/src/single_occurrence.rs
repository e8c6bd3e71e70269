//! Single occurrences: records bound to one date, which stand alone,
//! replace what a recurrence rule produces on that date, or cancel it.

use vstd::prelude::*;

use crate::date::Date;
use crate::repeat::RepeatID;
use crate::text::copy_text;
use crate::text::text_view;

verus! {

/// What a single occurrence is to the recurrence rules of its lesson.
#[derive(Clone, Copy, Debug, PartialEq, Eq, Structural, Hash)]
pub enum OccurrenceKind {
    /// An occurrence of its own, which no rule produces.
    Standalone,
    /// It replaces the occurrence that the named rule produces on its date.
    OverrideOf(RepeatID),
    /// It cancels the occurrence that the named rule produces on the named
    /// date.
    CancellationOf(RepeatID, Date),
}

/// A record bound to one date of a lesson.
#[derive(Debug, PartialEq, Eq)]
pub struct SingleOccurrence {
    /// The date that the record is about.
    pub date: Date,
    /// What the record is to the lesson's rules.
    pub kind: OccurrenceKind,
    /// The title of the occurrence, where it differs from the lesson's.
    pub title: Option<String>,
    /// The description of the occurrence, where it differs from the
    /// lesson's.
    pub description: Option<String>,
}

/// What a [`SingleOccurrence`] holds.
pub struct SpecSingleOccurrence {
    /// The date that the record is about.
    pub date: Date,
    /// What the record is to the lesson's rules.
    pub kind: OccurrenceKind,
    /// The title of the occurrence, where it differs from the lesson's.
    pub title: Option<Seq<char>>,
    /// The description of the occurrence, where it differs from the
    /// lesson's.
    pub description: Option<Seq<char>>,
}

impl SpecSingleOccurrence {
    /// Whether the record cancels an occurrence.
    pub open spec fn is_cancellation(self) -> bool {
        self.kind is CancellationOf
    }
}

impl View for SingleOccurrence {
    type V = SpecSingleOccurrence;

    open spec fn view(&self) -> SpecSingleOccurrence {
        SpecSingleOccurrence {
            date: self.date,
            kind: self.kind,
            title: text_view(self.title),
            description: text_view(self.description),
        }
    }
}

impl Clone for SingleOccurrence {
    fn clone(&self) -> (res: Self)
        ensures
            res@ == self@,
    {
        SingleOccurrence {
            date: self.date,
            kind: self.kind,
            title: copy_text(&self.title),
            description: copy_text(&self.description),
        }
    }
}

impl SingleOccurrence {
    /// Whether the record cancels an occurrence.
    pub fn is_cancellation(&self) -> (res: bool)
        ensures
            res == self@.is_cancellation(),
    {
        match self.kind {
            OccurrenceKind::CancellationOf(_, _) => true,
            _ => false,
        }
    }
}

/// What a list of single occurrences holds.
pub open spec fn singles_view(singles: Seq<SingleOccurrence>) -> Seq<SpecSingleOccurrence> {
    singles.map_values(|s: SingleOccurrence| s@)
}

/// A copy of a list of single occurrences.
pub fn copy_singles(singles: &Vec<SingleOccurrence>) -> (res: Vec<SingleOccurrence>)
    ensures
        singles_view(res@) == singles_view(singles@),
{
    let mut res: Vec<SingleOccurrence> = Vec::new();
    let mut i: usize = 0;
    while i < singles.len()
        invariant
            i <= singles.len(),
            res@.len() == i,
            forall|j: int| 0 <= j < i ==> res@[j]@ == singles@[j]@,
        decreases singles.len() - i,
    {
        res.push(singles[i].clone());
        i = i + 1;
    }
    assert(singles_view(res@) =~= singles_view(singles@));
    res
}

} // verus!
