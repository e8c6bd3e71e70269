//! Recurrence rules: a start date, a unit, a step and an optional end date,
//! and the test whether a rule produces an occurrence on a given date.

use vstd::prelude::*;
use vstd::arithmetic::div_mod::lemma_fundamental_div_mod;
use vstd::arithmetic::div_mod::lemma_mod_multiples_basic;
use vstd::arithmetic::mul::lemma_mul_is_commutative;

use crate::date::Date;
use crate::date::days_in_month;
use crate::date::month_length;

verus! {

/// The identity of a recurrence rule.
#[derive(Clone, Copy, Debug, PartialEq, Eq, Structural, Hash)]
pub struct RepeatID(pub u128);

/// The unit in which a rule's step is counted.
#[derive(Clone, Copy, Debug, PartialEq, Eq, Structural, Hash)]
pub enum RepeatUnit {
    /// The step counts days.
    Daily,
    /// The step counts weeks of seven days.
    Weekly,
    /// The step counts calendar months.
    Monthly,
}

/// A recurrence rule. It produces occurrences from `start` on, every
/// `step` units, up to and with `end` where there is one.
#[derive(Clone, Copy, Debug, PartialEq, Eq, Structural, Hash)]
pub struct Repeat {
    /// The rule's identity, by which single occurrences refer to it.
    pub id: RepeatID,
    /// The date of the first occurrence.
    pub start: Date,
    /// The unit of `step`.
    pub unit: RepeatUnit,
    /// The distance between two occurrences, in units.
    pub step: u32,
    /// The last date on which the rule may produce an occurrence.
    pub end: Option<Date>,
}

/// Why a recurrence rule is not accepted.
#[derive(Clone, Copy, Debug, PartialEq, Eq, Structural, Hash)]
pub enum RepeatFault {
    /// The step is 0.
    ZeroStep,
    /// The end date lies before the start date.
    EndBeforeStart,
}

/// Whether `distance` is `k` times `period` for some `k` that is not
/// negative.
pub open spec fn is_multiple(distance: int, period: int) -> bool {
    exists|k: nat| distance == #[trigger] (k * period)
}

impl Repeat {
    /// What a lesson asks of its rules: a step of at least 1, and an end
    /// date, where there is one, that is not before the start date.
    pub open spec fn valid(self) -> bool {
        &&& self.step >= 1
        &&& self.end matches Some(end) ==> self.start.day_number() <= end.day_number()
    }

    /// What is wrong with the rule, the step first.
    pub open spec fn fault(self) -> Option<RepeatFault> {
        if self.step == 0 {
            Some(RepeatFault::ZeroStep)
        } else if self.end is Some && self.end.unwrap().day_number() < self.start.day_number() {
            Some(RepeatFault::EndBeforeStart)
        } else {
            None
        }
    }

    /// Whether `date` is the rule's occurrence number `k`, counted from 0 at
    /// the start date: `k` steps of days or weeks after the start date, or
    /// `k` steps of calendar months after it, on the start date's day of
    /// the month or on the month's last day where the month is shorter.
    pub open spec fn is_occurrence(self, date: Date, k: nat) -> bool {
        match self.unit {
            RepeatUnit::Daily => date.day_number() - self.start.day_number() == k * self.step,
            RepeatUnit::Weekly => date.day_number() - self.start.day_number() == k * (7
                * self.step),
            RepeatUnit::Monthly => self.start.months_after(k * self.step) == Some(date),
        }
    }

    /// Whether the rule produces an occurrence on `date`: the date is not
    /// before the start date, not after the end date, and a whole number of
    /// steps away from the start date.
    pub open spec fn recurs_on(self, date: Date) -> bool {
        &&& self.start.day_number() <= date.day_number()
        &&& self.end matches Some(end) ==> date.day_number() <= end.day_number()
        &&& exists|k: nat| #[trigger] self.is_occurrence(date, k)
    }

    /// Finds what is wrong with the rule, if anything.
    pub fn check(&self) -> (res: Option<RepeatFault>)
        ensures
            res == self.fault(),
            res is None <==> self.valid(),
    {
        if self.step == 0 {
            return Some(RepeatFault::ZeroStep);
        }
        match self.end {
            Some(end) => {
                if end.lt(&self.start) {
                    Some(RepeatFault::EndBeforeStart)
                } else {
                    None
                }
            },
            None => None,
        }
    }

    /// Whether the rule produces an occurrence on `date`.
    pub fn matches(&self, date: &Date) -> (res: bool)
        ensures
            res == self.recurs_on(*date),
    {
        if date.lt(&self.start) {
            return false;
        }
        match self.end {
            Some(end) => {
                if end.lt(date) {
                    return false;
                }
            },
            None => {},
        }
        match self.unit {
            RepeatUnit::Daily => {
                let days: i64 = date.days_since(&self.start);
                let res = divides(self.step as u64, days as u64);
                proof {
                    assert forall|k: nat| self.is_occurrence(*date, k) == (days == #[trigger] (k
                        * (self.step as int))) by {}
                    lemma_exists_occurrence(*self, *date, days as int, self.step as int);
                }
                res
            },
            RepeatUnit::Weekly => {
                let days: i64 = date.days_since(&self.start);
                let res = divides(7 * (self.step as u64), days as u64);
                proof {
                    assert forall|k: nat| self.is_occurrence(*date, k) == (days == #[trigger] (k
                        * (7 * self.step as int))) by {}
                    lemma_exists_occurrence(*self, *date, days as int, 7 * self.step as int);
                }
                res
            },
            RepeatUnit::Monthly => {
                let months: i64 = date.months_since(&self.start);
                let last: u32 = month_length(date.year(), date.month());
                let day: u32 = if self.start.day() <= last {
                    self.start.day()
                } else {
                    last
                };
                let res = months >= 0 && date.day() == day && divides(
                    self.step as u64,
                    months as u64,
                );
                proof {
                    use_type_invariant(&self.start);
                    use_type_invariant(date);
                    lemma_monthly(*self, *date);
                }
                res
            },
        }
    }
}

/// Whether `distance` is a multiple of `period`: with a period of 0, only
/// the distance 0 is.
pub fn divides(period: u64, distance: u64) -> (res: bool)
    ensures
        res == is_multiple(distance as int, period as int),
{
    proof {
        lemma_multiples(distance as int, period as int);
    }
    if period == 0 {
        distance == 0
    } else {
        distance % period == 0
    }
}

/// The multiples of a period are the distances that leave no remainder; the
/// only multiple of 0 is 0.
pub proof fn lemma_multiples(distance: int, period: int)
    requires
        distance >= 0,
        period >= 0,
    ensures
        period == 0 ==> (is_multiple(distance, period) <==> distance == 0),
        period > 0 ==> (is_multiple(distance, period) <==> distance % period == 0),
{
    if period == 0 {
        assert forall|k: nat| #[trigger] (k * period) == 0 by {
            assert(k * 0 == 0) by (nonlinear_arith);
        }
        if distance == 0 {
            assert(distance == 0nat * period);
        }
    } else {
        if distance % period == 0 {
            lemma_fundamental_div_mod(distance, period);
            let k = distance / period;
            assert(k >= 0) by (nonlinear_arith)
                requires
                    distance >= 0,
                    period > 0,
                    k == distance / period,
            ;
            lemma_mul_is_commutative(period, k);
            assert(distance == (k as nat) * period);
        }
        assert forall|k: nat| distance == #[trigger] (k * period) implies distance % period
            == 0 by {
            lemma_mod_multiples_basic(k as int, period);
        }
    }
}

proof fn lemma_exists_occurrence(rule: Repeat, date: Date, distance: int, period: int)
    requires
        forall|k: nat| rule.is_occurrence(date, k) == (distance == #[trigger] (k * period)),
    ensures
        (exists|k: nat| #[trigger] rule.is_occurrence(date, k)) == is_multiple(distance, period),
{
    if is_multiple(distance, period) {
        let k = choose|k: nat| distance == #[trigger] (k * period);
        assert(rule.is_occurrence(date, k));
    }
    if exists|k: nat| #[trigger] rule.is_occurrence(date, k) {
        let k = choose|k: nat| #[trigger] rule.is_occurrence(date, k);
        assert(distance == k * period);
    }
}

proof fn lemma_monthly(rule: Repeat, date: Date)
    requires
        rule.unit == RepeatUnit::Monthly,
        rule.start.valid(),
        date.valid(),
    ensures
        (exists|k: nat| #[trigger] rule.is_occurrence(date, k)) <==> {
            let months = date.month_index() - rule.start.month_index();
            let last = days_in_month(date.spec_year() as int, date.spec_month() as int);
            &&& months >= 0
            &&& is_multiple(months, rule.step as int)
            &&& date.spec_day() == if rule.start.spec_day() <= last {
                rule.start.spec_day() as int
            } else {
                last
            }
        },
{
    let months = date.month_index() - rule.start.month_index();
    let last = days_in_month(date.spec_year() as int, date.spec_month() as int);
    let day = if rule.start.spec_day() <= last {
        rule.start.spec_day() as int
    } else {
        last
    };
    if exists|k: nat| #[trigger] rule.is_occurrence(date, k) {
        let k = choose|k: nat| #[trigger] rule.is_occurrence(date, k);
        let n = k * rule.step;
        assert(rule.start.months_after(n) == Some(date));
        assert(n >= 0);
        assert(months == n);
        assert(is_multiple(months, rule.step as int));
    }
    if months >= 0 && is_multiple(months, rule.step as int) && date.spec_day() == day {
        let k = choose|k: nat| months == #[trigger] (k * (rule.step as int));
        assert(rule.start.months_after(months) == Some(date));
        assert(rule.is_occurrence(date, k));
    }
}

/// A valid rule produces its start date, and no date before it or after
/// its end date.
pub proof fn lemma_rule_bounds(rule: Repeat, date: Date)
    requires
        rule.start.valid(),
    ensures
        rule.valid() ==> rule.recurs_on(rule.start),
        rule.recurs_on(date) ==> rule.start.day_number() <= date.day_number(),
        rule.recurs_on(date) && rule.end is Some ==> date.day_number()
            <= rule.end.unwrap().day_number(),
{
    if rule.valid() {
        assert(0nat * (rule.step as int) == 0) by (nonlinear_arith);
        assert(0nat * (7 * rule.step as int) == 0) by (nonlinear_arith);
        assert(rule.is_occurrence(rule.start, 0nat));
    }
}

} // verus!
