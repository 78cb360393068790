//! Calendar recurrence rules and the dates on which they occur.

pub mod calendar;
pub mod day_filter;
pub mod occurrences;

pub use calendar::Date;
pub use day_filter::DayFilter;
use calendar::MIN_DAYS;
use occurrences::Iter;

use vstd::prelude::*;

verus! {

/// The frequency of a recurring rule.
#[derive(Clone, Copy, Debug, PartialEq, Eq, Structural)]
pub enum Frequency {
    /// Reoccur weekly, on the given days.
    Weekly { days: DayFilter },
    /// Reoccur monthly, on the given day of the month (from 1).
    Monthly { date: u8 },
    /// Reoccur yearly, on the given day (from 1) of the given month (1 to 12).
    Yearly { date: u8, month: u8 },
}

/// Where a date falls on a day outside the day filter, whether to look for the
/// next allowed day forward or backward in time.
#[derive(Clone, Copy, Debug, PartialEq, Eq, Structural)]
pub enum ResolveDirection {
    /// Look forward to the next allowed day.
    IntoFuture,
    /// Look back to the previous allowed day.
    IntoPast,
}

/// A recurrence rule.
#[derive(Clone, Copy, Debug, PartialEq, Eq, Structural)]
pub struct RecurrenceRule {
    not_before: Date,
    not_after: Option<Date>,
    max_occurrences: Option<u64>,
    frequency: Frequency,
    day_filter: DayFilter,
    resolve: ResolveDirection,
}

impl RecurrenceRule {
    /// The first day on which the rule is valid.
    pub closed spec fn not_before_spec(self) -> Date {
        self.not_before
    }

    /// The last day on which the rule is valid, if any.
    pub closed spec fn not_after_spec(self) -> Option<Date> {
        self.not_after
    }

    /// The most occurrences that one iteration yields, if limited.
    pub closed spec fn max_occurrences_spec(self) -> Option<u64> {
        self.max_occurrences
    }

    /// The frequency of the rule.
    pub closed spec fn frequency_spec(self) -> Frequency {
        self.frequency
    }

    /// The days on which occurrences may fall.
    pub closed spec fn day_filter_spec(self) -> DayFilter {
        self.day_filter
    }

    /// Where a date outside the day filter is moved.
    pub closed spec fn resolve_spec(self) -> ResolveDirection {
        self.resolve
    }

    /// The validity window is not empty: no upper bound, or one not before the lower.
    pub open spec fn bounds_ordered(self) -> bool {
        match self.not_after_spec() {
            Some(a) => self.not_before_spec()@ <= a@,
            None => true,
        }
    }

    /// A new rule, valid from `not_before` on, with no upper bound and no limit on
    /// occurrences, every day allowed, and dates resolved into the future.
    pub fn new(frequency: Frequency, not_before: Date) -> (r: Self)
        ensures
            r.not_before_spec() == not_before,
            r.not_after_spec() is None,
            r.max_occurrences_spec() is None,
            r.frequency_spec() == frequency,
            r.day_filter_spec().0 == 0x7f,
            r.resolve_spec() == ResolveDirection::IntoFuture,
    {
        RecurrenceRule {
            not_before,
            not_after: None,
            max_occurrences: None,
            frequency,
            day_filter: DayFilter::everyday(),
            resolve: ResolveDirection::IntoFuture,
        }
    }

    /// The first day on which the rule is valid.
    pub fn not_before(&self) -> (r: &Date)
        ensures
            *r == self.not_before_spec(),
    {
        &self.not_before
    }

    /// The last day on which the rule is valid, if any.
    pub fn not_after(&self) -> (r: &Option<Date>)
        ensures
            *r == self.not_after_spec(),
    {
        &self.not_after
    }

    /// The most occurrences that one iteration yields, if limited.
    pub fn max_occurrences(&self) -> (r: &Option<u64>)
        ensures
            *r == self.max_occurrences_spec(),
    {
        &self.max_occurrences
    }

    /// The frequency of the rule.
    pub fn frequency(&self) -> (r: &Frequency)
        ensures
            *r == self.frequency_spec(),
    {
        &self.frequency
    }

    /// The days on which occurrences may fall.
    pub fn day_filter(&self) -> (r: &DayFilter)
        ensures
            *r == self.day_filter_spec(),
    {
        &self.day_filter
    }

    /// Where a date outside the day filter is moved.
    pub fn resolve(&self) -> (r: &ResolveDirection)
        ensures
            *r == self.resolve_spec(),
    {
        &self.resolve
    }

    /// Sets the first valid day, unless it would come after the last valid day:
    /// then nothing changes and the result is `false`.
    pub fn set_not_before(&mut self, not_before: Date) -> (r: bool)
        ensures
            r == match old(self).not_after_spec() {
                Some(a) => not_before@ <= a@,
                None => true,
            },
            r ==> final(self).not_before_spec() == not_before,
            !r ==> *final(self) == *old(self),
            r ==> final(self).bounds_ordered(),
            final(self).not_after_spec() == old(self).not_after_spec(),
            final(self).max_occurrences_spec() == old(self).max_occurrences_spec(),
            final(self).frequency_spec() == old(self).frequency_spec(),
            final(self).day_filter_spec() == old(self).day_filter_spec(),
            final(self).resolve_spec() == old(self).resolve_spec(),
    {
        if let Some(not_after) = &self.not_after {
            if not_before.num_days_from_ce() > not_after.num_days_from_ce() {
                return false;
            }
        }
        self.set_not_before_unchecked(not_before);
        true
    }

    /// Sets the first valid day, whatever the last valid day is.
    pub fn set_not_before_unchecked(&mut self, not_before: Date)
        ensures
            final(self).not_before_spec() == not_before,
            final(self).not_after_spec() == old(self).not_after_spec(),
            final(self).max_occurrences_spec() == old(self).max_occurrences_spec(),
            final(self).frequency_spec() == old(self).frequency_spec(),
            final(self).day_filter_spec() == old(self).day_filter_spec(),
            final(self).resolve_spec() == old(self).resolve_spec(),
    {
        self.not_before = not_before;
    }

    /// Sets the last valid day (or none), unless it would come before the first
    /// valid day: then nothing changes and the result is `false`.
    pub fn set_not_after(&mut self, not_after: Option<Date>) -> (r: bool)
        ensures
            r == match not_after {
                Some(a) => old(self).not_before_spec()@ <= a@,
                None => true,
            },
            r ==> final(self).not_after_spec() == not_after,
            !r ==> *final(self) == *old(self),
            r ==> final(self).bounds_ordered(),
            final(self).not_before_spec() == old(self).not_before_spec(),
            final(self).max_occurrences_spec() == old(self).max_occurrences_spec(),
            final(self).frequency_spec() == old(self).frequency_spec(),
            final(self).day_filter_spec() == old(self).day_filter_spec(),
            final(self).resolve_spec() == old(self).resolve_spec(),
    {
        if let Some(not_after_date) = &not_after {
            if not_after_date.num_days_from_ce() < self.not_before.num_days_from_ce() {
                return false;
            }
        }
        self.set_not_after_unchecked(not_after);
        true
    }

    /// Sets the last valid day (or none), whatever the first valid day is.
    pub fn set_not_after_unchecked(&mut self, not_after: Option<Date>)
        ensures
            final(self).not_before_spec() == old(self).not_before_spec(),
            final(self).not_after_spec() == not_after,
            final(self).max_occurrences_spec() == old(self).max_occurrences_spec(),
            final(self).frequency_spec() == old(self).frequency_spec(),
            final(self).day_filter_spec() == old(self).day_filter_spec(),
            final(self).resolve_spec() == old(self).resolve_spec(),
    {
        self.not_after = not_after;
    }

    /// Sets the limit on the number of occurrences (or none).
    pub fn set_max_occurrences(&mut self, max_occurrences: Option<u64>)
        ensures
            final(self).not_before_spec() == old(self).not_before_spec(),
            final(self).not_after_spec() == old(self).not_after_spec(),
            final(self).max_occurrences_spec() == max_occurrences,
            final(self).frequency_spec() == old(self).frequency_spec(),
            final(self).day_filter_spec() == old(self).day_filter_spec(),
            final(self).resolve_spec() == old(self).resolve_spec(),
    {
        self.max_occurrences = max_occurrences;
    }

    /// Sets the frequency.
    pub fn set_frequency(&mut self, frequency: Frequency)
        ensures
            final(self).not_before_spec() == old(self).not_before_spec(),
            final(self).not_after_spec() == old(self).not_after_spec(),
            final(self).max_occurrences_spec() == old(self).max_occurrences_spec(),
            final(self).frequency_spec() == frequency,
            final(self).day_filter_spec() == old(self).day_filter_spec(),
            final(self).resolve_spec() == old(self).resolve_spec(),
    {
        self.frequency = frequency;
    }

    /// Sets the days on which occurrences may fall.
    pub fn set_day_filter(&mut self, day_filter: DayFilter)
        ensures
            final(self).not_before_spec() == old(self).not_before_spec(),
            final(self).not_after_spec() == old(self).not_after_spec(),
            final(self).max_occurrences_spec() == old(self).max_occurrences_spec(),
            final(self).frequency_spec() == old(self).frequency_spec(),
            final(self).day_filter_spec() == day_filter,
            final(self).resolve_spec() == old(self).resolve_spec(),
    {
        self.day_filter = day_filter;
    }

    /// Sets the direction in which a date outside the day filter is moved.
    pub fn set_resolve(&mut self, resolve: ResolveDirection)
        ensures
            final(self).not_before_spec() == old(self).not_before_spec(),
            final(self).not_after_spec() == old(self).not_after_spec(),
            final(self).max_occurrences_spec() == old(self).max_occurrences_spec(),
            final(self).frequency_spec() == old(self).frequency_spec(),
            final(self).day_filter_spec() == old(self).day_filter_spec(),
            final(self).resolve_spec() == resolve,
    {
        self.resolve = resolve;
    }

    /// An iteration over the occurrences of this rule that come after
    /// `start_point`.
    pub fn iter_after(&self, start_point: &Date) -> (r: Iter)
        ensures
            r.cursor() == *start_point,
            r.count() == 0,
            r.rule() == *self,
    {
        Iter::new(*self, *start_point)
    }

    /// An iteration over the occurrences of this rule from its first valid day
    /// on (that day included). The first valid day must not be the first date of
    /// the range.
    pub fn iter(&self) -> (r: Iter)
        requires
            self.not_before_spec()@ > MIN_DAYS,
        ensures
            r.cursor()@ == self.not_before_spec()@ - 1,
            r.count() == 0,
            r.rule() == *self,
    {
        let start = self.not_before.checked_sub_days(1).unwrap();
        self.iter_after(&start)
    }
}

} // verus!
