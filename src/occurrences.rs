//! Occurrences of a rule, and iterators over them.

use crate::calendar::{
    day_number, is_valid_ymd, lemma_day_number_order, lemma_ymd_of_valid, weekday_of, ymd_before,
    ymd_of, MAX_DAYS, MAX_YEAR, MIN_DAYS,
};
use crate::{Date, DayFilter, Frequency, RecurrenceRule, ResolveDirection};
use vstd::prelude::*;

verus! {

/// The day reached from day `n` by stepping forward, at most `fuel` times, until
/// the weekday is in `f`.
pub open spec fn scan_forward(f: DayFilter, n: int, fuel: nat) -> int
    decreases fuel,
{
    if fuel == 0 || f.has_weekday(weekday_of(n)) {
        n
    } else {
        scan_forward(f, n + 1, (fuel - 1) as nat)
    }
}

/// The day reached from day `n` by stepping backward, at most `fuel` times, until
/// the weekday is in `f`.
pub open spec fn scan_backward(f: DayFilter, n: int, fuel: nat) -> int
    decreases fuel,
{
    if fuel == 0 || f.has_weekday(weekday_of(n)) {
        n
    } else {
        scan_backward(f, n - 1, (fuel - 1) as nat)
    }
}

/// The first day from day `n` on whose weekday is in `f` (for a set that is not
/// empty it comes within a week), or `None` where it lies past the last date.
pub open spec fn forward_to(f: DayFilter, n: int) -> Option<int> {
    let k = scan_forward(f, n, 7);
    if k <= MAX_DAYS {
        Some(k)
    } else {
        None
    }
}

/// The last day up to day `n` whose weekday is in `f`, or `None` where it lies
/// before the first date.
pub open spec fn backward_to(f: DayFilter, n: int) -> Option<int> {
    let k = scan_backward(f, n, 7);
    if k >= MIN_DAYS {
        Some(k)
    } else {
        None
    }
}

/// For a monthly or yearly frequency, the year, month and day that it targets
/// after the day numbered `cursor`: this month (or year) while the cursor is
/// before the target day, else the next.
pub open spec fn target_ymd(freq: Frequency, cursor: int) -> (int, int, int) {
    let (y, m, d) = ymd_of(cursor);
    match freq {
        Frequency::Monthly { date } => {
            if d >= date {
                if m == 12 {
                    (y + 1, 1, date as int)
                } else {
                    (y, m + 1, date as int)
                }
            } else {
                (y, m, date as int)
            }
        },
        Frequency::Yearly { date, month } => {
            if m > month || (m == month && d >= date) {
                (y + 1, month as int, date as int)
            } else {
                (y, month as int, date as int)
            }
        },
        Frequency::Weekly { .. } => (y, m, d),
    }
}

/// Stepping the frequency from `cursor` meets no malformed value: a weekly set
/// of days that is not empty, or a monthly or yearly target that is a real date
/// (where its year is within range).
pub open spec fn target_exists(freq: Frequency, cursor: int) -> bool {
    match freq {
        Frequency::Weekly { days } => days.has_some_weekday(),
        _ => {
            let t = target_ymd(freq, cursor);
            t.0 <= MAX_YEAR ==> is_valid_ymd(t.0, t.1, t.2)
        },
    }
}

/// The day that the frequency advances to from `cursor`, before the day filter;
/// `None` past the range of dates.
pub open spec fn advance(freq: Frequency, cursor: int) -> Option<int> {
    match freq {
        Frequency::Weekly { days } => forward_to(days, cursor + 1),
        _ => {
            let t = target_ymd(freq, cursor);
            if t.0 <= MAX_YEAR && is_valid_ymd(t.0, t.1, t.2) {
                Some(day_number(t.0, t.1, t.2))
            } else {
                None
            }
        },
    }
}

/// Day `n` moved in direction `dir` onto a weekday of `f`.
pub open spec fn resolve_day(f: DayFilter, dir: ResolveDirection, n: int) -> Option<int> {
    match dir {
        ResolveDirection::IntoFuture => forward_to(f, n),
        ResolveDirection::IntoPast => backward_to(f, n),
    }
}

/// The day of the occurrence that follows day `cursor`, by frequency and then
/// day filter.
pub open spec fn step(rule: RecurrenceRule, cursor: int) -> Option<int> {
    match advance(rule.frequency_spec(), cursor) {
        Some(n) => resolve_day(rule.day_filter_spec(), rule.resolve_spec(), n),
        None => None,
    }
}

/// An iteration at `cursor` that has produced `count` occurrences ends: the
/// cursor is past the last valid day, or the limit on occurrences is reached.
pub open spec fn finished(rule: RecurrenceRule, cursor: int, count: int) -> bool {
    (rule.not_after_spec() matches Some(a) && cursor > a@) || (
    rule.max_occurrences_spec() matches Some(k) && count >= k)
}

/// The day of the next occurrence of an iteration at `cursor` that has produced
/// `count` occurrences, or `None` where the iteration ends.
pub open spec fn next_day(rule: RecurrenceRule, cursor: int, count: int) -> Option<int> {
    if finished(rule, cursor, count) {
        None
    } else {
        step(rule, cursor)
    }
}

/// The next step of an iteration meets no malformed value of the rule.
pub open spec fn can_step(rule: RecurrenceRule, cursor: int, count: int) -> bool {
    finished(rule, cursor, count) || (rule.day_filter_spec().has_some_weekday() && target_exists(
        rule.frequency_spec(),
        cursor,
    ) && count < u64::MAX)
}

/// The days of the occurrences that `k` successive pulls yield from an
/// iteration at `cursor` that has produced `count` occurrences.
pub open spec fn pulls(rule: RecurrenceRule, cursor: int, count: int, k: nat) -> Seq<int>
    decreases k,
{
    if k == 0 {
        seq![]
    } else {
        match next_day(rule, cursor, count) {
            Some(n) => seq![n] + pulls(rule, n, count + 1, (k - 1) as nat),
            None => seq![],
        }
    }
}

/// The day number of an optional date.
pub open spec fn opt_days(r: Option<Date>) -> Option<int> {
    match r {
        Some(d) => Some(d@),
        None => None,
    }
}

proof fn lemma_scan_forward_bounds(f: DayFilter, n: int, fuel: nat)
    ensures
        n <= scan_forward(f, n, fuel) <= n + fuel,
    decreases fuel,
{
    if fuel > 0 && !f.has_weekday(weekday_of(n)) {
        lemma_scan_forward_bounds(f, n + 1, (fuel - 1) as nat);
    }
}

proof fn lemma_scan_backward_bounds(f: DayFilter, n: int, fuel: nat)
    ensures
        n - fuel <= scan_backward(f, n, fuel) <= n,
    decreases fuel,
{
    if fuel > 0 && !f.has_weekday(weekday_of(n)) {
        lemma_scan_backward_bounds(f, n - 1, (fuel - 1) as nat);
    }
}

proof fn lemma_weekday_forward(w: int, n: int)
    requires
        0 <= w < 7,
        w != weekday_of(n),
    ensures
        (w - weekday_of(n + 1)) % 7 == (w - weekday_of(n)) % 7 - 1,
        (w - weekday_of(n)) % 7 >= 1,
{
    assert(weekday_of(n + 1) == (weekday_of(n) + 1) % 7);
}

proof fn lemma_weekday_backward(w: int, n: int)
    requires
        0 <= w < 7,
        w != weekday_of(n),
    ensures
        (weekday_of(n - 1) - w) % 7 == (weekday_of(n) - w) % 7 - 1,
        (weekday_of(n) - w) % 7 >= 1,
{
    assert(weekday_of(n - 1) == (weekday_of(n) + 6) % 7);
}

/// Steps forward from `start` to the first day whose weekday is in `f`.
fn walk_forward(f: DayFilter, start: Date) -> (r: Option<Date>)
    requires
        f.has_some_weekday(),
    ensures
        opt_days(r) == forward_to(f, start@),
{
    let ghost w = choose|w: int| f.has_weekday(w);
    let ghost mut fuel: nat = 7;
    let mut n = start;
    while !f.contains_weekday(n.weekday())
        invariant
            f.has_weekday(w),
            (w - weekday_of(n@)) % 7 <= fuel <= 7,
            scan_forward(f, n@, fuel) == scan_forward(f, start@, 7),
        decreases (w - weekday_of(n@)) % 7,
    {
        proof {
            lemma_weekday_forward(w, n@);
        }
        match n.checked_add_days(1) {
            Some(next) => {
                n = next;
                proof {
                    fuel = (fuel - 1) as nat;
                }
            },
            None => {
                proof {
                    lemma_scan_forward_bounds(f, n@ + 1, (fuel - 1) as nat);
                }
                return None;
            },
        }
    }
    Some(n)
}

/// Steps backward from `start` to the last day whose weekday is in `f`.
fn walk_backward(f: DayFilter, start: Date) -> (r: Option<Date>)
    requires
        f.has_some_weekday(),
    ensures
        opt_days(r) == backward_to(f, start@),
{
    let ghost w = choose|w: int| f.has_weekday(w);
    let ghost mut fuel: nat = 7;
    let mut n = start;
    while !f.contains_weekday(n.weekday())
        invariant
            f.has_weekday(w),
            (weekday_of(n@) - w) % 7 <= fuel <= 7,
            scan_backward(f, n@, fuel) == scan_backward(f, start@, 7),
        decreases (weekday_of(n@) - w) % 7,
    {
        proof {
            lemma_weekday_backward(w, n@);
        }
        match n.checked_sub_days(1) {
            Some(prev) => {
                n = prev;
                proof {
                    fuel = (fuel - 1) as nat;
                }
            },
            None => {
                proof {
                    lemma_scan_backward_bounds(f, n@ - 1, (fuel - 1) as nat);
                }
                return None;
            },
        }
    }
    Some(n)
}

/// One occurrence of a recurrence rule.
#[derive(Clone, Copy, Debug, PartialEq, Eq, Structural, PartialOrd, Ord, Hash)]
pub struct Occurrence {
    at: Date,
}

impl Occurrence {
    /// The date of the occurrence.
    pub closed spec fn view(self) -> Date {
        self.at
    }

    /// The occurrence on the given date.
    pub fn new(at: Date) -> (r: Occurrence)
        ensures
            r@ == at,
    {
        Occurrence { at }
    }

    /// The date of the occurrence.
    pub fn at(&self) -> (r: &Date)
        ensures
            *r == self@,
    {
        &self.at
    }
}

/// An iteration over the occurrences of a rule. It may never end.
pub struct Iter {
    currently_at: Date,
    index: u64,
    rule: RecurrenceRule,
}

impl Iter {
    /// The date of the last occurrence produced, or the date the iteration started after.
    pub closed spec fn cursor(self) -> Date {
        self.currently_at
    }

    /// The number of occurrences produced so far.
    pub closed spec fn count(self) -> u64 {
        self.index
    }

    /// The rule iterated over.
    pub closed spec fn rule(self) -> RecurrenceRule {
        self.rule
    }

    /// An iteration over `rule` that starts after `start_point`.
    pub(crate) fn new(rule: RecurrenceRule, start_point: Date) -> (r: Iter)
        ensures
            r.cursor() == start_point,
            r.count() == 0,
            r.rule() == rule,
    {
        Iter { currently_at: start_point, index: 0, rule }
    }

    /// The date the frequency advances to from the cursor, before the day filter.
    fn advance_cursor(&self) -> (r: Option<Date>)
        requires
            target_exists(self.rule().frequency_spec(), self.cursor()@),
        ensures
            opt_days(r) == advance(self.rule().frequency_spec(), self.cursor()@),
    {
        let cursor = self.currently_at;
        match *self.rule.frequency() {
            Frequency::Weekly { days } => {
                match cursor.checked_add_days(1) {
                    Some(start) => walk_forward(days, start),
                    None => {
                        proof {
                            lemma_scan_forward_bounds(days, cursor@ + 1, 7);
                        }
                        None
                    },
                }
            },
            Frequency::Monthly { date } => {
                let (y, m, d) = cursor.ymd();
                let (y2, m2): (i32, u32) = if d >= date as u32 {
                    if m == 12 {
                        (y + 1, 1)
                    } else {
                        (y, m + 1)
                    }
                } else {
                    (y, m)
                };
                if y2 > MAX_YEAR {
                    return None;
                }
                Date::from_ymd_opt(y2, m2, date as u32)
            },
            Frequency::Yearly { date, month } => {
                let (y, m, d) = cursor.ymd();
                let y2: i32 = if m > month as u32 || (m == month as u32 && d >= date as u32) {
                    y + 1
                } else {
                    y
                };
                if y2 > MAX_YEAR {
                    return None;
                }
                Date::from_ymd_opt(y2, month as u32, date as u32)
            },
        }
    }

    /// Produces the next occurrence, or `None` where the iteration ends: the
    /// cursor is past the last valid day, the limit on occurrences is reached, or
    /// the next date would lie outside the range of dates.
    pub fn next(&mut self) -> (r: Option<Occurrence>)
        requires
            can_step(old(self).rule(), old(self).cursor()@, old(self).count() as int),
        ensures
            match next_day(old(self).rule(), old(self).cursor()@, old(self).count() as int) {
                Some(n) => r matches Some(o) && o@@ == n && final(self).cursor() == o@
                    && final(self).count() == old(self).count() + 1 && final(self).rule() == old(
                    self,
                ).rule(),
                None => r is None && *final(self) == *old(self),
            },
    {
        if let Some(not_after) = self.rule.not_after() {
            if self.currently_at.num_days_from_ce() > not_after.num_days_from_ce() {
                return None;
            }
        }
        if let Some(max_occurrences) = self.rule.max_occurrences() {
            if self.index >= *max_occurrences {
                return None;
            }
        }
        let tentative = match self.advance_cursor() {
            Some(t) => t,
            None => return None,
        };
        let filter = *self.rule.day_filter();
        let resolved = match *self.rule.resolve() {
            ResolveDirection::IntoFuture => walk_forward(filter, tentative),
            ResolveDirection::IntoPast => walk_backward(filter, tentative),
        };
        match resolved {
            Some(at) => {
                self.index = self.index + 1;
                self.currently_at = at;
                Some(Occurrence { at })
            },
            None => None,
        }
    }
}

proof fn lemma_scan_forward_hits(f: DayFilter, n: int, fuel: nat, w: int)
    requires
        f.has_weekday(w),
        (w - weekday_of(n)) % 7 <= fuel,
    ensures
        f.has_weekday(weekday_of(scan_forward(f, n, fuel))),
    decreases fuel,
{
    if !f.has_weekday(weekday_of(n)) {
        lemma_weekday_forward(w, n);
        lemma_scan_forward_hits(f, n + 1, (fuel - 1) as nat, w);
    }
}

proof fn lemma_scan_backward_hits(f: DayFilter, n: int, fuel: nat, w: int)
    requires
        f.has_weekday(w),
        (weekday_of(n) - w) % 7 <= fuel,
    ensures
        f.has_weekday(weekday_of(scan_backward(f, n, fuel))),
    decreases fuel,
{
    if !f.has_weekday(weekday_of(n)) {
        lemma_weekday_backward(w, n);
        lemma_scan_backward_hits(f, n - 1, (fuel - 1) as nat, w);
    }
}

/// Where the day filter is not empty, every occurrence falls on a day of it,
/// in either direction of resolution.
pub proof fn lemma_occurrence_on_filter_day(rule: RecurrenceRule, cursor: int)
    requires
        rule.day_filter_spec().has_some_weekday(),
    ensures
        step(rule, cursor) matches Some(n) ==> rule.day_filter_spec().has_weekday(weekday_of(n)),
{
    let f = rule.day_filter_spec();
    let w = choose|w: int| f.has_weekday(w);
    if let Some(a) = advance(rule.frequency_spec(), cursor) {
        lemma_scan_forward_hits(f, a, 7, w);
        lemma_scan_backward_hits(f, a, 7, w);
    }
}

/// With resolution into the future, the next occurrence comes strictly after the cursor.
pub proof fn lemma_step_after_cursor(rule: RecurrenceRule, cursor: int)
    requires
        rule.resolve_spec() == ResolveDirection::IntoFuture,
    ensures
        step(rule, cursor) matches Some(n) ==> n > cursor,
{
    let freq = rule.frequency_spec();
    if let Some(a) = advance(freq, cursor) {
        match freq {
            Frequency::Weekly { days } => {
                lemma_scan_forward_bounds(days, cursor + 1, 7);
            },
            _ => {
                lemma_ymd_of_valid(cursor);
                let c = ymd_of(cursor);
                let t = target_ymd(freq, cursor);
                assert(ymd_before(c.0, c.1, c.2, t.0, t.1, t.2));
                lemma_day_number_order(c.0, c.1, c.2, t.0, t.1, t.2);
            },
        }
        lemma_scan_forward_bounds(rule.day_filter_spec(), a, 7);
    }
}

/// With resolution into the future, the occurrences of an iteration come in
/// strictly increasing order, all after the date it started from.
pub proof fn lemma_occurrences_increase(rule: RecurrenceRule, cursor: int, count: int, k: nat)
    requires
        rule.resolve_spec() == ResolveDirection::IntoFuture,
    ensures
        forall|i: int| 0 <= i < pulls(rule, cursor, count, k).len() ==> pulls(rule, cursor, count, k)[i] > cursor,
        forall|i: int, j: int|
            0 <= i < j < pulls(rule, cursor, count, k).len() ==> pulls(rule, cursor, count, k)[i]
                < pulls(rule, cursor, count, k)[j],
    decreases k,
{
    if k > 0 {
        if let Some(n) = next_day(rule, cursor, count) {
            lemma_step_after_cursor(rule, cursor);
            lemma_occurrences_increase(rule, n, count + 1, (k - 1) as nat);
            let s = pulls(rule, cursor, count, k);
            let rest = pulls(rule, n, count + 1, (k - 1) as nat);
            assert(s == seq![n] + rest);
            assert forall|i: int, j: int| 0 <= i < j < s.len() implies s[i] < s[j] by {
                if i > 0 {
                    assert(s[i] == rest[i - 1] && s[j] == rest[j - 1]);
                } else {
                    assert(s[j] == rest[j - 1]);
                }
            }
            assert forall|i: int| 0 <= i < s.len() implies s[i] > cursor by {
                if i > 0 {
                    assert(s[i] == rest[i - 1]);
                }
            }
        }
    }
}

/// An iteration whose rule limits occurrences to `m`, having produced `count`
/// of them, yields at most `m - count` more.
pub proof fn lemma_occurrences_capped(rule: RecurrenceRule, cursor: int, count: int, k: nat)
    requires
        rule.max_occurrences_spec() is Some,
        0 <= count <= rule.max_occurrences_spec().unwrap(),
    ensures
        pulls(rule, cursor, count, k).len() + count <= rule.max_occurrences_spec().unwrap(),
    decreases k,
{
    if k > 0 {
        if let Some(n) = next_day(rule, cursor, count) {
            lemma_occurrences_capped(rule, n, count + 1, (k - 1) as nat);
        }
    }
}

/// An iteration whose rule has a last valid day yields an occurrence only from a
/// cursor on or before that day: every occurrence but the last one yielded lies
/// on or before it.
pub proof fn lemma_occurrences_past_window_end(rule: RecurrenceRule, cursor: int, count: int, k: nat)
    requires
        rule.not_after_spec() is Some,
    ensures
        pulls(rule, cursor, count, k).len() > 0 ==> cursor <= rule.not_after_spec().unwrap()@,
        forall|i: int|
            0 <= i < pulls(rule, cursor, count, k).len() - 1 ==> pulls(rule, cursor, count, k)[i]
                <= rule.not_after_spec().unwrap()@,
    decreases k,
{
    if k > 0 {
        if let Some(n) = next_day(rule, cursor, count) {
            lemma_occurrences_past_window_end(rule, n, count + 1, (k - 1) as nat);
            let s = pulls(rule, cursor, count, k);
            let rest = pulls(rule, n, count + 1, (k - 1) as nat);
            assert(s == seq![n] + rest);
            assert forall|i: int| 0 <= i < s.len() - 1 implies s[i]
                <= rule.not_after_spec().unwrap()@ by {
                if i > 0 {
                    assert(s[i] == rest[i - 1]);
                } else {
                    assert(rest.len() > 0);
                }
            }
        }
    }
}

} // verus!
