use recurrence::calendar::{MAX_DAYS, MIN_DAYS};
use recurrence::occurrences::Occurrence;
use recurrence::{Date, DayFilter, Frequency, RecurrenceRule, ResolveDirection};

fn ymd(year: i32, month: u32, day: u32) -> Date {
    Date::from_ymd_opt(year, month, day).unwrap()
}

fn occ(year: i32, month: u32, day: u32) -> Option<Occurrence> {
    Some(Occurrence::new(ymd(year, month, day)))
}

#[test]
fn test_not_before_checking() {
    let mut rule = RecurrenceRule::new(Frequency::Monthly { date: 1 }, ymd(2000, 1, 1));
    rule.set_not_after_unchecked(Some(ymd(2000, 1, 1)));
    let allowed = rule.set_not_before(ymd(2001, 1, 1));
    assert!(!allowed);
    assert_eq!(*rule.not_before(), ymd(2000, 1, 1));
    let allowed = rule.set_not_before(ymd(1999, 1, 1));
    assert!(allowed);
    assert_eq!(*rule.not_before(), ymd(1999, 1, 1));
}

#[test]
fn test_not_after_checking() {
    let mut rule = RecurrenceRule::new(Frequency::Monthly { date: 1 }, ymd(2000, 1, 1));
    let allowed = rule.set_not_after(Some(ymd(1999, 1, 1)));
    assert!(!allowed);
    assert_eq!(*rule.not_after(), None);
    let allowed = rule.set_not_after(Some(ymd(2001, 1, 1)));
    assert!(allowed);
    assert_eq!(*rule.not_after(), Some(ymd(2001, 1, 1)));
}

#[test]
fn resolve_next_yearly() {
    let not_before = ymd(2025, 1, 1);
    let mut rule = RecurrenceRule::new(Frequency::Yearly { date: 1, month: 4 }, not_before);
    rule.set_day_filter(DayFilter::weekdays());
    rule.set_resolve(ResolveDirection::IntoFuture);
    let mut iter = rule.iter_after(&not_before.checked_sub_days(1).unwrap());
    assert_eq!(iter.next(), occ(2025, 4, 1));
    assert_eq!(iter.next(), occ(2026, 4, 1));
    assert_eq!(iter.next(), occ(2027, 4, 1));
    // April 1 2028 is a Saturday: resolved forward to Monday.
    assert_eq!(iter.next(), occ(2028, 4, 3));
}

#[test]
fn resolve_next_monthly() {
    let not_before = ymd(2025, 1, 1);
    let mut rule = RecurrenceRule::new(Frequency::Monthly { date: 1 }, not_before);
    rule.set_day_filter(DayFilter::weekdays());
    rule.set_resolve(ResolveDirection::IntoFuture);
    let mut iter = rule.iter_after(&not_before.checked_sub_days(1).unwrap());
    assert_eq!(iter.next(), occ(2025, 1, 1));
    assert_eq!(iter.next(), occ(2025, 2, 3));
    assert_eq!(iter.next(), occ(2025, 3, 3));
    assert_eq!(iter.next(), occ(2025, 4, 1));
}

#[test]
fn resolve_next_weekly() {
    let not_before = ymd(2025, 1, 1);
    let mut rule = RecurrenceRule::new(
        Frequency::Weekly {
            days: DayFilter::weekends(),
        },
        not_before,
    );
    rule.set_day_filter(DayFilter::anyday());
    rule.set_resolve(ResolveDirection::IntoFuture);
    let mut iter = rule.iter_after(&not_before.checked_sub_days(1).unwrap());
    assert_eq!(iter.next(), occ(2025, 1, 4));
    assert_eq!(iter.next(), occ(2025, 1, 5));
    assert_eq!(iter.next(), occ(2025, 1, 11));
    assert_eq!(iter.next(), occ(2025, 1, 12));
}

#[test]
fn iter_starts_at_not_before() {
    let mut rule = RecurrenceRule::new(Frequency::Monthly { date: 1 }, ymd(2025, 1, 1));
    rule.set_day_filter(DayFilter::weekdays());
    let mut iter = rule.iter();
    assert_eq!(iter.next(), occ(2025, 1, 1));
    assert_eq!(iter.next(), occ(2025, 2, 3));
}

#[test]
fn new_rule_defaults() {
    let rule = RecurrenceRule::new(Frequency::Monthly { date: 5 }, ymd(2024, 2, 29));
    assert_eq!(*rule.not_before(), ymd(2024, 2, 29));
    assert_eq!(*rule.not_after(), None);
    assert_eq!(*rule.max_occurrences(), None);
    assert_eq!(*rule.frequency(), Frequency::Monthly { date: 5 });
    assert_eq!(*rule.day_filter(), DayFilter::everyday());
    assert_eq!(*rule.resolve(), ResolveDirection::IntoFuture);
}

#[test]
fn max_occurrences_caps_iteration() {
    let mut rule = RecurrenceRule::new(
        Frequency::Weekly {
            days: DayFilter::monday(),
        },
        ymd(2025, 1, 1),
    );
    rule.set_max_occurrences(Some(2));
    let mut iter = rule.iter();
    assert_eq!(iter.next(), occ(2025, 1, 6));
    assert_eq!(iter.next(), occ(2025, 1, 13));
    assert_eq!(iter.next(), None);
    assert_eq!(iter.next(), None);
}

#[test]
fn zero_max_occurrences_yields_nothing() {
    let mut rule = RecurrenceRule::new(Frequency::Monthly { date: 3 }, ymd(2025, 1, 1));
    rule.set_max_occurrences(Some(0));
    let mut iter = rule.iter();
    assert_eq!(iter.next(), None);
}

#[test]
fn not_after_ends_iteration() {
    let mut rule = RecurrenceRule::new(Frequency::Monthly { date: 10 }, ymd(2025, 1, 1));
    assert!(rule.set_not_after(Some(ymd(2025, 2, 15))));
    let mut iter = rule.iter();
    assert_eq!(iter.next(), occ(2025, 1, 10));
    assert_eq!(iter.next(), occ(2025, 2, 10));
    // The cursor is still within the window, so one more occurrence comes.
    assert_eq!(iter.next(), occ(2025, 3, 10));
    assert_eq!(iter.next(), None);
}

#[test]
fn resolve_into_past() {
    let mut rule = RecurrenceRule::new(Frequency::Monthly { date: 1 }, ymd(2025, 1, 1));
    rule.set_day_filter(DayFilter::weekdays());
    rule.set_resolve(ResolveDirection::IntoPast);
    let mut iter = rule.iter_after(&ymd(2025, 1, 15));
    // February 1 2025 is a Saturday: resolved back to Friday January 31.
    assert_eq!(iter.next(), occ(2025, 1, 31));
}

#[test]
fn monthly_on_the_target_day_moves_to_next_month() {
    let rule = RecurrenceRule::new(Frequency::Monthly { date: 15 }, ymd(2025, 1, 1));
    let mut iter = rule.iter_after(&ymd(2024, 12, 15));
    assert_eq!(iter.next(), occ(2025, 1, 15));
    let mut iter = rule.iter_after(&ymd(2024, 12, 14));
    assert_eq!(iter.next(), occ(2024, 12, 15));
}

#[test]
fn yearly_leap_day() {
    let rule = RecurrenceRule::new(Frequency::Yearly { date: 29, month: 2 }, ymd(2024, 1, 1));
    let mut iter = rule.iter();
    assert_eq!(iter.next(), occ(2024, 2, 29));
}

#[test]
fn yearly_after_target_goes_to_next_year() {
    let rule = RecurrenceRule::new(Frequency::Yearly { date: 10, month: 6 }, ymd(2020, 1, 1));
    let mut iter = rule.iter_after(&ymd(2020, 6, 10));
    assert_eq!(iter.next(), occ(2021, 6, 10));
    assert_eq!(iter.next(), occ(2022, 6, 10));
}

#[test]
fn weekly_stops_at_end_of_range() {
    let rule = RecurrenceRule::new(
        Frequency::Weekly {
            days: DayFilter::everyday(),
        },
        ymd(2025, 1, 1),
    );
    let last = Date::from_num_days_from_ce_opt(MAX_DAYS).unwrap();
    let mut iter = rule.iter_after(&last);
    assert_eq!(iter.next(), None);
}

#[test]
fn occurrences_strictly_increase() {
    let mut rule = RecurrenceRule::new(
        Frequency::Weekly {
            days: DayFilter::weekends(),
        },
        ymd(2025, 1, 1),
    );
    rule.set_day_filter(DayFilter::weekdays());
    let mut iter = rule.iter();
    let mut last = ymd(2024, 12, 31);
    for _ in 0..20 {
        let next = *iter.next().unwrap().at();
        assert!(next.num_days_from_ce() > last.num_days_from_ce());
        last = next;
    }
}

#[test]
fn date_from_ymd_rejects_invalid() {
    assert!(Date::from_ymd_opt(2025, 2, 29).is_none());
    assert!(Date::from_ymd_opt(2024, 2, 29).is_some());
    assert!(Date::from_ymd_opt(1900, 2, 29).is_none());
    assert!(Date::from_ymd_opt(2000, 2, 29).is_some());
    assert!(Date::from_ymd_opt(2025, 4, 31).is_none());
    assert!(Date::from_ymd_opt(2025, 13, 1).is_none());
    assert!(Date::from_ymd_opt(2025, 1, 0).is_none());
    assert!(Date::from_ymd_opt(262143, 1, 1).is_none());
    assert!(Date::from_ymd_opt(262142, 12, 31).is_some());
    assert!(Date::from_ymd_opt(-262144, 12, 31).is_none());
}

#[test]
fn date_day_numbers() {
    assert_eq!(ymd(1, 1, 1).num_days_from_ce(), 1);
    assert_eq!(ymd(0, 1, 1).num_days_from_ce(), -365);
    assert_eq!(ymd(2025, 1, 1).num_days_from_ce(), 739252);
    assert_eq!(ymd(-262143, 1, 1).num_days_from_ce(), MIN_DAYS);
    assert_eq!(ymd(262142, 12, 31).num_days_from_ce(), MAX_DAYS);
}

#[test]
fn date_fields_and_weekday() {
    let d = ymd(2028, 4, 1);
    assert_eq!(d.ymd(), (2028, 4, 1));
    assert_eq!(d.year(), 2028);
    assert_eq!(d.month(), 4);
    assert_eq!(d.day(), 1);
    assert_eq!(d.weekday(), 5);
    assert_eq!(ymd(2025, 1, 1).weekday(), 2);
    assert_eq!(ymd(1, 1, 1).weekday(), 0);
    assert_eq!(ymd(-1, 12, 31).weekday(), 4);
}

#[test]
fn date_day_arithmetic() {
    assert_eq!(ymd(2024, 2, 28).checked_add_days(1), Some(ymd(2024, 2, 29)));
    assert_eq!(ymd(2024, 12, 31).checked_add_days(1), Some(ymd(2025, 1, 1)));
    assert_eq!(ymd(2025, 3, 1).checked_sub_days(1), Some(ymd(2025, 2, 28)));
    assert_eq!(ymd(262142, 12, 31).checked_add_days(1), None);
    assert_eq!(ymd(-262143, 1, 1).checked_sub_days(1), None);
    assert_eq!(Date::from_num_days_from_ce_opt(MIN_DAYS - 1), None);
}

#[test]
fn day_filter_sets() {
    let weekdays = DayFilter::weekdays();
    let weekends = DayFilter::weekends();
    assert_eq!(weekdays.union(weekends), DayFilter::everyday());
    assert_eq!(DayFilter::anyday(), DayFilter::everyday());
    assert!(weekdays.contains(DayFilter::monday()));
    assert!(!weekdays.contains(DayFilter::sunday()));
    assert!(weekends.contains_weekday(5));
    assert!(weekends.contains_weekday(6));
    assert!(!weekends.contains_weekday(4));
    assert!(DayFilter::empty().is_empty());
    assert!(!DayFilter::friday().is_empty());
    assert_eq!(DayFilter::from_bits_truncate(0xff), DayFilter::everyday());
    assert_eq!(
        DayFilter::tuesday()
            .union(DayFilter::wednesday())
            .union(DayFilter::thursday())
            .union(DayFilter::saturday())
            .bits(),
        0x3a
    );
}

#[test]
fn setters_replace_fields() {
    let mut rule = RecurrenceRule::new(Frequency::Monthly { date: 1 }, ymd(2025, 1, 1));
    rule.set_frequency(Frequency::Yearly { date: 2, month: 3 });
    rule.set_not_before_unchecked(ymd(2030, 1, 1));
    rule.set_not_after_unchecked(Some(ymd(2020, 1, 1)));
    assert_eq!(*rule.frequency(), Frequency::Yearly { date: 2, month: 3 });
    assert_eq!(*rule.not_before(), ymd(2030, 1, 1));
    assert_eq!(*rule.not_after(), Some(ymd(2020, 1, 1)));
    // A bound that restores the order is accepted.
    assert!(rule.set_not_before(ymd(2019, 1, 1)));
}
