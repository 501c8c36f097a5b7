use sentence_reduction::date::{leap_year, month_length, Date, MAX_YEAR, MIN_YEAR};

fn ymd(year: i32, month: u32, day: u32) -> Date {
    Date::new(year, month, day).unwrap()
}

#[test]
fn new_accepts_days_that_exist() {
    assert_eq!(Date::new(2022, 1, 1), Some(Date { year: 2022, month: 1, day: 1 }));
    assert_eq!(Date::new(2020, 2, 29), Some(Date { year: 2020, month: 2, day: 29 }));
    assert_eq!(Date::new(2000, 2, 29), Some(Date { year: 2000, month: 2, day: 29 }));
    assert_eq!(Date::new(MIN_YEAR, 1, 1), Some(Date { year: MIN_YEAR, month: 1, day: 1 }));
    assert_eq!(Date::new(MAX_YEAR, 12, 31), Some(Date { year: MAX_YEAR, month: 12, day: 31 }));
}

#[test]
fn new_refuses_days_that_do_not_exist() {
    assert_eq!(Date::new(2021, 2, 29), None);
    assert_eq!(Date::new(1900, 2, 29), None);
    assert_eq!(Date::new(2022, 4, 31), None);
    assert_eq!(Date::new(2022, 13, 1), None);
    assert_eq!(Date::new(2022, 0, 1), None);
    assert_eq!(Date::new(2022, 1, 0), None);
    assert_eq!(Date::new(2022, 1, 32), None);
    assert_eq!(Date::new(MAX_YEAR + 1, 1, 1), None);
    assert_eq!(Date::new(MIN_YEAR - 1, 12, 31), None);
}

#[test]
fn is_valid_agrees_with_new() {
    assert!(Date { year: 2024, month: 2, day: 29 }.is_valid());
    assert!(!Date { year: 2023, month: 2, day: 29 }.is_valid());
    assert!(!Date { year: 2023, month: 6, day: 31 }.is_valid());
}

#[test]
fn leap_years_follow_the_gregorian_rule() {
    assert!(leap_year(2020));
    assert!(leap_year(2000));
    assert!(leap_year(0));
    assert!(leap_year(-4));
    assert!(!leap_year(1900));
    assert!(!leap_year(2022));
    assert!(!leap_year(-1));
}

#[test]
fn month_lengths() {
    assert_eq!(month_length(2022, 1), 31);
    assert_eq!(month_length(2022, 2), 28);
    assert_eq!(month_length(2020, 2), 29);
    assert_eq!(month_length(2022, 4), 30);
    assert_eq!(month_length(2022, 6), 30);
    assert_eq!(month_length(2022, 9), 30);
    assert_eq!(month_length(2022, 11), 30);
    assert_eq!(month_length(2022, 12), 31);
}

#[test]
fn shift_months_forward() {
    assert_eq!(ymd(2022, 1, 1).shift_months(24), Some(ymd(2024, 1, 1)));
    assert_eq!(ymd(2022, 1, 1).shift_months(12), Some(ymd(2023, 1, 1)));
    assert_eq!(ymd(2022, 1, 1).shift_months(6), Some(ymd(2022, 7, 1)));
    assert_eq!(ymd(2022, 11, 15).shift_months(1), Some(ymd(2022, 12, 15)));
    assert_eq!(ymd(2022, 11, 15).shift_months(2), Some(ymd(2023, 1, 15)));
    assert_eq!(ymd(2022, 12, 15).shift_months(13), Some(ymd(2024, 1, 15)));
}

#[test]
fn shift_months_by_zero_is_identity() {
    assert_eq!(ymd(2022, 1, 31).shift_months(0), Some(ymd(2022, 1, 31)));
    assert_eq!(ymd(2020, 2, 29).shift_months(0), Some(ymd(2020, 2, 29)));
}

#[test]
fn shift_months_clamps_to_last_day() {
    assert_eq!(ymd(2022, 1, 31).shift_months(1), Some(ymd(2022, 2, 28)));
    assert_eq!(ymd(2020, 1, 31).shift_months(1), Some(ymd(2020, 2, 29)));
    assert_eq!(ymd(2020, 1, 31).shift_months(3), Some(ymd(2020, 4, 30)));
    assert_eq!(ymd(2020, 2, 29).shift_months(12), Some(ymd(2021, 2, 28)));
    assert_eq!(ymd(2020, 2, 29).shift_months(48), Some(ymd(2024, 2, 29)));
}

#[test]
fn shift_months_backward() {
    assert_eq!(ymd(2022, 1, 15).shift_months(-1), Some(ymd(2021, 12, 15)));
    assert_eq!(ymd(2022, 1, 15).shift_months(-12), Some(ymd(2021, 1, 15)));
    assert_eq!(ymd(2022, 1, 15).shift_months(-13), Some(ymd(2020, 12, 15)));
    assert_eq!(ymd(2022, 3, 31).shift_months(-1), Some(ymd(2022, 2, 28)));
    assert_eq!(ymd(2022, 1, 31).shift_months(-2), Some(ymd(2021, 11, 30)));
    assert_eq!(ymd(2024, 1, 1).shift_months(-5), Some(ymd(2023, 8, 1)));
}

#[test]
fn shift_months_out_of_range_is_none() {
    assert_eq!(ymd(MAX_YEAR, 12, 31).shift_months(1), None);
    assert_eq!(ymd(MIN_YEAR, 1, 1).shift_months(-1), None);
    assert_eq!(ymd(2022, 1, 1).shift_months(10_000_000), None);
    assert_eq!(ymd(2022, 1, 1).shift_months(-10_000_000), None);
    assert_eq!(ymd(2022, 1, 1).shift_months(i64::MAX), None);
    assert_eq!(ymd(2022, 1, 1).shift_months(i64::MIN), None);
}

#[test]
fn shift_months_reaches_the_last_and_first_year() {
    assert_eq!(ymd(MAX_YEAR, 11, 30).shift_months(1), Some(ymd(MAX_YEAR, 12, 30)));
    assert_eq!(ymd(MIN_YEAR, 2, 1).shift_months(-1), Some(ymd(MIN_YEAR, 1, 1)));
    assert_eq!(
        ymd(0, 1, 1).shift_months(12 * 262142 + 11),
        Some(ymd(MAX_YEAR, 12, 1))
    );
    assert_eq!(ymd(0, 1, 1).shift_months(12 * 262142 + 12), None);
    assert_eq!(ymd(0, 12, 1).shift_months(-(12 * 262143 + 11)), Some(ymd(MIN_YEAR, 1, 1)));
    assert_eq!(ymd(0, 12, 1).shift_months(-(12 * 262143 + 12)), None);
}

#[test]
fn minus_days_goes_back() {
    assert_eq!(ymd(2022, 3, 1).minus_days(1), Some(ymd(2022, 2, 28)));
    assert_eq!(ymd(2020, 3, 1).minus_days(1), Some(ymd(2020, 2, 29)));
    assert_eq!(ymd(2023, 4, 1).minus_days(19), Some(ymd(2023, 3, 13)));
    assert_eq!(ymd(2022, 1, 1).minus_days(365), Some(ymd(2021, 1, 1)));
    assert_eq!(ymd(2022, 1, 1).minus_days(0), Some(ymd(2022, 1, 1)));
}

#[test]
fn minus_negative_days_goes_forward() {
    assert_eq!(ymd(2022, 12, 31).minus_days(-1), Some(ymd(2023, 1, 1)));
    assert_eq!(ymd(2022, 2, 28).minus_days(-1), Some(ymd(2022, 3, 1)));
}

#[test]
fn minus_days_out_of_range_is_none() {
    assert_eq!(ymd(MIN_YEAR, 1, 1).minus_days(1), None);
    assert_eq!(ymd(MAX_YEAR, 12, 31).minus_days(-1), None);
    assert_eq!(ymd(2022, 1, 1).minus_days(i64::MAX), None);
    assert_eq!(ymd(2022, 1, 1).minus_days(i64::MIN), None);
    assert_eq!(ymd(MIN_YEAR, 1, 2).minus_days(1), Some(ymd(MIN_YEAR, 1, 1)));
    assert_eq!(ymd(MAX_YEAR, 12, 30).minus_days(-1), Some(ymd(MAX_YEAR, 12, 31)));
}

#[test]
fn days_since_counts_calendar_days() {
    assert_eq!(ymd(2021, 8, 1).days_since(ymd(2021, 6, 1)), 61);
    assert_eq!(ymd(2021, 6, 1).days_since(ymd(2021, 8, 1)), -61);
    assert_eq!(ymd(2022, 1, 1).days_since(ymd(2022, 1, 1)), 0);
    assert_eq!(ymd(2024, 1, 1).days_since(ymd(2022, 1, 1)), 730);
    assert_eq!(ymd(2021, 1, 1).days_since(ymd(2020, 1, 1)), 366);
    assert_eq!(ymd(1, 1, 1).days_since(ymd(0, 12, 31)), 1);
    assert_eq!(ymd(2000, 1, 1).days_since(ymd(1600, 1, 1)), 146_097);
}

#[test]
fn days_since_spans_the_whole_range() {
    assert_eq!(
        ymd(MAX_YEAR, 12, 31).days_since(ymd(MIN_YEAR, 1, 1)),
        191_491_528
    );
}

#[test]
fn minus_days_undoes_days_since() {
    let later = ymd(2023, 7, 14);
    let earlier = ymd(1999, 12, 31);
    let days = later.days_since(earlier);
    assert_eq!(later.minus_days(days), Some(earlier));
    assert_eq!(earlier.minus_days(-days), Some(later));
}
