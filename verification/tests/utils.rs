use sentence_reduction::date::Date;
use sentence_reduction::options::{Options, OptionsName};
use sentence_reduction::utils::{
    checkbox_selector_onchange, date_selector_onchange, number_selector_onchange, periode_with,
    periode_selector_onchange, unwrap_or_empty_string, year_months_from_months, DateDisplay,
    InputError, PeriodsIntervals, ONE_YEAR,
};

#[test]
fn year_months_from_months_examples() {
    assert_eq!(year_months_from_months(0), (0, 0));
    assert_eq!(year_months_from_months(11), (11, 0));
    assert_eq!(year_months_from_months(12), (0, 1));
    assert_eq!(year_months_from_months(24), (0, 2));
    assert_eq!(year_months_from_months(25), (1, 2));
    assert_eq!(year_months_from_months(19), (7, 1));
}

#[test]
fn year_months_from_months_rounds_toward_zero() {
    assert_eq!(year_months_from_months(-1), (-1, 0));
    assert_eq!(year_months_from_months(-12), (0, -1));
    assert_eq!(year_months_from_months(-25), (-1, -2));
    assert_eq!(year_months_from_months(i64::MIN), (-8, -768_614_336_404_564_650));
    assert_eq!(year_months_from_months(i64::MAX), (7, 768_614_336_404_564_650));
}

#[test]
fn a_year_has_twelve_months() {
    assert_eq!(ONE_YEAR, 12);
}

#[test]
fn bounds_of_a_period_have_their_place() {
    assert_eq!(PeriodsIntervals::Start.index(), 0);
    assert_eq!(PeriodsIntervals::End.index(), 1);
}

#[test]
fn changing_one_bound_keeps_the_other() {
    let first = Date::new(2021, 6, 1);
    let last = Date::new(2021, 8, 1);
    let other = Date::new(2021, 7, 1);
    assert_eq!(periode_with([None, None], PeriodsIntervals::Start, first), [first, None]);
    assert_eq!(periode_with([first, None], PeriodsIntervals::End, last), [first, last]);
    assert_eq!(periode_with([first, last], PeriodsIntervals::Start, other), [other, last]);
    assert_eq!(periode_with([first, last], PeriodsIntervals::End, None), [first, None]);
}

#[test]
fn date_field_gives_the_date_entered() {
    assert_eq!(date_selector_onchange("2022-01-05"), Ok(Date { year: 2022, month: 1, day: 5 }));
    assert_eq!(date_selector_onchange("2020-02-29"), Ok(Date { year: 2020, month: 2, day: 29 }));
    assert_eq!(date_selector_onchange("1999-12-31"), Ok(Date { year: 1999, month: 12, day: 31 }));
}

#[test]
fn date_field_refuses_what_is_no_date() {
    assert_eq!(date_selector_onchange(""), Err(InputError::Malformed));
    assert_eq!(date_selector_onchange("abc"), Err(InputError::Malformed));
    assert_eq!(date_selector_onchange("2022-02-30"), Err(InputError::Malformed));
    assert_eq!(date_selector_onchange("2022-13-01"), Err(InputError::Malformed));
    assert_eq!(date_selector_onchange("2022/01/05"), Err(InputError::Malformed));
}

#[test]
fn period_field_sets_and_clears_a_bound() {
    let first = Date::new(2021, 6, 1);
    let last = Date::new(2021, 8, 1);
    assert_eq!(
        periode_selector_onchange([None, None], PeriodsIntervals::Start, "2021-06-01"),
        Ok([first, None])
    );
    assert_eq!(
        periode_selector_onchange([first, None], PeriodsIntervals::End, "2021-08-01"),
        Ok([first, last])
    );
    assert_eq!(
        periode_selector_onchange([first, last], PeriodsIntervals::Start, ""),
        Ok([None, last])
    );
    assert_eq!(
        periode_selector_onchange([first, last], PeriodsIntervals::End, ""),
        Ok([first, None])
    );
}

#[test]
fn period_field_refuses_what_is_no_date() {
    let first = Date::new(2021, 6, 1);
    assert_eq!(
        periode_selector_onchange([first, None], PeriodsIntervals::End, "soon"),
        Err(InputError::Malformed)
    );
    assert_eq!(
        periode_selector_onchange([first, None], PeriodsIntervals::End, "2021-06-31"),
        Err(InputError::Malformed)
    );
}

#[test]
fn number_field_gives_the_number_entered() {
    assert_eq!(number_selector_onchange("", None), Ok(None));
    assert_eq!(number_selector_onchange("", Some(12)), Ok(None));
    assert_eq!(number_selector_onchange("24", None), Ok(Some(24)));
    assert_eq!(number_selector_onchange("0", None), Ok(Some(0)));
    assert_eq!(number_selector_onchange("007", None), Ok(Some(7)));
    assert_eq!(number_selector_onchange("+7", None), Ok(Some(7)));
    assert_eq!(number_selector_onchange("-3", None), Ok(Some(-3)));
    assert_eq!(number_selector_onchange("-0", None), Ok(Some(0)));
    assert_eq!(number_selector_onchange("9223372036854775807", None), Ok(Some(i64::MAX)));
    assert_eq!(number_selector_onchange("-9223372036854775808", None), Ok(Some(i64::MIN)));
}

#[test]
fn number_field_multiplies_years_into_months() {
    assert_eq!(number_selector_onchange("2", Some(12)), Ok(Some(24)));
    assert_eq!(number_selector_onchange("-3", Some(12)), Ok(Some(-36)));
    assert_eq!(number_selector_onchange("5", Some(1)), Ok(Some(5)));
    assert_eq!(number_selector_onchange("5", Some(0)), Ok(Some(0)));
}

#[test]
fn number_field_refuses_what_is_no_number() {
    assert_eq!(number_selector_onchange("abc", None), Err(InputError::Malformed));
    assert_eq!(number_selector_onchange(" 5", None), Err(InputError::Malformed));
    assert_eq!(number_selector_onchange("5 ", None), Err(InputError::Malformed));
    assert_eq!(number_selector_onchange("-", None), Err(InputError::Malformed));
    assert_eq!(number_selector_onchange("+", None), Err(InputError::Malformed));
    assert_eq!(number_selector_onchange("--5", None), Err(InputError::Malformed));
    assert_eq!(number_selector_onchange("1.5", None), Err(InputError::Malformed));
    assert_eq!(number_selector_onchange("9223372036854775808", None), Err(InputError::Malformed));
    assert_eq!(number_selector_onchange("-9223372036854775809", None), Err(InputError::Malformed));
}

#[test]
fn number_field_refuses_a_product_too_large() {
    assert_eq!(number_selector_onchange("9223372036854775807", Some(2)), Err(InputError::Overflow));
    assert_eq!(
        number_selector_onchange("-9223372036854775808", Some(-1)),
        Err(InputError::Overflow)
    );
    assert_eq!(
        number_selector_onchange("768614336404564651", Some(12)),
        Err(InputError::Overflow)
    );
    assert_eq!(
        number_selector_onchange("768614336404564650", Some(12)),
        Ok(Some(9_223_372_036_854_775_800))
    );
}

#[test]
fn changing_one_option_keeps_the_other() {
    let none = Options::default();
    assert_eq!(none, Options { rps: false, crp: false });
    let crp = checkbox_selector_onchange(none, OptionsName::Crp, true);
    assert_eq!(crp, Options { rps: false, crp: true });
    let both = checkbox_selector_onchange(crp, OptionsName::Rps, true);
    assert_eq!(both, Options { rps: true, crp: true });
    let rps = checkbox_selector_onchange(both, OptionsName::Crp, false);
    assert_eq!(rps, Options { rps: true, crp: false });
}

#[test]
fn text_of_a_value_or_nothing() {
    assert_eq!(unwrap_or_empty_string(Some(5i64)), "5");
    assert_eq!(unwrap_or_empty_string(Some(-12i64)), "-12");
    assert_eq!(unwrap_or_empty_string(Some("abc")), "abc");
    assert_eq!(unwrap_or_empty_string(None::<i64>), "");
}

#[test]
fn date_in_french_order() {
    assert_eq!(Date::new(2022, 1, 5).unwrap().display_fr(), "5 / 1 / 2022");
    assert_eq!(Date::new(2023, 12, 31).unwrap().display_fr(), "31 / 12 / 2023");
    assert_eq!(Date::new(-44, 3, 15).unwrap().display_fr(), "15 / 3 / -44");
}
