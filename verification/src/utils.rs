//! Small helpers shared by the calculation and by its callers.

use vstd::prelude::*;
use vstd::string::{to_string_from_display_ensures, StringExecFns};
use chrono::{Datelike, NaiveDate};
use crate::date::Date;
use crate::options::{Options, OptionsName};

verus! {

/// Months in a year.
pub const ONE_YEAR: i64 = 12;

/// A detention period: its first day and its last, each of which may be
/// missing.
pub type Periode = [Option<Date>; 2];

/// The two bounds of a [`Periode`].
#[derive(Clone, Copy, Debug, PartialEq, Eq, Structural)]
pub enum PeriodsIntervals {
    Start,
    End,
}

impl PeriodsIntervals {
    /// Position of the bound in a [`Periode`].
    pub open spec fn spec_index(self) -> int {
        match self {
            PeriodsIntervals::Start => 0,
            PeriodsIntervals::End => 1,
        }
    }

    /// Position of the bound in a [`Periode`].
    pub fn index(self) -> (r: usize)
        ensures
            r == self.spec_index(),
    {
        match self {
            PeriodsIntervals::Start => 0,
            PeriodsIntervals::End => 1,
        }
    }
}

/// Quotient of `a` by `b`, rounded toward zero.
pub open spec fn trunc_div(a: int, b: int) -> int
    recommends
        b > 0,
{
    if a >= 0 {
        a / b
    } else {
        -((-a) / b)
    }
}

/// Remainder of `a` by `b` that goes with [`trunc_div`]: zero, or of the
/// sign of `a`.
pub open spec fn trunc_rem(a: int, b: int) -> int
    recommends
        b > 0,
{
    a - trunc_div(a, b) * b
}

/// A month count as months of the incomplete year, then complete years.
pub open spec fn spec_year_months_from_months(months: int) -> (int, int) {
    (trunc_rem(months, ONE_YEAR as int), trunc_div(months, ONE_YEAR as int))
}

/// Splits a month count into the months of the incomplete year and the
/// number of complete years, in that order. Both are rounded toward zero, so
/// a negative count gives two values that are negative or zero.
pub fn year_months_from_months(months: i64) -> (r: (i64, i64))
    ensures
        (r.0 as int, r.1 as int) == spec_year_months_from_months(months as int),
        r.1 * 12 + r.0 == months,
        months >= 0 ==> 0 <= r.0 < 12 && 0 <= r.1,
{
    (months % ONE_YEAR, months / ONE_YEAR)
}

/// The period with the bound `end_or_start` replaced by `value`, the other
/// bound kept.
pub open spec fn spec_periode_with(
    periode: Periode,
    end_or_start: PeriodsIntervals,
    value: Option<Date>,
) -> Periode {
    match end_or_start {
        PeriodsIntervals::Start => [value, periode[1]],
        PeriodsIntervals::End => [periode[0], value],
    }
}

/// Sets one bound of a period and keeps the other.
pub fn periode_with(periode: Periode, end_or_start: PeriodsIntervals, value: Option<Date>) -> (r:
    Periode)
    ensures
        r == spec_periode_with(periode, end_or_start, value),
{
    let mut state = periode;
    state.set(end_or_start.index(), value);
    assert(state@ =~= spec_periode_with(periode, end_or_start, value)@);
    state
}

/// Why a text that was entered is refused.
#[derive(Clone, Copy, Debug, PartialEq, Eq, Structural)]
pub enum InputError {
    /// The text is not of the form that the field asks for.
    Malformed,
    /// The number is too large once it is multiplied.
    Overflow,
}

/// The date that `chrono::NaiveDate::parse_from_str` reads from a text with
/// the format `%Y-%m-%d`, `None` where it reports an error.
pub uninterp spec fn parsed_date(text: Seq<char>) -> Option<Date>;

/// `chrono::NaiveDate::parse_from_str` with the format `%Y-%m-%d`. What it
/// reads is a function of the text alone and goes by the name `parsed_date`;
/// a date that it gives exists and lies in the years that a `Date` can hold.
#[verifier::external_body]
fn parse_date(text: &str) -> (r: Option<Date>)
    ensures
        r == parsed_date(text@),
        r matches Some(date) ==> date.wf(),
{
    match NaiveDate::parse_from_str(text, "%Y-%m-%d") {
        Ok(date) => Some(Date { year: date.year(), month: date.month(), day: date.day() }),
        Err(_) => None,
    }
}

/// The number that a run of decimal digits writes.
pub open spec fn decimal_value(digits: Seq<char>) -> int
    decreases digits.len(),
{
    if digits.len() == 0 {
        0
    } else {
        decimal_value(digits.drop_last()) * 10 + (digits.last() as int - '0' as int)
    }
}

/// The text is one or more of the digits `0` to `9`.
pub open spec fn is_decimal(digits: Seq<char>) -> bool {
    &&& digits.len() > 0
    &&& forall|i: int| 0 <= i < digits.len() ==> '0' <= #[trigger] digits[i] <= '9'
}

/// The `i64` that a text writes: decimal digits, with `+` or `-` before
/// them or nothing. `None` for any other text, and for a number that no
/// `i64` holds.
pub open spec fn spec_parse_i64(text: Seq<char>) -> Option<i64> {
    let signed = text.len() > 0 && (text[0] == '-' || text[0] == '+');
    let digits = if signed { text.subrange(1, text.len() as int) } else { text };
    let value = if signed && text[0] == '-' { -decimal_value(digits) } else { decimal_value(digits) };
    if is_decimal(digits) && i64::MIN <= value <= i64::MAX {
        Some(value as i64)
    } else {
        None
    }
}

/// `str::parse::<i64>` of std: an optional sign followed by decimal digits
/// and nothing else gives the number, if an `i64` holds it; anything else is
/// an error.
#[verifier::external_body]
fn parse_i64(text: &str) -> (r: Option<i64>)
    ensures
        r == spec_parse_i64(text@),
{
    text.parse::<i64>().ok()
}

/// What a change of the date field leaves: the date that was entered.
/// `Malformed` exactly when `chrono` reads no date from the text.
pub fn date_selector_onchange(text: &str) -> (r: Result<Date, InputError>)
    ensures
        r == match parsed_date(text@) {
            Some(date) => Ok::<Date, InputError>(date),
            None => Err::<Date, InputError>(InputError::Malformed),
        },
        r matches Ok(date) ==> date.wf(),
{
    match parse_date(text) {
        Some(date) => Ok(date),
        None => Err(InputError::Malformed),
    }
}

/// What a change of one date field of a period leaves: an emptied field
/// clears the bound, a date sets it, and the other bound is kept.
pub open spec fn spec_periode_selector_onchange(
    periode: Periode,
    end_or_start: PeriodsIntervals,
    text: Seq<char>,
) -> Result<Periode, InputError> {
    if text.len() == 0 {
        Ok(spec_periode_with(periode, end_or_start, None))
    } else {
        match parsed_date(text) {
            Some(date) => Ok(spec_periode_with(periode, end_or_start, Some(date))),
            None => Err(InputError::Malformed),
        }
    }
}

/// What a change of one date field of a period leaves. `Malformed` exactly
/// when the text is not empty and `chrono` reads no date from it.
pub fn periode_selector_onchange(
    periode: Periode,
    end_or_start: PeriodsIntervals,
    text: &str,
) -> (r: Result<Periode, InputError>)
    ensures
        r == spec_periode_selector_onchange(periode, end_or_start, text@),
{
    if text.is_empty() {
        Ok(periode_with(periode, end_or_start, None))
    } else {
        match parse_date(text) {
            Some(date) => Ok(periode_with(periode, end_or_start, Some(date))),
            None => Err(InputError::Malformed),
        }
    }
}

/// What a change of a number field leaves: nothing for an emptied field,
/// else the number entered times `multiplier`, or times one without it.
pub open spec fn spec_number_selector_onchange(
    text: Seq<char>,
    multiplier: Option<i64>,
) -> Result<Option<i64>, InputError> {
    if text.len() == 0 {
        Ok(None)
    } else {
        match spec_parse_i64(text) {
            Some(number) => {
                let product = number * match multiplier {
                    Some(by) => by,
                    None => 1,
                };
                if i64::MIN <= product <= i64::MAX {
                    Ok(Some(product as i64))
                } else {
                    Err(InputError::Overflow)
                }
            },
            None => Err(InputError::Malformed),
        }
    }
}

/// What a change of a number field leaves. `Malformed` exactly when the text
/// is neither empty nor an `i64`, `Overflow` exactly when the product is
/// none.
pub fn number_selector_onchange(text: &str, multiplier: Option<i64>) -> (r: Result<
    Option<i64>,
    InputError,
>)
    ensures
        r == spec_number_selector_onchange(text@, multiplier),
{
    if text.is_empty() {
        return Ok(None);
    }
    match parse_i64(text) {
        Some(number) => {
            let by = match multiplier {
                Some(by) => by,
                None => 1,
            };
            match number.checked_mul(by) {
                Some(product) => Ok(Some(product)),
                None => Err(InputError::Overflow),
            }
        },
        None => Err(InputError::Malformed),
    }
}

/// What a change of one checkbox leaves: the options with the one named
/// `option_name` set to `checked`, the other kept.
pub fn checkbox_selector_onchange(options: Options, option_name: OptionsName, checked: bool) -> (r:
    Options)
    ensures
        r == options.spec_with(option_name, checked),
{
    let mut new_options = options;
    match option_name {
        OptionsName::Crp => {
            new_options.crp = checked;
        },
        OptionsName::Rps => {
            new_options.rps = checked;
        },
    }
    new_options
}

/// The text of the value, or the empty text where there is none.
pub fn unwrap_or_empty_string<T: core::fmt::Display>(option: Option<T>) -> (r: String)
    ensures
        match option {
            Some(value) => to_string_from_display_ensures::<T>(&value, r),
            None => r@ == Seq::<char>::empty(),
        },
{
    if let Some(value) = option {
        value.to_string()
    } else {
        String::new()
    }
}

/// The decimal digits of a number, the highest first.
pub open spec fn decimal_digits(value: nat) -> Seq<char>
    decreases value,
{
    let last = ('0' as int + value % 10) as char;
    if value < 10 {
        seq![last]
    } else {
        decimal_digits(value / 10).push(last)
    }
}

/// A number written in decimal, with `-` before it if it is negative.
pub open spec fn decimal_text(value: int) -> Seq<char> {
    if value < 0 {
        seq!['-'] + decimal_digits((-value) as nat)
    } else {
        decimal_digits(value as nat)
    }
}

/// `format!` of std with `{}` on an integer: the number in decimal, without
/// padding, with a `-` before a negative one.
#[verifier::external_body]
fn decimal_string(value: i64) -> (r: String)
    ensures
        r@ == decimal_text(value as int),
{
    format!("{}", value)
}

/// Dates as they are written in French.
pub trait DateDisplay {
    /// The date as day, month and year.
    fn display_fr(&self) -> String;
}

/// Day, month and year in decimal, with `" / "` between them.
pub open spec fn spec_display_fr(date: Date) -> Seq<char> {
    decimal_text(date.day as int) + seq![' ', '/', ' '] + decimal_text(date.month as int) + seq![
        ' ',
        '/',
        ' ',
    ] + decimal_text(date.year as int)
}

impl DateDisplay for Date {
    fn display_fr(&self) -> (r: String)
        ensures
            r@ == spec_display_fr(*self),
    {
        let mut text = decimal_string(self.day as i64);
        text.append(" / ");
        text.append(decimal_string(self.month as i64).as_str());
        text.append(" / ");
        text.append(decimal_string(self.year as i64).as_str());
        proof {
            reveal_strlit(" / ");
            assert(" / "@ =~= seq![' ', '/', ' ']);
            assert(text@ =~= spec_display_fr(*self));
        }
        text
    }
}

} // verus!
