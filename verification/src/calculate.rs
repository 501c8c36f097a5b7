//! The reduction calculator: from a start date, a sentence length and the
//! detention periods to the projected release dates.
//!
//! Two conventions meet here and are kept apart on purpose. A date is moved
//! by calendar months (`Date::shift_months`), while a credit counted in days
//! is turned into months at thirty days each (`split_months_days`) before it
//! is taken off a date.

use vstd::prelude::*;
use crate::date::{
    Date, lemma_day_number_in_range, lemma_day_number_strictly_monotonic, lemma_minus_days,
    lemma_shift_back_not_later,
};
use crate::utils::{
    year_months_from_months, spec_year_months_from_months, trunc_div, Periode, PeriodsIntervals,
    ONE_YEAR,
};

verus! {

/// Days that count as one month of credit.
pub const ONE_MONTH_DAYS: i64 = 30;

/// CRP days for each complete year after the first, and the cap on the
/// credit of the incomplete year.
pub const ONE_YEAR_CRP: i64 = 60;

/// CRP days for the first complete year.
pub const FIRST_YEAR_CRP: i64 = 90;

/// RPS days for each complete year that remains.
pub const YEARS_RPS: i64 = 90;

/// Days of credit for each month of an incomplete year.
pub const REDUCTION_PER_MONTH: i64 = 7;

/// What a calculation starts from.
#[derive(Clone, Copy, Debug, PartialEq, Eq)]
pub struct SentenceInput {
    /// First day of incarceration.
    pub incarceration_start_date: Date,
    /// Length of the sentence, in months.
    pub month_ppl: i64,
    /// First period of pre-trial detention or electronic monitoring.
    pub detention_period_1: Periode,
    /// Second period of pre-trial detention or electronic monitoring.
    pub detention_period_2: Periode,
    /// Months of CRP that were withdrawn.
    pub substracted_crp: Option<i64>,
    /// Months of RPS that were granted; replaces the projected RPS.
    pub manual_rps: Option<i64>,
}

/// Why a calculation gave no result.
#[derive(Clone, Copy, Debug, PartialEq, Eq, Structural)]
pub enum CalcError {
    /// One of the dates to compute lies outside the years that a `Date` can
    /// hold.
    DateOutOfRange,
}

/// Every figure that a calculation derives.
#[derive(Clone, Copy, Debug, PartialEq, Eq)]
pub struct Result {
    pub incarceration_end_date: Date,
    pub previsional_crp_days: i64,
    pub previsional_rps_days: i64,
    pub total_detention_days: i64,
    pub total_reduction_days: i64,
    pub mid_previsional_rps_days: i64,
    pub mid_total_reduction_days: i64,
    pub incarceration_end_date_reducted: Date,
    pub incarceration_end_date_reducted_minus_rps: Date,
    pub mid_incarceration_end_date: Date,
    pub mid_incarceration_end_date_reducted_minus_rps: Date,
    pub mid_incarceration_end_date_reducted: Date,
    pub days_detention_period_1: i64,
    pub days_detention_period_2: i64,
    pub total_crp_rps: i64,
    pub total_crp_rps_detention: i64,
}

/// A [`Result`] with its day counts as mathematical integers.
pub struct ResultView {
    pub incarceration_end_date: Date,
    pub previsional_crp_days: int,
    pub previsional_rps_days: int,
    pub total_detention_days: int,
    pub total_reduction_days: int,
    pub mid_previsional_rps_days: int,
    pub mid_total_reduction_days: int,
    pub incarceration_end_date_reducted: Date,
    pub incarceration_end_date_reducted_minus_rps: Date,
    pub mid_incarceration_end_date: Date,
    pub mid_incarceration_end_date_reducted_minus_rps: Date,
    pub mid_incarceration_end_date_reducted: Date,
    pub days_detention_period_1: int,
    pub days_detention_period_2: int,
    pub total_crp_rps: int,
    pub total_crp_rps_detention: int,
}

impl View for Result {
    type V = ResultView;

    open spec fn view(&self) -> ResultView {
        ResultView {
            incarceration_end_date: self.incarceration_end_date,
            previsional_crp_days: self.previsional_crp_days as int,
            previsional_rps_days: self.previsional_rps_days as int,
            total_detention_days: self.total_detention_days as int,
            total_reduction_days: self.total_reduction_days as int,
            mid_previsional_rps_days: self.mid_previsional_rps_days as int,
            mid_total_reduction_days: self.mid_total_reduction_days as int,
            incarceration_end_date_reducted: self.incarceration_end_date_reducted,
            incarceration_end_date_reducted_minus_rps: self.incarceration_end_date_reducted_minus_rps,
            mid_incarceration_end_date: self.mid_incarceration_end_date,
            mid_incarceration_end_date_reducted_minus_rps: self.mid_incarceration_end_date_reducted_minus_rps,
            mid_incarceration_end_date_reducted: self.mid_incarceration_end_date_reducted,
            days_detention_period_1: self.days_detention_period_1 as int,
            days_detention_period_2: self.days_detention_period_2 as int,
            total_crp_rps: self.total_crp_rps as int,
            total_crp_rps_detention: self.total_crp_rps_detention as int,
        }
    }
}

impl Result {
    /// Every date of the result is well formed.
    pub open spec fn wf(self) -> bool {
        &&& self.incarceration_end_date.wf()
        &&& self.incarceration_end_date_reducted.wf()
        &&& self.incarceration_end_date_reducted_minus_rps.wf()
        &&& self.mid_incarceration_end_date.wf()
        &&& self.mid_incarceration_end_date_reducted_minus_rps.wf()
        &&& self.mid_incarceration_end_date_reducted.wf()
    }
}

/// Both bounds of the period, where present, are well-formed dates.
pub open spec fn periode_wf(periode: Periode) -> bool {
    &&& periode[0] matches Some(d) ==> d.wf()
    &&& periode[1] matches Some(d) ==> d.wf()
}

impl SentenceInput {
    /// Every date of the input is well formed.
    pub open spec fn wf(self) -> bool {
        &&& self.incarceration_start_date.wf()
        &&& periode_wf(self.detention_period_1)
        &&& periode_wf(self.detention_period_2)
    }
}

/// Length of a period in days: the day difference when both bounds are
/// there and the end is later than the start, otherwise zero.
pub open spec fn spec_get_days_between_dates(periode: Periode) -> int {
    match (periode[0], periode[1]) {
        (Some(start), Some(end)) => if end.day_number() > start.day_number() {
            end.day_number() - start.day_number()
        } else {
            0
        },
        _ => 0,
    }
}

/// A day count as whole months of thirty days and the days left over, both
/// rounded toward zero.
pub open spec fn spec_split_months_days(days: int) -> (int, int) {
    let months = trunc_div(days, ONE_MONTH_DAYS as int);
    (months, days - months * ONE_MONTH_DAYS)
}

/// Whether the bounds of a period are well formed.
pub fn periode_is_valid(periode: &Periode) -> (r: bool)
    ensures
        r == periode_wf(*periode),
{
    let start_ok = match periode[0] {
        Some(d) => d.is_valid(),
        None => true,
    };
    let end_ok = match periode[1] {
        Some(d) => d.is_valid(),
        None => true,
    };
    start_ok && end_ok
}

/// Length of a detention period in days. A period that lacks a bound, or
/// whose end is not after its start, counts for nothing.
pub fn get_days_between_dates(periode: Periode) -> (r: i64)
    requires
        periode_wf(periode),
    ensures
        r == spec_get_days_between_dates(periode),
        0 <= r <= 200_000_000,
{
    match (periode[PeriodsIntervals::Start.index()], periode[PeriodsIntervals::End.index()]) {
        (Some(start), Some(end)) => {
            let days: i64 = end.days_since(start);
            proof {
                lemma_day_number_in_range(start);
                lemma_day_number_in_range(end);
            }
            if days > 0 {
                days
            } else {
                0
            }
        },
        _ => 0,
    }
}

/// Splits a day count into months of thirty days and the days left over.
pub fn split_months_days(days: i64) -> (r: (i64, i64))
    ensures
        (r.0 as int, r.1 as int) == spec_split_months_days(days as int),
        r.0 * 30 + r.1 == days,
        days >= 0 ==> 0 <= r.1 < 30 && 0 <= r.0,
        days <= 0 ==> -30 < r.1 <= 0 && r.0 <= 0,
{
    let months: i64 = days / ONE_MONTH_DAYS;
    (months, days - (months * ONE_MONTH_DAYS))
}

/// Projected CRP in days for a sentence of `month_ppl` months, less thirty
/// days for each withdrawn month.
///
/// Under a year the credit is seven days a month. From a year on it is
/// ninety days for the first year, sixty for each further complete year, and
/// seven days for each month of the incomplete year, sixty at most.
pub open spec fn spec_previsional_crp_days(month_ppl: int, substracted_crp: Option<i64>) -> int {
    let granted = if month_ppl >= ONE_YEAR {
        let (months_of_uncomplete_year, complete_years) = spec_year_months_from_months(
            month_ppl,
        );
        let last_year = months_of_uncomplete_year * REDUCTION_PER_MONTH;
        FIRST_YEAR_CRP + (complete_years - 1) * ONE_YEAR_CRP + if last_year <= ONE_YEAR_CRP {
            last_year
        } else {
            ONE_YEAR_CRP as int
        }
    } else {
        month_ppl * REDUCTION_PER_MONTH
    };
    let withdrawn = match substracted_crp {
        Some(months) => months * ONE_MONTH_DAYS,
        None => 0,
    };
    granted - withdrawn
}

/// `date` brought forward by a credit of `days`: moved back by the whole
/// months of the credit, then by the days left over. `None` when one of the
/// two steps leaves the years that a date can hold.
pub open spec fn spec_reduced_date(date: Date, days: int) -> Option<Date> {
    let (months, rest) = spec_split_months_days(days);
    match date.spec_shift_months(-months) {
        Some(shifted) => shifted.spec_minus_days(rest),
        None => None,
    }
}

/// RPS in days for `days` days that remain to serve: the days make months of
/// thirty, the months make years of twelve, and each month of the incomplete
/// year gives seven days, each complete year ninety.
pub open spec fn spec_rps_of_remaining_days(days: int) -> int {
    let (months_of_uncomplete_year, complete_years) = spec_year_months_from_months(
        trunc_div(days, ONE_MONTH_DAYS as int),
    );
    months_of_uncomplete_year * REDUCTION_PER_MONTH + complete_years * YEARS_RPS
}

/// Projected RPS in days. Granted months, where given, count thirty days
/// each and replace the projection. The projection is made on what remains
/// of the sentence once the CRP is taken off its end date, counted in days
/// from the start date.
pub open spec fn spec_previsional_rps_days(
    start: Date,
    end: Date,
    crp_days: int,
    manual_rps: Option<i64>,
) -> Option<int> {
    match manual_rps {
        Some(months) => Some(months * ONE_MONTH_DAYS),
        None => match spec_reduced_date(end, crp_days) {
            Some(reduced) => Some(
                spec_rps_of_remaining_days(reduced.day_number() - start.day_number()),
            ),
            None => None,
        },
    }
}

/// The reductions that apply to one end date.
pub struct ReductionsView {
    /// Projected RPS, in days.
    pub rps_days: int,
    /// The end date less CRP and detention.
    pub reducted_minus_rps: Date,
    /// The end date less CRP, RPS and detention.
    pub reducted: Date,
    /// Days left over once the whole reduction is counted in months.
    pub reduction_days: int,
}

/// The reductions on the end date `end` of a sentence that began on `start`,
/// for a CRP of `crp_days` and `detention_days` days of detention. `None`
/// when a date that it takes lies outside the years that a date can hold.
pub open spec fn spec_reductions(
    start: Date,
    end: Date,
    crp_days: int,
    detention_days: int,
    manual_rps: Option<i64>,
) -> Option<ReductionsView> {
    match spec_previsional_rps_days(start, end, crp_days, manual_rps) {
        Some(rps_days) => match (
            spec_reduced_date(end, crp_days + detention_days),
            spec_reduced_date(end, crp_days + rps_days + detention_days),
        ) {
            (Some(reducted_minus_rps), Some(reducted)) => Some(
                ReductionsView {
                    rps_days,
                    reducted_minus_rps,
                    reducted,
                    reduction_days: spec_split_months_days(
                        crp_days + rps_days + detention_days,
                    ).1,
                },
            ),
            _ => None,
        },
        None => None,
    }
}

/// What `calculate` returns for `input`, as a function of it: `None` where a
/// date to compute lies outside the years that a date can hold.
///
/// The end date is the start date moved by the sentence, the midpoint end
/// date the start date moved by half of it. The midpoint figures are the
/// reductions on the midpoint end date for half the CRP and half the
/// detention, each half rounded toward zero.
pub open spec fn spec_calculate(input: SentenceInput) -> Option<ResultView> {
    let start = input.incarceration_start_date;
    let crp_days = spec_previsional_crp_days(input.month_ppl as int, input.substracted_crp);
    let days_1 = spec_get_days_between_dates(input.detention_period_1);
    let days_2 = spec_get_days_between_dates(input.detention_period_2);
    let detention_days = days_1 + days_2;
    match (
        start.spec_shift_months(input.month_ppl as int),
        start.spec_shift_months(trunc_div(input.month_ppl as int, 2)),
    ) {
        (Some(end), Some(mid_end)) => match (
            spec_reductions(start, end, crp_days, detention_days, input.manual_rps),
            spec_reductions(
                start,
                mid_end,
                trunc_div(crp_days, 2),
                trunc_div(detention_days, 2),
                input.manual_rps,
            ),
        ) {
            (Some(whole), Some(mid)) => Some(
                ResultView {
                    incarceration_end_date: end,
                    previsional_crp_days: crp_days,
                    previsional_rps_days: whole.rps_days,
                    total_detention_days: detention_days,
                    total_reduction_days: whole.reduction_days,
                    mid_previsional_rps_days: mid.rps_days,
                    mid_total_reduction_days: mid.reduction_days,
                    incarceration_end_date_reducted: whole.reducted,
                    incarceration_end_date_reducted_minus_rps: whole.reducted_minus_rps,
                    mid_incarceration_end_date: mid_end,
                    mid_incarceration_end_date_reducted_minus_rps: mid.reducted_minus_rps,
                    mid_incarceration_end_date_reducted: mid.reducted,
                    days_detention_period_1: days_1,
                    days_detention_period_2: days_2,
                    total_crp_rps: crp_days + whole.rps_days,
                    total_crp_rps_detention: crp_days + whole.rps_days + detention_days,
                },
            ),
            _ => None,
        },
        _ => None,
    }
}

/// A credit that can be taken off a date is under two hundred million days
/// either way: beyond that the months alone lead out of the years that a
/// date can hold.
pub proof fn lemma_reduced_date_bounds(date: Date, days: int)
    requires
        date.wf(),
        spec_reduced_date(date, days) is Some,
    ensures
        -200_000_000 <= days <= 200_000_000,
{
}

/// A sentence of no negative length earns no negative CRP, as long as no
/// month of it is withdrawn.
pub proof fn lemma_crp_days_non_negative(month_ppl: int, substracted_crp: Option<i64>)
    requires
        month_ppl >= 0,
        substracted_crp is None || substracted_crp == Some(0i64),
    ensures
        spec_previsional_crp_days(month_ppl, substracted_crp) >= 0,
{
}

/// A period with both bounds, whose end is a later date than its start,
/// lasts the difference of their day numbers, which is positive. Any other
/// period lasts zero days: one that lacks a bound, and one whose end is the
/// start or a date before it.
pub proof fn lemma_days_between_dates(periode: Periode)
    requires
        periode_wf(periode),
    ensures
        match (periode[0], periode[1]) {
            (Some(start), Some(end)) => if start.is_before(end) {
                spec_get_days_between_dates(periode) == end.day_number() - start.day_number()
                    && spec_get_days_between_dates(periode) > 0
            } else {
                spec_get_days_between_dates(periode) == 0
            },
            _ => spec_get_days_between_dates(periode) == 0,
        },
{
    if let (Some(start), Some(end)) = (periode[0], periode[1]) {
        if start.is_before(end) {
            lemma_day_number_strictly_monotonic(start, end);
        } else if end.is_before(start) {
            lemma_day_number_strictly_monotonic(end, start);
        }
    }
}

/// The months and days of a split make up the day count again, and the days
/// of a count that is not negative lie from 0 to 29.
pub proof fn lemma_split_months_days(days: int)
    ensures
        spec_split_months_days(days).0 * 30 + spec_split_months_days(days).1 == days,
        days >= 0 ==> 0 <= spec_split_months_days(days).1 < 30,
{
}

/// A credit that is not negative never moves a date forward.
pub proof fn lemma_reduced_date_not_later(date: Date, days: int)
    requires
        date.wf(),
        days >= 0,
        spec_reduced_date(date, days) is Some,
    ensures
        spec_reduced_date(date, days).unwrap().wf(),
        spec_reduced_date(date, days).unwrap().day_number() <= date.day_number(),
{
    let (months, rest) = spec_split_months_days(days);
    lemma_shift_back_not_later(date, -months);
    lemma_minus_days(date.spec_shift_months(-months).unwrap(), rest);
}

/// Where CRP and RPS are not negative, no reduced end date is later than
/// the end date that it reduces; the same holds at the midpoint.
pub proof fn lemma_reduced_dates_not_later(input: SentenceInput)
    requires
        input.wf(),
        spec_calculate(input) is Some,
        spec_calculate(input).unwrap().previsional_crp_days >= 0,
        spec_calculate(input).unwrap().previsional_rps_days >= 0,
        spec_calculate(input).unwrap().mid_previsional_rps_days >= 0,
    ensures
        ({
            let v = spec_calculate(input).unwrap();
            &&& v.incarceration_end_date_reducted_minus_rps.day_number()
                <= v.incarceration_end_date.day_number()
            &&& v.incarceration_end_date_reducted.day_number()
                <= v.incarceration_end_date.day_number()
            &&& v.mid_incarceration_end_date_reducted_minus_rps.day_number()
                <= v.mid_incarceration_end_date.day_number()
            &&& v.mid_incarceration_end_date_reducted.day_number()
                <= v.mid_incarceration_end_date.day_number()
        }),
{
    let v = spec_calculate(input).unwrap();
    let crp_days = v.previsional_crp_days;
    let detention_days = v.total_detention_days;
    let end = v.incarceration_end_date;
    let mid_end = v.mid_incarceration_end_date;
    lemma_reduced_date_not_later(end, crp_days + detention_days);
    lemma_reduced_date_not_later(end, crp_days + v.previsional_rps_days + detention_days);
    lemma_reduced_date_not_later(
        mid_end,
        trunc_div(crp_days, 2) + trunc_div(detention_days, 2),
    );
    lemma_reduced_date_not_later(
        mid_end,
        trunc_div(crp_days, 2) + v.mid_previsional_rps_days + trunc_div(detention_days, 2),
    );
}

/// The day counts of a result: no detention period counts for less than
/// nothing, a CRP without withdrawal is not negative for a sentence that is
/// not, and the totals are the sums of their parts.
pub proof fn lemma_result_day_counts(input: SentenceInput)
    requires
        input.wf(),
        spec_calculate(input) is Some,
    ensures
        ({
            let v = spec_calculate(input).unwrap();
            &&& v.days_detention_period_1 >= 0
            &&& v.days_detention_period_2 >= 0
            &&& v.total_detention_days == v.days_detention_period_1 + v.days_detention_period_2
            &&& v.total_crp_rps == v.previsional_crp_days + v.previsional_rps_days
            &&& v.total_crp_rps_detention == v.total_crp_rps + v.total_detention_days
            &&& input.month_ppl >= 0 && (input.substracted_crp is None || input.substracted_crp
                == Some(0i64)) ==> v.previsional_crp_days >= 0
            &&& input.manual_rps matches Some(months) ==> v.previsional_rps_days == months * 30
                && v.mid_previsional_rps_days == months * 30
        }),
{
}

/// What `calculate` promises of its result `r` on `input`.
pub open spec fn calculate_ensures(
    input: SentenceInput,
    r: core::result::Result<Result, CalcError>,
) -> bool {
    match spec_calculate(input) {
        Some(v) => r matches Ok(res) && res@ == v,
        None => r == Err::<Result, CalcError>(CalcError::DateOutOfRange),
    }
}

/// The result is a function of the input: whatever two calls on the same
/// input return is the same, field by field.
pub proof fn lemma_calculate_deterministic(
    input: SentenceInput,
    first: core::result::Result<Result, CalcError>,
    second: core::result::Result<Result, CalcError>,
)
    requires
        calculate_ensures(input, first),
        calculate_ensures(input, second),
    ensures
        first == second,
{
}

/// Projected CRP in days for a sentence of `month_ppl` months, less thirty
/// days for each withdrawn month. The result is wide enough for every input.
pub fn previsional_crp_days(month_ppl: i64, substracted_crp: Option<i64>) -> (r: i128)
    ensures
        r == spec_previsional_crp_days(month_ppl as int, substracted_crp),
        month_ppl >= 0 && (substracted_crp is None || substracted_crp == Some(0i64)) ==> r >= 0,
{
    let granted: i128 = if month_ppl >= ONE_YEAR {
        let (months_of_uncomplete_year, complete_years) = year_months_from_months(month_ppl);
        let last_year: i64 = months_of_uncomplete_year * REDUCTION_PER_MONTH;
        FIRST_YEAR_CRP as i128 + (complete_years as i128 - 1) * (ONE_YEAR_CRP as i128) + (
        if last_year <= ONE_YEAR_CRP {
            last_year as i128
        } else {
            ONE_YEAR_CRP as i128
        })
    } else {
        month_ppl as i128 * (REDUCTION_PER_MONTH as i128)
    };
    let withdrawn: i128 = match substracted_crp {
        Some(months) => months as i128 * (ONE_MONTH_DAYS as i128),
        None => 0,
    };
    granted - withdrawn
}

/// Takes a credit of `days` off `date`: the whole months of thirty days by
/// calendar months, the rest by days.
pub fn reduced_date(date: Date, days: i128) -> (r: Option<Date>)
    requires
        date.wf(),
    ensures
        r == spec_reduced_date(date, days as int),
        r matches Some(d) ==> d.wf(),
{
    if days < -200_000_000 || days > 200_000_000 {
        proof {
            if spec_reduced_date(date, days as int) is Some {
                lemma_reduced_date_bounds(date, days as int);
            }
        }
        return None;
    }
    let (months, rest) = split_months_days(days as i64);
    match date.shift_months(-months) {
        Some(shifted) => shifted.minus_days(rest),
        None => None,
    }
}

/// Projected RPS in days, or thirty days for each granted month where
/// `manual_rps` gives them.
pub fn previsional_rps_days(
    start: Date,
    end: Date,
    crp_days: i128,
    manual_rps: Option<i64>,
) -> (r: Option<i128>)
    requires
        start.wf(),
        end.wf(),
    ensures
        match r {
            Some(days) => spec_previsional_rps_days(start, end, crp_days as int, manual_rps)
                == Some(days as int),
            None => spec_previsional_rps_days(start, end, crp_days as int, manual_rps) is None,
        },
        r matches Some(days) ==> -0x1_0000_0000_0000_0000_0000 <= days
            <= 0x1_0000_0000_0000_0000_0000,
{
    match manual_rps {
        Some(months) => Some(months as i128 * (ONE_MONTH_DAYS as i128)),
        None => match reduced_date(end, crp_days) {
            Some(reduced) => {
                let remaining: i64 = reduced.days_since(start);
                let (months_of_uncomplete_year, complete_years) = year_months_from_months(
                    remaining / ONE_MONTH_DAYS,
                );
                Some(
                    months_of_uncomplete_year as i128 * (REDUCTION_PER_MONTH as i128)
                        + complete_years as i128 * (YEARS_RPS as i128),
                )
            },
            None => None,
        },
    }
}

/// The reductions that apply to one end date.
struct Reductions {
    rps_days: i64,
    reducted_minus_rps: Date,
    reducted: Date,
    reduction_days: i64,
}

impl Reductions {
    spec fn model(self) -> ReductionsView {
        ReductionsView {
            rps_days: self.rps_days as int,
            reducted_minus_rps: self.reducted_minus_rps,
            reducted: self.reducted,
            reduction_days: self.reduction_days as int,
        }
    }
}

/// The reductions on `end`, and with them the bounds that a CRP keeps
/// whenever they exist.
fn reductions(
    start: Date,
    end: Date,
    crp_days: i128,
    detention_days: i64,
    manual_rps: Option<i64>,
) -> (r: Option<Reductions>)
    requires
        start.wf(),
        end.wf(),
        0 <= detention_days <= 400_000_000,
        -0x1_0000_0000_0000_0000_0000 <= crp_days <= 0x1_0000_0000_0000_0000_0000,
    ensures
        match spec_reductions(start, end, crp_days as int, detention_days as int, manual_rps) {
            Some(v) => r matches Some(x) && x.model() == v,
            None => r is None,
        },
        r is Some ==> -600_000_000 <= crp_days <= 200_000_000,
        r matches Some(x) ==> -400_000_000 <= x.rps_days <= 400_000_000,
        r matches Some(x) ==> x.reducted_minus_rps.wf() && x.reducted.wf(),
{
    let rps_days: i128 = match previsional_rps_days(start, end, crp_days, manual_rps) {
        Some(days) => days,
        None => {
            return None;
        },
    };
    let reducted_minus_rps = match reduced_date(end, crp_days + detention_days as i128) {
        Some(date) => date,
        None => {
            return None;
        },
    };
    proof {
        lemma_reduced_date_bounds(end, crp_days + detention_days);
    }
    let total: i128 = crp_days + rps_days + detention_days as i128;
    let reducted = match reduced_date(end, total) {
        Some(date) => date,
        None => {
            return None;
        },
    };
    proof {
        lemma_reduced_date_bounds(end, total as int);
    }
    let (_, reduction_days) = split_months_days(total as i64);
    Some(Reductions { rps_days: rps_days as i64, reducted_minus_rps, reducted, reduction_days })
}

impl SentenceInput {
    /// Whether every date of the input is well formed.
    pub fn is_valid(&self) -> (r: bool)
        ensures
            r == self.wf(),
    {
        self.incarceration_start_date.is_valid() && periode_is_valid(&self.detention_period_1)
            && periode_is_valid(&self.detention_period_2)
    }
}

/// Derives the end date of the sentence, the credits in days and the
/// reduced end dates, for the whole sentence and for its midpoint.
///
/// Fails with `DateOutOfRange` exactly when one of the dates to compute lies
/// outside the years that a `Date` can hold.
pub fn calculate(input: &SentenceInput) -> (r: core::result::Result<Result, CalcError>)
    requires
        input.wf(),
    ensures
        calculate_ensures(*input, r),
        r matches Ok(res) ==> res.wf(),
{
    let start = input.incarceration_start_date;
    let month_ppl: i64 = input.month_ppl;
    let incarceration_end_date = match start.shift_months(month_ppl) {
        Some(date) => date,
        None => {
            return Err(CalcError::DateOutOfRange);
        },
    };
    let mid_incarceration_end_date = match start.shift_months(month_ppl / 2) {
        Some(date) => date,
        None => {
            return Err(CalcError::DateOutOfRange);
        },
    };
    let crp_days: i128 = previsional_crp_days(month_ppl, input.substracted_crp);

    let days_detention_period_1: i64 = get_days_between_dates(input.detention_period_1);
    let days_detention_period_2: i64 = get_days_between_dates(input.detention_period_2);
    let total_detention_days: i64 = days_detention_period_1 + days_detention_period_2;

    let whole = match reductions(
        start,
        incarceration_end_date,
        crp_days,
        total_detention_days,
        input.manual_rps,
    ) {
        Some(reductions) => reductions,
        None => {
            return Err(CalcError::DateOutOfRange);
        },
    };
    let mid = match reductions(
        start,
        mid_incarceration_end_date,
        crp_days / 2,
        total_detention_days / 2,
        input.manual_rps,
    ) {
        Some(reductions) => reductions,
        None => {
            return Err(CalcError::DateOutOfRange);
        },
    };
    let previsional_crp_days: i64 = crp_days as i64;
    Ok(
        Result {
            incarceration_end_date,
            previsional_crp_days,
            previsional_rps_days: whole.rps_days,
            total_detention_days,
            total_reduction_days: whole.reduction_days,
            mid_previsional_rps_days: mid.rps_days,
            mid_total_reduction_days: mid.reduction_days,
            incarceration_end_date_reducted: whole.reducted,
            incarceration_end_date_reducted_minus_rps: whole.reducted_minus_rps,
            mid_incarceration_end_date,
            mid_incarceration_end_date_reducted_minus_rps: mid.reducted_minus_rps,
            mid_incarceration_end_date_reducted: mid.reducted,
            days_detention_period_1,
            days_detention_period_2,
            total_crp_rps: previsional_crp_days + whole.rps_days,
            total_crp_rps_detention: previsional_crp_days + whole.rps_days + total_detention_days,
        },
    )
}

} // verus!
