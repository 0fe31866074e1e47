use crate::amount::MAX_AMOUNT;
use crate::date::CalendarDate;
use crate::transaction::{views, Transaction, TransactionView};
use vstd::prelude::*;

verus! {

/// The yearly personal exemption, in millionths of a EUR.
pub const EXEMPTION_EUR: i128 = 1_270_000_000;

/// The tax rate on the taxable gain, in percent.
pub const TAX_RATE_PERCENT: i128 = 33;

/// The totals of the transactions of one period, in millionths.
#[derive(Clone, Copy, Debug, Default, PartialEq, Eq)]
pub struct PeriodTaxReport {
    pub usd_gain: i128,
    pub usd_loss: i128,
    pub usd_net_gain: i128,
    pub eur_gain: i128,
    pub eur_loss: i128,
    pub eur_net_gain: i128,
    pub usd_proceeds: i128,
    pub eur_proceeds: i128,
}

/// The report on a fiscal year: its totals, the gain above the exemption
/// and the tax on it, in millionths.
#[derive(Clone, Copy, Debug, Default, PartialEq, Eq)]
pub struct TaxReport {
    pub fiscal_year: i32,
    pub period_tax_report: PeriodTaxReport,
    pub eur_taxable_gain: i128,
    pub eur_tax: i128,
}

/// One of the six amounts of a transaction.
pub enum Figure {
    UsdGain,
    UsdLoss,
    EurGain,
    EurLoss,
    UsdProceeds,
    EurProceeds,
}

/// The amount `which` of the transaction `t`.
pub open spec fn figure(t: TransactionView, which: Figure) -> nat {
    match which {
        Figure::UsdGain => t.usd_gain,
        Figure::UsdLoss => t.usd_loss,
        Figure::EurGain => t.eur_gain,
        Figure::EurLoss => t.eur_loss,
        Figure::UsdProceeds => t.usd_proceeds,
        Figure::EurProceeds => t.eur_proceeds,
    }
}

/// Whether `date` counts for `period`: every date where there is no
/// period, else the dates from its first day to its last, both included.
pub open spec fn in_period(date: CalendarDate, period: Option<(CalendarDate, CalendarDate)>) -> bool {
    match period {
        Some((start, end)) => date.is_within(start, end),
        None => true,
    }
}

/// The sum of the amount `which` over the transactions of `ts` that were
/// sold in `period`.
pub open spec fn total(
    ts: Seq<TransactionView>,
    period: Option<(CalendarDate, CalendarDate)>,
    which: Figure,
) -> int
    decreases ts.len(),
{
    if ts.len() == 0 {
        0
    } else if in_period(ts.last().sell_date, period) {
        total(ts.drop_last(), period, which) + figure(ts.last(), which)
    } else {
        total(ts.drop_last(), period, which)
    }
}

/// Whether `report` holds the totals of `ts` over `period`: the six sums,
/// and each net gain as gain less loss.
pub open spec fn is_report_of(
    report: PeriodTaxReport,
    ts: Seq<TransactionView>,
    period: Option<(CalendarDate, CalendarDate)>,
) -> bool {
    &&& report.usd_gain == total(ts, period, Figure::UsdGain)
    &&& report.usd_loss == total(ts, period, Figure::UsdLoss)
    &&& report.usd_net_gain == report.usd_gain - report.usd_loss
    &&& report.eur_gain == total(ts, period, Figure::EurGain)
    &&& report.eur_loss == total(ts, period, Figure::EurLoss)
    &&& report.eur_net_gain == report.eur_gain - report.eur_loss
    &&& report.usd_proceeds == total(ts, period, Figure::UsdProceeds)
    &&& report.eur_proceeds == total(ts, period, Figure::EurProceeds)
}

/// The part of a net gain in EUR that is taxed: what lies above the
/// exemption, and nothing where the gain does not reach it.
pub open spec fn taxable_gain(eur_net_gain: int) -> int {
    if eur_net_gain - EXEMPTION_EUR >= 0 {
        eur_net_gain - EXEMPTION_EUR
    } else {
        0
    }
}

/// The tax on a taxable gain, rounded down to a millionth.
pub open spec fn tax_due(eur_taxable_gain: int) -> int {
    eur_taxable_gain * TAX_RATE_PERCENT / 100
}

/// The fiscal year of `ts`: the year of its first sale, and 0 where it has
/// none.
pub open spec fn fiscal_year_of(ts: Seq<TransactionView>) -> i32 {
    if ts.len() > 0 {
        ts[0].sell_date.year
    } else {
        0
    }
}

/// Whether `report` is the report on the year of `ts`: the totals of all
/// of `ts`, with the exemption taken once from the net gain in EUR of the
/// whole year.
pub open spec fn is_year_report_of(report: TaxReport, ts: Seq<TransactionView>) -> bool {
    &&& report.fiscal_year == fiscal_year_of(ts)
    &&& is_report_of(report.period_tax_report, ts, None)
    &&& report.eur_taxable_gain == taxable_gain(report.period_tax_report.eur_net_gain as int)
    &&& report.eur_tax == tax_due(report.eur_taxable_gain as int)
}

/// The first statutory period of `year`: January 1 to November 30.
pub open spec fn early_period(year: i32) -> (CalendarDate, CalendarDate) {
    (CalendarDate { year, month: 1, day: 1 }, CalendarDate { year, month: 11, day: 30 })
}

/// The second statutory period of `year`: December 1 to December 31.
pub open spec fn late_period(year: i32) -> (CalendarDate, CalendarDate) {
    (CalendarDate { year, month: 12, day: 1 }, CalendarDate { year, month: 12, day: 31 })
}

/// The two statutory periods part the fiscal year: a sum over the whole
/// year is the sum over the first period plus the sum over the second, for
/// transactions whose days exist and lie in `year`.
pub proof fn lemma_periods_part_the_year(ts: Seq<TransactionView>, year: i32, which: Figure)
    requires
        forall|i: int|
            0 <= i < ts.len() ==> (#[trigger] ts[i]).sell_date.is_valid() && ts[i].sell_date.year
                == year,
    ensures
        total(ts, None, which) == total(ts, Some(early_period(year)), which) + total(
            ts,
            Some(late_period(year)),
            which,
        ),
    decreases ts.len(),
{
    if ts.len() > 0 {
        let rest = ts.drop_last();
        assert forall|i: int| 0 <= i < rest.len() implies (#[trigger] rest[i]).sell_date.is_valid()
            && rest[i].sell_date.year == year by {
            assert(rest[i] == ts[i]);
        }
        lemma_periods_part_the_year(rest, year, which);
        let date = ts.last().sell_date;
        assert(date.is_valid() && date.year == year);
        assert(in_period(date, Some(early_period(year))) != in_period(
            date,
            Some(late_period(year)),
        ));
    }
}

/// The report on the whole year is, amount by amount, the sum of the
/// reports on the two statutory periods, for transactions whose days exist
/// and lie in `year`.
pub proof fn lemma_year_report_is_sum_of_periods(
    ts: Seq<TransactionView>,
    year: i32,
    whole: PeriodTaxReport,
    early: PeriodTaxReport,
    late: PeriodTaxReport,
)
    requires
        forall|i: int|
            0 <= i < ts.len() ==> (#[trigger] ts[i]).sell_date.is_valid() && ts[i].sell_date.year
                == year,
        is_report_of(whole, ts, None),
        is_report_of(early, ts, Some(early_period(year))),
        is_report_of(late, ts, Some(late_period(year))),
    ensures
        whole.usd_gain == early.usd_gain + late.usd_gain,
        whole.usd_loss == early.usd_loss + late.usd_loss,
        whole.usd_net_gain == early.usd_net_gain + late.usd_net_gain,
        whole.eur_gain == early.eur_gain + late.eur_gain,
        whole.eur_loss == early.eur_loss + late.eur_loss,
        whole.eur_net_gain == early.eur_net_gain + late.eur_net_gain,
        whole.usd_proceeds == early.usd_proceeds + late.usd_proceeds,
        whole.eur_proceeds == early.eur_proceeds + late.eur_proceeds,
{
    lemma_periods_part_the_year(ts, year, Figure::UsdGain);
    lemma_periods_part_the_year(ts, year, Figure::UsdLoss);
    lemma_periods_part_the_year(ts, year, Figure::EurGain);
    lemma_periods_part_the_year(ts, year, Figure::EurLoss);
    lemma_periods_part_the_year(ts, year, Figure::UsdProceeds);
    lemma_periods_part_the_year(ts, year, Figure::EurProceeds);
}

/// The taxable gain is never negative; it is the net gain less the
/// exemption where that is not negative, and exactly zero otherwise.
pub proof fn lemma_taxable_gain(eur_net_gain: int)
    ensures
        taxable_gain(eur_net_gain) >= 0,
        eur_net_gain - EXEMPTION_EUR >= 0 ==> taxable_gain(eur_net_gain) == eur_net_gain
            - EXEMPTION_EUR,
        eur_net_gain - EXEMPTION_EUR < 0 ==> taxable_gain(eur_net_gain) == 0,
{
}

/// Exchanging two neighbours in `ts` changes no sum: the totals do not
/// depend on the order of the transactions.
pub proof fn lemma_total_ignores_order(
    ts: Seq<TransactionView>,
    at: int,
    period: Option<(CalendarDate, CalendarDate)>,
    which: Figure,
)
    requires
        0 <= at,
        at + 1 < ts.len(),
    ensures
        total(ts.update(at, ts[at + 1]).update(at + 1, ts[at]), period, which) == total(
            ts,
            period,
            which,
        ),
    decreases ts.len(),
{
    let swapped = ts.update(at, ts[at + 1]).update(at + 1, ts[at]);
    reveal_with_fuel(total, 3);
    if at + 2 == ts.len() {
        let rest = ts.drop_last();
        let swapped_rest = swapped.drop_last();
        assert(swapped_rest.drop_last() =~= rest.drop_last());
        assert(swapped_rest.last() == ts[at + 1]);
        assert(swapped.last() == ts[at]);
        assert(rest.last() == ts[at]);
    } else {
        let rest = ts.drop_last();
        lemma_total_ignores_order(rest, at, period, which);
        assert(swapped.drop_last() =~= rest.update(at, rest[at + 1]).update(at + 1, rest[at]));
        assert(swapped.last() == ts.last());
    }
}

/// Sums the amounts of the transactions that were sold in `period`, or of
/// all of them where no period is given.
pub fn compute_period_report(
    transactions: &[Transaction],
    period: Option<(CalendarDate, CalendarDate)>,
) -> (r: PeriodTaxReport)
    ensures
        is_report_of(r, views(transactions@), period),
        0 <= r.usd_gain <= transactions.len() * MAX_AMOUNT,
        0 <= r.usd_loss <= transactions.len() * MAX_AMOUNT,
        0 <= r.eur_gain <= transactions.len() * MAX_AMOUNT,
        0 <= r.eur_loss <= transactions.len() * MAX_AMOUNT,
        0 <= r.usd_proceeds <= transactions.len() * MAX_AMOUNT,
        0 <= r.eur_proceeds <= transactions.len() * MAX_AMOUNT,
{
    let ghost ts = views(transactions@);
    let mut usd_gain: i128 = 0;
    let mut usd_loss: i128 = 0;
    let mut eur_gain: i128 = 0;
    let mut eur_loss: i128 = 0;
    let mut usd_proceeds: i128 = 0;
    let mut eur_proceeds: i128 = 0;
    let mut i: usize = 0;
    while i < transactions.len()
        invariant
            i <= transactions.len(),
            ts == views(transactions@),
            usd_gain == total(ts.take(i as int), period, Figure::UsdGain),
            usd_loss == total(ts.take(i as int), period, Figure::UsdLoss),
            eur_gain == total(ts.take(i as int), period, Figure::EurGain),
            eur_loss == total(ts.take(i as int), period, Figure::EurLoss),
            usd_proceeds == total(ts.take(i as int), period, Figure::UsdProceeds),
            eur_proceeds == total(ts.take(i as int), period, Figure::EurProceeds),
            0 <= usd_gain <= i * MAX_AMOUNT,
            0 <= usd_loss <= i * MAX_AMOUNT,
            0 <= eur_gain <= i * MAX_AMOUNT,
            0 <= eur_loss <= i * MAX_AMOUNT,
            0 <= usd_proceeds <= i * MAX_AMOUNT,
            0 <= eur_proceeds <= i * MAX_AMOUNT,
        decreases transactions.len() - i,
    {
        let t = &transactions[i];
        proof {
            use_type_invariant(t);
            assert(ts.take(i as int + 1).drop_last() =~= ts.take(i as int));
            assert(ts.take(i as int + 1).last() == t@);
            assert(i * MAX_AMOUNT + MAX_AMOUNT == (i + 1) * MAX_AMOUNT) by (nonlinear_arith);
            assert((i + 1) * MAX_AMOUNT <= 0xffff_ffff_ffff_ffff * 0x8000_0000_0000_0000)
                by (nonlinear_arith)
                requires
                    i + 1 <= 0xffff_ffff_ffff_ffff,
                    MAX_AMOUNT == 0x8000_0000_0000_0000,
            ;
        }
        let counts = match period {
            Some((start, end)) => t.sell_date().within(&start, &end),
            None => true,
        };
        if counts {
            usd_gain = usd_gain + t.usd_gain() as i128;
            usd_loss = usd_loss + t.usd_loss() as i128;
            eur_gain = eur_gain + t.eur_gain() as i128;
            eur_loss = eur_loss + t.eur_loss() as i128;
            usd_proceeds = usd_proceeds + t.usd_proceeds() as i128;
            eur_proceeds = eur_proceeds + t.eur_proceeds() as i128;
        }
        i += 1;
    }
    proof {
        assert(ts.take(i as int) =~= ts);
        assert(transactions.len() * MAX_AMOUNT <= 0xffff_ffff_ffff_ffff * 0x8000_0000_0000_0000)
            by (nonlinear_arith)
            requires
                transactions.len() <= 0xffff_ffff_ffff_ffff,
                MAX_AMOUNT == 0x8000_0000_0000_0000,
        ;
    }
    PeriodTaxReport {
        usd_gain,
        usd_loss,
        usd_net_gain: usd_gain - usd_loss,
        eur_gain,
        eur_loss,
        eur_net_gain: eur_gain - eur_loss,
        usd_proceeds,
        eur_proceeds,
    }
}

/// Computes the tax on a taxable gain that is not negative.
fn compute_tax(eur_taxable_gain: i128) -> (r: i128)
    requires
        eur_taxable_gain >= 0,
    ensures
        r == tax_due(eur_taxable_gain as int),
        0 <= r <= eur_taxable_gain,
{
    let hundreds: i128 = eur_taxable_gain / 100;
    let rest: i128 = eur_taxable_gain % 100;
    assert(eur_taxable_gain * 33 / 100 == hundreds * 33 + rest * 33 / 100) by (nonlinear_arith)
        requires
            eur_taxable_gain == hundreds * 100 + rest,
            0 <= rest < 100,
    ;
    assert(rest * 33 / 100 <= rest) by (nonlinear_arith)
        requires
            0 <= rest,
    ;
    hundreds * TAX_RATE_PERCENT + rest * TAX_RATE_PERCENT / 100
}

/// Builds the report on the fiscal year of `transactions`: the totals of
/// all of them, the net gain in EUR above the exemption, and the tax on it.
/// No transactions give a report of zeros.
pub fn compute_year_report(transactions: &[Transaction]) -> (r: TaxReport)
    ensures
        is_year_report_of(r, views(transactions@)),
        r.eur_taxable_gain >= 0,
        r.eur_tax >= 0,
{
    let fiscal_year: i32 = if transactions.len() > 0 {
        transactions[0].sell_date().year
    } else {
        0
    };
    let period_tax_report = compute_period_report(transactions, None);
    proof {
        assert(transactions.len() * MAX_AMOUNT <= 0xffff_ffff_ffff_ffff * 0x8000_0000_0000_0000)
            by (nonlinear_arith)
            requires
                transactions.len() <= 0xffff_ffff_ffff_ffff,
                MAX_AMOUNT == 0x8000_0000_0000_0000,
        ;
    }
    let above: i128 = period_tax_report.eur_net_gain - EXEMPTION_EUR;
    let eur_taxable_gain: i128 = if above >= 0 {
        above
    } else {
        0
    };
    let eur_tax = compute_tax(eur_taxable_gain);
    TaxReport { fiscal_year, period_tax_report, eur_taxable_gain, eur_tax }
}

/// The two statutory periods of `year`, the first one first.
pub fn statutory_periods(year: i32) -> (r: (
    (CalendarDate, CalendarDate),
    (CalendarDate, CalendarDate),
))
    ensures
        r.0 == early_period(year),
        r.1 == late_period(year),
        r.0.0.is_valid() && r.0.1.is_valid() && r.1.0.is_valid() && r.1.1.is_valid(),
{
    (
        (CalendarDate { year, month: 1, day: 1 }, CalendarDate { year, month: 11, day: 30 }),
        (CalendarDate { year, month: 12, day: 1 }, CalendarDate { year, month: 12, day: 31 }),
    )
}

} // verus!
