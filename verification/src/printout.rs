use crate::date::{formatted_date, iso_date_format, CalendarDate};
use crate::decimal::{
    amount_text, amount_text_2dp, amount_to_text, amount_to_text_2dp, integer_text,
    integer_to_text,
};
use crate::report::{
    compute_period_report, compute_year_report, early_period, fiscal_year_of, is_report_of,
    is_year_report_of, late_period, statutory_periods, PeriodTaxReport, TaxReport,
};
use crate::transaction::{views, Transaction};
use vstd::prelude::*;
use vstd::string::*;

verus! {

/// The reports on a fiscal year and on its two statutory periods, and the
/// lines that present them.
#[derive(Debug)]
pub struct ReportPrintout {
    /// The totals of January 1 to November 30.
    pub early: PeriodTaxReport,
    /// The totals of December 1 to December 31.
    pub late: PeriodTaxReport,
    /// The report on the whole year.
    pub year: TaxReport,
    /// The lines to print, in order. A line may hold line ends of its own.
    pub lines: Vec<String>,
}

/// The heading of the report on a period, where `start` and `end` write
/// down its first and last day.
pub open spec fn period_heading_text(start: Seq<char>, end: Seq<char>) -> Seq<char> {
    "\n=== TAX REPORT FOR PERIOD "@ + start + " TO "@ + end + " ===\n"@
}

/// The heading of the report on `period`, where its days can be written
/// down.
pub open spec fn period_heading(period: (CalendarDate, CalendarDate)) -> Option<Seq<char>> {
    match (
        formatted_date(iso_date_format(), period.0.year, period.0.month, period.0.day),
        formatted_date(iso_date_format(), period.1.year, period.1.month, period.1.day),
    ) {
        (Some(start), Some(end)) => Some(period_heading_text(start, end)),
        _ => None,
    }
}

/// The heading of the report on the whole of `year`.
pub open spec fn year_heading(year: i32) -> Seq<char> {
    "\n=== TAX REPORT FOR ENTIRE FISCAL YEAR "@ + integer_text(year as int) + " ===\n"@
}

/// The eight lines that present the totals of a period, each amount with
/// two decimals.
pub open spec fn period_lines(report: PeriodTaxReport) -> Seq<Seq<char>> {
    seq![
        "Total proceeds (USD): $"@ + amount_text_2dp(report.usd_proceeds as int),
        "Total gain (USD): $"@ + amount_text_2dp(report.usd_gain as int),
        "Total loss (USD): $"@ + amount_text_2dp(report.usd_loss as int),
        "Net gain (USD): $"@ + amount_text_2dp(report.usd_net_gain as int) + "\n"@,
        "Total proceeds: €"@ + amount_text_2dp(report.eur_proceeds as int),
        "Total gain: €"@ + amount_text_2dp(report.eur_gain as int),
        "Total loss: €"@ + amount_text_2dp(report.eur_loss as int),
        "Net gain (Gain-Loss): €"@ + amount_text_2dp(report.eur_net_gain as int),
    ]
}

/// The two lines that present the taxable gain, with two decimals, and the
/// tax to pay, in full.
pub open spec fn tax_lines(report: TaxReport) -> Seq<Seq<char>> {
    seq![
        "\nTaxable gain (amount above exemption): €"@ + amount_text_2dp(
            report.eur_taxable_gain as int,
        ),
        "Tax to pay (33.00%): €"@ + amount_text(report.eur_tax as int),
    ]
}

/// The lines that present the three reports, where `first` and `second`
/// are the headings of the two periods: the first period, the second
/// period, then the whole year with the taxable gain and the tax.
pub open spec fn assembled_lines(
    first: Seq<char>,
    second: Seq<char>,
    early: PeriodTaxReport,
    late: PeriodTaxReport,
    year: TaxReport,
) -> Seq<Seq<char>> {
    ((((seq![first] + period_lines(early)).push(second) + period_lines(late)).push(
        year_heading(year.fiscal_year),
    ) + period_lines(year.period_tax_report)) + tax_lines(year))
}

/// The lines that present the three reports. Nothing where a day of a
/// period cannot be written down.
pub open spec fn printout_lines(
    early: PeriodTaxReport,
    late: PeriodTaxReport,
    year: TaxReport,
) -> Option<Seq<Seq<char>>> {
    match (
        period_heading(early_period(year.fiscal_year)),
        period_heading(late_period(year.fiscal_year)),
    ) {
        (Some(first), Some(second)) => Some(assembled_lines(first, second, early, late, year)),
        _ => None,
    }
}

/// `label` followed by `value`.
fn labelled(label: &str, value: &str) -> (r: String)
    ensures
        r@ == label@ + value@,
{
    let mut text = String::from_str(label);
    text.append(value);
    text
}

/// Adds `line` at the end of `lines`.
fn push_line(lines: &mut Vec<String>, line: String)
    ensures
        final(lines).deep_view() == old(lines).deep_view().push(line@),
{
    let ghost before = lines.deep_view();
    let ghost text = line@;
    lines.push(line);
    assert(lines.deep_view() =~= before.push(text));
}

/// The heading of the report on a period, where `start` and `end` write
/// down its first and last day.
pub fn period_heading_line(start: &str, end: &str) -> (r: String)
    ensures
        r@ == period_heading_text(start@, end@),
{
    let mut text = String::from_str("\n=== TAX REPORT FOR PERIOD ");
    text.append(start);
    text.append(" TO ");
    text.append(end);
    text.append(" ===\n");
    text
}

/// The heading of the report on `period`. `None` where one of its days
/// cannot be written down.
pub fn print_period_header(period: (CalendarDate, CalendarDate)) -> (r: Option<String>)
    ensures
        r.deep_view() == period_heading(period),
{
    let start = match period.0.iso_text() {
        Some(text) => text,
        None => {
            return None;
        },
    };
    let end = match period.1.iso_text() {
        Some(text) => text,
        None => {
            return None;
        },
    };
    Some(period_heading_line(start.as_str(), end.as_str()))
}

/// The eight lines that present the totals of a period.
pub fn print_period_report(report: &PeriodTaxReport) -> (r: Vec<String>)
    ensures
        r.deep_view() == period_lines(*report),
{
    let mut lines: Vec<String> = Vec::new();
    assert(lines.deep_view() =~= Seq::<Seq<char>>::empty());
    push_line(
        &mut lines,
        labelled("Total proceeds (USD): $", amount_to_text_2dp(report.usd_proceeds).as_str()),
    );
    push_line(
        &mut lines,
        labelled("Total gain (USD): $", amount_to_text_2dp(report.usd_gain).as_str()),
    );
    push_line(
        &mut lines,
        labelled("Total loss (USD): $", amount_to_text_2dp(report.usd_loss).as_str()),
    );
    let mut net = labelled("Net gain (USD): $", amount_to_text_2dp(report.usd_net_gain).as_str());
    net.append("\n");
    push_line(&mut lines, net);
    push_line(
        &mut lines,
        labelled("Total proceeds: €", amount_to_text_2dp(report.eur_proceeds).as_str()),
    );
    push_line(&mut lines, labelled("Total gain: €", amount_to_text_2dp(report.eur_gain).as_str()));
    push_line(&mut lines, labelled("Total loss: €", amount_to_text_2dp(report.eur_loss).as_str()));
    push_line(
        &mut lines,
        labelled("Net gain (Gain-Loss): €", amount_to_text_2dp(report.eur_net_gain).as_str()),
    );
    assert(lines.deep_view() =~= period_lines(*report));
    lines
}

/// Adds the lines `more` at the end of `lines`.
fn push_lines(lines: &mut Vec<String>, more: Vec<String>)
    ensures
        final(lines).deep_view() == old(lines).deep_view() + more.deep_view(),
{
    let ghost before = lines.deep_view();
    let ghost added = more.deep_view();
    let mut more = more;
    lines.append(&mut more);
    assert(lines.deep_view() =~= before + added);
}

/// The heading of the report on the whole of `year`.
pub fn year_heading_line(year: i32) -> (r: String)
    ensures
        r@ == year_heading(year),
{
    let mut heading = labelled(
        "\n=== TAX REPORT FOR ENTIRE FISCAL YEAR ",
        integer_to_text(year as i128).as_str(),
    );
    heading.append(" ===\n");
    heading
}

/// The two lines that present the taxable gain and the tax to pay.
pub fn print_tax(report: &TaxReport) -> (r: Vec<String>)
    ensures
        r.deep_view() == tax_lines(*report),
{
    let mut lines: Vec<String> = Vec::new();
    assert(lines.deep_view() =~= Seq::<Seq<char>>::empty());
    push_line(
        &mut lines,
        labelled(
            "\nTaxable gain (amount above exemption): €",
            amount_to_text_2dp(report.eur_taxable_gain).as_str(),
        ),
    );
    push_line(
        &mut lines,
        labelled("Tax to pay (33.00%): €", amount_to_text(report.eur_tax).as_str()),
    );
    assert(lines.deep_view() =~= tax_lines(*report));
    lines
}

/// Puts the lines that present the three reports in order, where `first`
/// and `second` are the headings of the two periods.
pub fn assemble_lines(
    first: String,
    second: String,
    early: &PeriodTaxReport,
    late: &PeriodTaxReport,
    year: &TaxReport,
) -> (r: Vec<String>)
    ensures
        r.deep_view() == assembled_lines(first@, second@, *early, *late, *year),
{
    let mut lines: Vec<String> = Vec::new();
    assert(lines.deep_view() =~= Seq::<Seq<char>>::empty());
    push_line(&mut lines, first);
    push_lines(&mut lines, print_period_report(early));
    push_line(&mut lines, second);
    push_lines(&mut lines, print_period_report(late));
    push_line(&mut lines, year_heading_line(year.fiscal_year));
    push_lines(&mut lines, print_period_report(&year.period_tax_report));
    push_lines(&mut lines, print_tax(year));
    lines
}

/// Computes the report on the fiscal year of `transactions` and the
/// reports on its two statutory periods, and writes the lines that present
/// them: the first period, the second period, then the whole year with the
/// taxable gain and the tax to pay. The exemption and the tax are worked out
/// on the whole year alone. `None` where a day of a period cannot be
/// written down.
pub fn compute_and_print_report(transactions: &[Transaction]) -> (r: Option<ReportPrintout>)
    ensures
        r is Some <==> period_heading(early_period(fiscal_year_of(views(transactions@)))) is Some
            && period_heading(late_period(fiscal_year_of(views(transactions@)))) is Some,
        r matches Some(printout) ==> {
            &&& is_year_report_of(printout.year, views(transactions@))
            &&& is_report_of(
                printout.early,
                views(transactions@),
                Some(early_period(printout.year.fiscal_year)),
            )
            &&& is_report_of(
                printout.late,
                views(transactions@),
                Some(late_period(printout.year.fiscal_year)),
            )
            &&& printout_lines(printout.early, printout.late, printout.year) == Some(
                printout.lines.deep_view(),
            )
        },
{
    let year = compute_year_report(transactions);
    let (first, second) = statutory_periods(year.fiscal_year);
    let early = compute_period_report(transactions, Some(first));
    let late = compute_period_report(transactions, Some(second));
    let first_heading = match print_period_header(first) {
        Some(text) => text,
        None => {
            return None;
        },
    };
    let second_heading = match print_period_header(second) {
        Some(text) => text,
        None => {
            return None;
        },
    };
    let lines = assemble_lines(first_heading, second_heading, &early, &late, &year);
    Some(ReportPrintout { early, late, year, lines })
}

} // verus!
