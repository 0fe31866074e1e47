use crate::date::CalendarDate;
use vstd::prelude::*;

verus! {

/// One of the four columns that a sheet of sales must have.
#[derive(Clone, Copy, Debug, PartialEq, Eq, Structural)]
pub enum Column {
    /// The day of the sale.
    DateSold,
    /// The signed gain or loss of the sale.
    GainLoss,
    /// The kind of record that the row holds.
    RecordType,
    /// The proceeds of the sale.
    TotalProceeds,
}

/// Why a response of the rate service gave no rate.
#[derive(Clone, Copy, Debug, PartialEq, Eq, Structural)]
pub enum RateFailure {
    /// The header row of the response could not be read.
    Unreadable,
    /// No column of the response is named for the observed value.
    MissingColumn,
    /// The response holds no data row that can be read, or the row ends
    /// before the column of the observed value.
    MissingRow,
    /// The observed value is not a number.
    NotANumber,
    /// The observed value is zero or negative.
    NotPositive,
}

/// Why a run over a sheet of sales was given up.
#[derive(Clone, Copy, Debug, PartialEq, Eq, Structural)]
pub enum Error {
    /// The header row lacks a column.
    MissingColumn(Column),
    /// The cell of data row `row` in `column` does not hold what the column
    /// asks for.
    MalformedField { row: usize, column: Column },
    /// The sale of data row `row` is of the year `year`, and an earlier sale
    /// was of `fiscal_year`.
    CrossYearViolation { row: usize, fiscal_year: i32, year: i32 },
    /// No exchange rate could be had for `date`.
    RateUnavailable { date: CalendarDate, reason: RateFailure },
}

impl Column {
    /// The name of the column in the header row.
    pub open spec fn header(self) -> Seq<char> {
        match self {
            Column::DateSold => "Date Sold"@,
            Column::GainLoss => "Adjusted Gain/Loss"@,
            Column::RecordType => "Record Type"@,
            Column::TotalProceeds => "Total Proceeds"@,
        }
    }

    /// The name of the column in the header row.
    pub fn header_text(&self) -> (r: &'static str)
        ensures
            r@ == self.header(),
    {
        match self {
            Column::DateSold => "Date Sold",
            Column::GainLoss => "Adjusted Gain/Loss",
            Column::RecordType => "Record Type",
            Column::TotalProceeds => "Total Proceeds",
        }
    }
}

/// No two columns have the same name.
pub proof fn lemma_headers_differ(a: Column, b: Column)
    requires
        a != b,
    ensures
        a.header() != b.header(),
{
    reveal_strlit("Date Sold");
    reveal_strlit("Adjusted Gain/Loss");
    reveal_strlit("Record Type");
    reveal_strlit("Total Proceeds");
    assert(a.header().len() != b.header().len());
}

} // verus!
