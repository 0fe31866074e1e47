use crate::amount::{in_eur, to_eur, MAX_AMOUNT};
use crate::cell::{cell_at, Cell, CellView};
use crate::columns::{column_indices, get_column_indices};
use crate::date::{sheet_date, CalendarDate};
use crate::error::{Column, Error};
use crate::rate::ExchangeRateCache;
use crate::transaction::{transaction_of, views, Transaction, TransactionView};
use vstd::prelude::*;

verus! {

/// What one data row comes to.
pub enum RowOutcome {
    /// The row is no sale and is passed over.
    Skipped,
    /// The row is a sale and gives a transaction.
    Sale(TransactionView),
    /// The row is a sale of a day whose rate is not known yet.
    NeedsRate(CalendarDate),
    /// The row is a sale that cannot be read.
    Failed(Error),
}

/// What one data row comes to, with the transaction it gives.
#[derive(Debug)]
pub enum RowStep {
    /// The row is no sale and is passed over.
    Skipped,
    /// The row is a sale and gives a transaction.
    Sale(Transaction),
    /// The row is a sale of a day whose rate is not known yet.
    NeedsRate(CalendarDate),
    /// The row is a sale that cannot be read.
    Failed(Error),
}

impl View for RowStep {
    type V = RowOutcome;

    open spec fn view(&self) -> RowOutcome {
        match self {
            RowStep::Skipped => RowOutcome::Skipped,
            RowStep::Sale(t) => RowOutcome::Sale(t@),
            RowStep::NeedsRate(date) => RowOutcome::NeedsRate(*date),
            RowStep::Failed(error) => RowOutcome::Failed(*error),
        }
    }
}

/// How far a run over the data rows has come.
pub enum Progress {
    /// No row so far has stopped the run: the year of the sales, once there
    /// is one, and their transactions in the order of the rows.
    Running { fiscal_year: Option<i32>, sales: Seq<TransactionView> },
    /// The run stopped at a sale of a day whose rate is not known yet.
    NeedsRate(CalendarDate),
    /// The run stopped at a row that cannot be read.
    Failed(Error),
}

/// What a run over a sheet comes to.
pub enum IngestionView {
    Complete(Seq<TransactionView>),
    NeedsRate(CalendarDate),
    Failed(Error),
}

/// What a run over a sheet comes to.
#[derive(Debug)]
pub enum Ingestion {
    /// Every row was read: the transactions of the sales, in the order of
    /// the rows.
    Complete(Vec<Transaction>),
    /// The rate of this day has to be resolved before the run can go
    /// further.
    NeedsRate(CalendarDate),
    /// The sheet cannot be read.
    Failed(Error),
}

impl View for Ingestion {
    type V = IngestionView;

    open spec fn view(&self) -> IngestionView {
        match self {
            Ingestion::Complete(transactions) => IngestionView::Complete(views(transactions@)),
            Ingestion::NeedsRate(date) => IngestionView::NeedsRate(*date),
            Ingestion::Failed(error) => IngestionView::Failed(*error),
        }
    }
}

/// The text that marks a row as a completed sale.
pub open spec fn sale_marker() -> Seq<char> {
    "Sell"@
}

/// Whether `row` is a completed sale: its cell in the column of the record
/// type holds exactly the marker.
pub open spec fn is_sale(columns: (usize, usize, usize, usize), row: Seq<CellView>) -> bool {
    cell_at(row, columns.2 as int) == CellView::Text(sale_marker())
}

/// The day of the sale in `row`, where its cell in the column of the sale
/// date holds a text that is a date.
pub open spec fn sale_date(columns: (usize, usize, usize, usize), row: Seq<CellView>) -> Option<
    CalendarDate,
> {
    match cell_at(row, columns.0 as int).text() {
        Some(text) => sheet_date(text),
        None => None,
    }
}

/// What the sale in data row `index` comes to, where `date` is the day
/// read from it, `fiscal_year` the year of the sales before it, and `rates`
/// the rates known. In this order: the day must have been read; its year
/// must be that of the earlier sales; the proceeds must be a number, and not
/// negative; the gain or loss must be a number; the rate of the day must be
/// known; and the amounts in EUR must not be above `MAX_AMOUNT`, the
/// proceeds first.
pub open spec fn sale_outcome(
    columns: (usize, usize, usize, usize),
    row: Seq<CellView>,
    index: usize,
    date: Option<CalendarDate>,
    fiscal_year: Option<i32>,
    rates: Map<CalendarDate, u64>,
) -> RowOutcome {
    let proceeds = cell_at(row, columns.3 as int).amount();
    let gain_loss = cell_at(row, columns.1 as int).amount();
    if date is None {
        RowOutcome::Failed(Error::MalformedField { row: index, column: Column::DateSold })
    } else if fiscal_year is Some && fiscal_year->0 != date->0.year {
        RowOutcome::Failed(
            Error::CrossYearViolation {
                row: index,
                fiscal_year: fiscal_year->0,
                year: date->0.year,
            },
        )
    } else if proceeds is None || proceeds->0 < 0 {
        RowOutcome::Failed(Error::MalformedField { row: index, column: Column::TotalProceeds })
    } else if gain_loss is None {
        RowOutcome::Failed(Error::MalformedField { row: index, column: Column::GainLoss })
    } else if !rates.contains_key(date->0) {
        RowOutcome::NeedsRate(date->0)
    } else if rates[date->0] == 0 || in_eur(proceeds->0 as nat, rates[date->0] as nat)
        > MAX_AMOUNT {
        RowOutcome::Failed(Error::MalformedField { row: index, column: Column::TotalProceeds })
    } else {
        match transaction_of(
            date->0,
            gain_loss->0 as int,
            proceeds->0 as int,
            rates[date->0] as nat,
        ) {
            Some(t) => RowOutcome::Sale(t),
            None => RowOutcome::Failed(
                Error::MalformedField { row: index, column: Column::GainLoss },
            ),
        }
    }
}

/// What data row `index` comes to: nothing where it is no sale, else what
/// the sale comes to.
pub open spec fn row_outcome(
    columns: (usize, usize, usize, usize),
    row: Seq<CellView>,
    index: usize,
    fiscal_year: Option<i32>,
    rates: Map<CalendarDate, u64>,
) -> RowOutcome {
    if is_sale(columns, row) {
        sale_outcome(columns, row, index, sale_date(columns, row), fiscal_year, rates)
    } else {
        RowOutcome::Skipped
    }
}

/// How far a run over the first `count` rows of `rows` comes, taking them
/// in order. The first sale fixes the fiscal year. The run stops at the
/// first row that cannot be read or whose rate is not in `rates`.
pub open spec fn progress(
    columns: (usize, usize, usize, usize),
    rows: Seq<Seq<CellView>>,
    rates: Map<CalendarDate, u64>,
    count: nat,
) -> Progress
    decreases count,
{
    if count == 0 {
        Progress::Running { fiscal_year: None, sales: Seq::empty() }
    } else {
        match progress(columns, rows, rates, (count - 1) as nat) {
            Progress::Running { fiscal_year, sales } => match row_outcome(
                columns,
                rows[count - 1],
                (count - 1) as usize,
                fiscal_year,
                rates,
            ) {
                RowOutcome::Skipped => Progress::Running { fiscal_year, sales },
                RowOutcome::Sale(t) => Progress::Running {
                    fiscal_year: Some(t.sell_date.year),
                    sales: sales.push(t),
                },
                RowOutcome::NeedsRate(date) => Progress::NeedsRate(date),
                RowOutcome::Failed(error) => Progress::Failed(error),
            },
            stopped => stopped,
        }
    }
}

/// What a run over the sheet with the header row `headers` and the data
/// rows `rows` comes to, with the rates `rates` known.
pub open spec fn ingestion(
    headers: Seq<Seq<char>>,
    rows: Seq<Seq<CellView>>,
    rates: Map<CalendarDate, u64>,
) -> IngestionView {
    match column_indices(headers) {
        Err(error) => IngestionView::Failed(error),
        Ok(columns) => match progress(columns, rows, rates, rows.len()) {
            Progress::Running { fiscal_year, sales } => IngestionView::Complete(sales),
            Progress::NeedsRate(date) => IngestionView::NeedsRate(date),
            Progress::Failed(error) => IngestionView::Failed(error),
        },
    }
}

/// A run that has stopped stays where it stopped.
pub proof fn lemma_stopped_stays(
    columns: (usize, usize, usize, usize),
    rows: Seq<Seq<CellView>>,
    rates: Map<CalendarDate, u64>,
    at: nat,
    count: nat,
)
    requires
        at <= count,
        !(progress(columns, rows, rates, at) is Running),
    ensures
        progress(columns, rows, rates, count) == progress(columns, rows, rates, at),
    decreases count,
{
    if at < count {
        lemma_stopped_stays(columns, rows, rates, at, (count - 1) as nat);
    }
}

/// A run that has come through `count` rows had come through every
/// smaller number of them.
pub proof fn lemma_earlier_rows_ran(
    columns: (usize, usize, usize, usize),
    rows: Seq<Seq<CellView>>,
    rates: Map<CalendarDate, u64>,
    at: nat,
    count: nat,
)
    requires
        at <= count,
        progress(columns, rows, rates, count) is Running,
    ensures
        progress(columns, rows, rates, at) is Running,
{
    if !(progress(columns, rows, rates, at) is Running) {
        lemma_stopped_stays(columns, rows, rates, at, count);
    }
}

/// While a run goes on, its sales are all of one year, the fiscal year,
/// which is fixed as soon as there is a sale; and each of its transactions
/// is well formed.
pub proof fn lemma_sales_are_of_one_year(
    columns: (usize, usize, usize, usize),
    rows: Seq<Seq<CellView>>,
    rates: Map<CalendarDate, u64>,
    count: nat,
)
    ensures
        progress(columns, rows, rates, count) matches Progress::Running { fiscal_year, sales } ==> {
            &&& fiscal_year is None <==> sales.len() == 0
            &&& forall|i: int|
                0 <= i < sales.len() ==> (#[trigger] sales[i]).sell_date.year == fiscal_year->0
                    && sales[i].wf()
        },
    decreases count,
{
    if count > 0 {
        lemma_sales_are_of_one_year(columns, rows, rates, (count - 1) as nat);
    }
}

/// Once a run has fixed the fiscal year, it keeps it for as long as it
/// goes on.
pub proof fn lemma_fiscal_year_is_kept(
    columns: (usize, usize, usize, usize),
    rows: Seq<Seq<CellView>>,
    rates: Map<CalendarDate, u64>,
    at: nat,
    count: nat,
)
    requires
        at <= count,
        progress(columns, rows, rates, at) is Running,
        progress(columns, rows, rates, at)->Running_fiscal_year is Some,
        progress(columns, rows, rates, count) is Running,
    ensures
        progress(columns, rows, rates, count)->Running_fiscal_year == progress(
            columns,
            rows,
            rates,
            at,
        )->Running_fiscal_year,
    decreases count,
{
    if at < count {
        lemma_earlier_rows_ran(columns, rows, rates, (count - 1) as nat, count);
        lemma_fiscal_year_is_kept(columns, rows, rates, at, (count - 1) as nat);
    }
}

/// A run that reaches a sale of another year than the fiscal year is given
/// up there as a violation of the single fiscal year, whatever rows follow.
pub proof fn lemma_other_year_is_a_violation(
    headers: Seq<Seq<char>>,
    rows: Seq<Seq<CellView>>,
    rates: Map<CalendarDate, u64>,
    at: nat,
)
    requires
        column_indices(headers) is Ok,
        at < rows.len() <= usize::MAX,
        progress(column_indices(headers)->Ok_0, rows, rates, at) is Running,
        progress(column_indices(headers)->Ok_0, rows, rates, at)->Running_fiscal_year is Some,
        is_sale(column_indices(headers)->Ok_0, rows[at as int]),
        sale_date(column_indices(headers)->Ok_0, rows[at as int]) is Some,
        sale_date(column_indices(headers)->Ok_0, rows[at as int])->0.year != progress(
            column_indices(headers)->Ok_0,
            rows,
            rates,
            at,
        )->Running_fiscal_year->0,
    ensures
        ingestion(headers, rows, rates) == IngestionView::Failed(
            Error::CrossYearViolation {
                row: at as usize,
                fiscal_year: progress(
                    column_indices(headers)->Ok_0,
                    rows,
                    rates,
                    at,
                )->Running_fiscal_year->0,
                year: sale_date(column_indices(headers)->Ok_0, rows[at as int])->0.year,
            },
        ),
{
    let columns = column_indices(headers)->Ok_0;
    assert(progress(columns, rows, rates, at + 1) is Failed);
    lemma_stopped_stays(columns, rows, rates, at + 1, rows.len());
}

/// A sheet with two sales of different years gives no list of
/// transactions, whatever rates are known.
pub proof fn lemma_two_years_give_no_transactions(
    headers: Seq<Seq<char>>,
    rows: Seq<Seq<CellView>>,
    rates: Map<CalendarDate, u64>,
    first: nat,
    second: nat,
)
    requires
        column_indices(headers) is Ok,
        first < second < rows.len(),
        is_sale(column_indices(headers)->Ok_0, rows[first as int]),
        is_sale(column_indices(headers)->Ok_0, rows[second as int]),
        sale_date(column_indices(headers)->Ok_0, rows[first as int]) is Some,
        sale_date(column_indices(headers)->Ok_0, rows[second as int]) is Some,
        sale_date(column_indices(headers)->Ok_0, rows[first as int])->0.year != sale_date(
            column_indices(headers)->Ok_0,
            rows[second as int],
        )->0.year,
    ensures
        !(ingestion(headers, rows, rates) is Complete),
{
    let columns = column_indices(headers)->Ok_0;
    if progress(columns, rows, rates, rows.len()) is Running {
        lemma_earlier_rows_ran(columns, rows, rates, first, rows.len());
        lemma_earlier_rows_ran(columns, rows, rates, first + 1, rows.len());
        lemma_earlier_rows_ran(columns, rows, rates, second, rows.len());
        lemma_earlier_rows_ran(columns, rows, rates, second + 1, rows.len());
        assert(progress(columns, rows, rates, first + 1)->Running_fiscal_year == Some(
            sale_date(columns, rows[first as int])->0.year,
        ));
        lemma_fiscal_year_is_kept(columns, rows, rates, first + 1, second);
        assert(progress(columns, rows, rates, second + 1) is Failed);
    }
}

/// A run asks for the rate of a day only where that rate is not known.
pub proof fn lemma_only_unknown_rates_are_asked(
    columns: (usize, usize, usize, usize),
    rows: Seq<Seq<CellView>>,
    rates: Map<CalendarDate, u64>,
    count: nat,
)
    ensures
        progress(columns, rows, rates, count) matches Progress::NeedsRate(date)
            ==> !rates.contains_key(date),
    decreases count,
{
    if count > 0 {
        lemma_only_unknown_rates_are_asked(columns, rows, rates, (count - 1) as nat);
    }
}

/// The cell at place `index` of `row`, if the row reaches that far.
fn cell_in(row: &Vec<Cell>, index: usize) -> (r: Option<&Cell>)
    ensures
        match r {
            Some(cell) => cell@ == cell_at(row.deep_view(), index as int) && index < row.len(),
            None => cell_at(row.deep_view(), index as int) == CellView::Empty && index
                >= row.len(),
        },
{
    if index < row.len() {
        assert(row.deep_view()[index as int] == row@[index as int]@);
        Some(&row[index])
    } else {
        None
    }
}

/// The amount in the cell at place `index` of `row`.
fn amount_in(row: &Vec<Cell>, index: usize) -> (r: Option<i64>)
    ensures
        r == cell_at(row.deep_view(), index as int).amount(),
{
    match cell_in(row, index) {
        Some(cell) => cell.as_amount(),
        None => None,
    }
}

/// Decides whether `row` is a completed sale.
pub fn is_sale_row(columns: (usize, usize, usize, usize), row: &Vec<Cell>) -> (r: bool)
    ensures
        r == is_sale(columns, row.deep_view()),
{
    match cell_in(row, columns.2) {
        Some(cell) => cell.holds_text("Sell"),
        None => false,
    }
}

/// Reads the day of the sale in `row`.
pub fn sale_date_of_row(columns: (usize, usize, usize, usize), row: &Vec<Cell>) -> (r: Option<
    CalendarDate,
>)
    ensures
        r == sale_date(columns, row.deep_view()),
{
    match cell_in(row, columns.0) {
        Some(Cell::Text(text)) => CalendarDate::parse(text.as_str()),
        _ => None,
    }
}

/// Works out what the sale in data row `index` comes to, where `date` is
/// the day read from it and `fiscal_year` the year of the sales before it.
/// The rate is taken from `exr_cache`; where it has none for the day, the
/// day is handed back.
pub fn sale_of_row(
    columns: (usize, usize, usize, usize),
    row: &Vec<Cell>,
    index: usize,
    date: Option<CalendarDate>,
    fiscal_year: Option<i32>,
    exr_cache: &ExchangeRateCache,
) -> (r: RowStep)
    ensures
        r@ == sale_outcome(columns, row.deep_view(), index, date, fiscal_year, exr_cache@),
        !(r is Skipped),
{
    let date = match date {
        Some(date) => date,
        None => {
            return RowStep::Failed(Error::MalformedField { row: index, column: Column::DateSold });
        },
    };
    match fiscal_year {
        Some(year) => if year != date.year {
            return RowStep::Failed(
                Error::CrossYearViolation { row: index, fiscal_year: year, year: date.year },
            );
        },
        None => {},
    }
    let proceeds = match amount_in(row, columns.3) {
        Some(proceeds) => proceeds,
        None => {
            return RowStep::Failed(
                Error::MalformedField { row: index, column: Column::TotalProceeds },
            );
        },
    };
    if proceeds < 0 {
        return RowStep::Failed(Error::MalformedField { row: index, column: Column::TotalProceeds });
    }
    let gain_loss = match amount_in(row, columns.1) {
        Some(gain_loss) => gain_loss,
        None => {
            return RowStep::Failed(Error::MalformedField { row: index, column: Column::GainLoss });
        },
    };
    let exr = match exr_cache.get_exr(date) {
        Some(exr) => exr,
        None => {
            return RowStep::NeedsRate(date);
        },
    };
    if to_eur(proceeds as u64, exr).is_none() {
        return RowStep::Failed(Error::MalformedField { row: index, column: Column::TotalProceeds });
    }
    match Transaction::new(date, gain_loss, proceeds, exr) {
        Some(t) => RowStep::Sale(t),
        None => RowStep::Failed(Error::MalformedField { row: index, column: Column::GainLoss }),
    }
}

/// Works out what data row `index` comes to.
pub fn process_row(
    columns: (usize, usize, usize, usize),
    row: &Vec<Cell>,
    index: usize,
    fiscal_year: Option<i32>,
    exr_cache: &ExchangeRateCache,
) -> (r: RowStep)
    ensures
        r@ == row_outcome(columns, row.deep_view(), index, fiscal_year, exr_cache@),
{
    if is_sale_row(columns, row) {
        let date = sale_date_of_row(columns, row);
        sale_of_row(columns, row, index, date, fiscal_year, exr_cache)
    } else {
        RowStep::Skipped
    }
}

/// Turns the rows of a sheet into transactions, as far as the rates in
/// `exr_cache` reach.
///
/// `headers` is the header row and `rows` are the data rows below it. The
/// four columns are found by name; rows that are no completed sale are
/// passed over; each sale becomes one transaction, in the order of the rows.
/// The run is given up at the first row that cannot be read, and it stops at
/// the first sale whose day has no rate in the cache: the caller resolves
/// that rate and runs again.
pub fn get_transactions(
    headers: Vec<String>,
    rows: &Vec<Vec<Cell>>,
    exr_cache: &ExchangeRateCache,
) -> (r: Ingestion)
    ensures
        r@ == ingestion(headers.deep_view(), rows.deep_view(), exr_cache@),
        r matches Ingestion::NeedsRate(date) ==> !exr_cache@.contains_key(date),
        r matches Ingestion::Complete(transactions) ==> forall|i: int, j: int|
            0 <= i < transactions.len() && 0 <= j < transactions.len()
                ==> (#[trigger] transactions[i])@.sell_date.year == (
            #[trigger] transactions[j])@.sell_date.year,
{
    let ghost names = headers.deep_view();
    let ghost table = rows.deep_view();
    let columns = match get_column_indices(headers) {
        Ok(columns) => columns,
        Err(error) => {
            return Ingestion::Failed(error);
        },
    };
    let mut transactions: Vec<Transaction> = Vec::new();
    let mut fiscal_year: Option<i32> = None;
    let mut index: usize = 0;
    assert(views(transactions@) =~= Seq::<TransactionView>::empty());
    while index < rows.len()
        invariant
            index <= rows.len(),
            table == rows.deep_view(),
            names == headers.deep_view(),
            column_indices(names) == Ok::<_, Error>(columns),
            progress(columns, table, exr_cache@, index as nat) == (Progress::Running {
                fiscal_year,
                sales: views(transactions@),
            }),
        decreases rows.len() - index,
    {
        assert(table[index as int] == rows@[index as int].deep_view());
        let step = process_row(columns, &rows[index], index, fiscal_year, exr_cache);
        proof {
            lemma_only_unknown_rates_are_asked(columns, table, exr_cache@, (index + 1) as nat);
            if !(step is Skipped || step is Sale) {
                lemma_stopped_stays(
                    columns,
                    table,
                    exr_cache@,
                    (index + 1) as nat,
                    rows.len() as nat,
                );
            }
        }
        match step {
            RowStep::Skipped => {},
            RowStep::Sale(t) => {
                assert(views(transactions@).push(t@) =~= views(transactions@.push(t)));
                fiscal_year = Some(t.sell_date().year);
                transactions.push(t);
            },
            RowStep::NeedsRate(date) => {
                return Ingestion::NeedsRate(date);
            },
            RowStep::Failed(error) => {
                return Ingestion::Failed(error);
            },
        }
        index += 1;
    }
    proof {
        lemma_sales_are_of_one_year(columns, table, exr_cache@, index as nat);
        assert forall|i: int, j: int|
            0 <= i < transactions.len() && 0 <= j < transactions.len() implies (
        #[trigger] transactions[i])@.sell_date.year == (#[trigger] transactions[j])@.sell_date.year by {
            assert(views(transactions@)[i] == transactions[i]@);
            assert(views(transactions@)[j] == transactions[j]@);
        }
    }
    Ingestion::Complete(transactions)
}

} // verus!
