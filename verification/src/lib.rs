pub mod amount;
pub mod cell;
pub mod columns;
pub mod date;
pub mod decimal;
pub mod detail;
pub mod error;
pub mod normalize;
pub mod printout;
pub mod rate;
pub mod report;
pub mod text;
pub mod transaction;

pub use crate::amount::MAX_AMOUNT;
pub use crate::cell::Cell;
pub use crate::columns::get_column_indices;
pub use crate::date::CalendarDate;
pub use crate::decimal::SCALE;
pub use crate::detail::write_detail_as_csv;
pub use crate::error::{Column, Error, RateFailure};
pub use crate::normalize::{get_transactions, Ingestion};
pub use crate::printout::{compute_and_print_report, ReportPrintout};
pub use crate::rate::ExchangeRateCache;
pub use crate::report::{
    compute_period_report, compute_year_report, PeriodTaxReport, TaxReport, EXEMPTION_EUR,
    TAX_RATE_PERCENT,
};
pub use crate::transaction::Transaction;
