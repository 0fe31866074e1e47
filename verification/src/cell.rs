use crate::decimal::{
    as_i64, integer_text, integer_to_text, parse_signed_decimal, signed_decimal_value, SCALE,
};
use crate::text::same_text;
use vstd::prelude::*;

verus! {

/// One cell of a sheet: nothing, a text, or a number in millionths.
#[derive(Debug)]
pub enum Cell {
    /// A cell that holds nothing the library reads.
    Empty,
    /// A cell that holds a text.
    Text(String),
    /// A cell that holds a number, in millionths.
    Number(i64),
}

/// What a cell says.
pub enum CellView {
    Empty,
    Text(Seq<char>),
    Number(i64),
}

impl View for Cell {
    type V = CellView;

    open spec fn view(&self) -> CellView {
        match self {
            Cell::Empty => CellView::Empty,
            Cell::Text(text) => CellView::Text(text@),
            Cell::Number(number) => CellView::Number(*number),
        }
    }
}

impl DeepView for Cell {
    type V = CellView;

    open spec fn deep_view(&self) -> CellView {
        self.view()
    }
}

impl CellView {
    /// The amount that the cell holds, in millionths: its number, or the
    /// number that its text writes down as a decimal numeral with or without
    /// a sign. `None` where it holds neither or the number does not fit.
    pub open spec fn amount(self) -> Option<i64> {
        match self {
            CellView::Empty => None,
            CellView::Text(text) => as_i64(signed_decimal_value(text)),
            CellView::Number(number) => Some(number),
        }
    }

    /// The text that the cell holds, if it holds one.
    pub open spec fn text(self) -> Option<Seq<char>> {
        match self {
            CellView::Text(text) => Some(text),
            _ => None,
        }
    }
}

/// The cell at place `index` of `row`; an empty cell where the row ends
/// before it.
pub open spec fn cell_at(row: Seq<CellView>, index: int) -> CellView {
    if 0 <= index < row.len() {
        row[index]
    } else {
        CellView::Empty
    }
}

/// The cell of a whole number of units: the number in millionths where
/// that fits, else the numeral of the number as a text.
pub open spec fn whole_number_cell(units: i64) -> CellView {
    if i64::MIN <= units * SCALE <= i64::MAX {
        CellView::Number((units * SCALE) as i64)
    } else {
        CellView::Text(integer_text(units as int))
    }
}

impl Cell {
    /// The cell of a whole number of units.
    pub fn from_whole_number(units: i64) -> (r: Cell)
        ensures
            r@ == whole_number_cell(units),
    {
        if -9_223_372_036_854 <= units && units <= 9_223_372_036_854 {
            Cell::Number(units * 1_000_000)
        } else {
            Cell::Text(integer_to_text(units as i128))
        }
    }

    /// The amount that the cell holds, in millionths.
    pub fn as_amount(&self) -> (r: Option<i64>)
        ensures
            r == self@.amount(),
    {
        match self {
            Cell::Empty => None,
            Cell::Text(text) => parse_signed_decimal(text.as_str()),
            Cell::Number(number) => Some(*number),
        }
    }

    /// Whether the cell holds exactly the text `marker`.
    pub fn holds_text(&self, marker: &str) -> (r: bool)
        ensures
            r == (self@ == CellView::Text(marker@)),
    {
        match self {
            Cell::Text(text) => same_text(text.as_str(), marker),
            _ => false,
        }
    }
}

} // verus!
