use crate::error::{lemma_headers_differ, Column, Error};
use crate::text::{chars_equal, trimmed, trimmed_chars};
use vstd::prelude::*;

verus! {

/// The last place in `headers` whose name, without the white space around
/// it, is `name`; `None` where there is no such place.
pub open spec fn last_position(headers: Seq<Seq<char>>, name: Seq<char>) -> Option<usize>
    decreases headers.len(),
{
    if headers.len() == 0 {
        None
    } else if trimmed(headers.last()) == name {
        Some((headers.len() - 1) as usize)
    } else {
        last_position(headers.drop_last(), name)
    }
}

/// The places of the four columns in `headers`: the day of the sale, the
/// gain or loss, the kind of record, the proceeds. Where several are
/// missing, the error names the first of them in that order.
pub open spec fn column_indices(headers: Seq<Seq<char>>) -> Result<
    (usize, usize, usize, usize),
    Error,
> {
    match last_position(headers, Column::DateSold.header()) {
        None => Err(Error::MissingColumn(Column::DateSold)),
        Some(date) => match last_position(headers, Column::GainLoss.header()) {
            None => Err(Error::MissingColumn(Column::GainLoss)),
            Some(gain_loss) => match last_position(headers, Column::RecordType.header()) {
                None => Err(Error::MissingColumn(Column::RecordType)),
                Some(record_type) => match last_position(headers, Column::TotalProceeds.header()) {
                    None => Err(Error::MissingColumn(Column::TotalProceeds)),
                    Some(total_proceeds) => Ok((date, gain_loss, record_type, total_proceeds)),
                },
            },
        },
    }
}

/// A place that `last_position` gives lies in `headers` and holds `name`,
/// and no later place does.
pub proof fn lemma_last_position(headers: Seq<Seq<char>>, name: Seq<char>)
    requires
        headers.len() <= usize::MAX,
    ensures
        match last_position(headers, name) {
            Some(i) => {
                &&& i < headers.len()
                &&& trimmed(headers[i as int]) == name
                &&& forall|j: int| i < j < headers.len() ==> trimmed(#[trigger] headers[j]) != name
            },
            None => forall|j: int| 0 <= j < headers.len() ==> trimmed(#[trigger] headers[j]) != name,
        },
    decreases headers.len(),
{
    if headers.len() > 0 && trimmed(headers.last()) != name {
        let rest = headers.drop_last();
        lemma_last_position(rest, name);
        assert forall|j: int| 0 <= j < rest.len() implies rest[j] == #[trigger] headers[j] by {}
    }
}

/// Finds the four columns of a sheet of sales by the names in its header
/// row, white space around a name set aside. Where a name stands more than
/// once, its last place counts.
pub fn get_column_indices(headers: Vec<String>) -> (r: Result<(usize, usize, usize, usize), Error>)
    ensures
        r == column_indices(headers.deep_view()),
        r matches Ok(c) ==> c.0 < headers.len() && c.1 < headers.len() && c.2 < headers.len() && c.3
            < headers.len(),
{
    let ghost names = headers.deep_view();
    let mut date_index: Option<usize> = None;
    let mut gain_loss_index: Option<usize> = None;
    let mut record_type_index: Option<usize> = None;
    let mut total_proceeds_index: Option<usize> = None;
    let mut pos: usize = 0;
    while pos < headers.len()
        invariant
            pos <= headers.len(),
            names == headers.deep_view(),
            date_index == last_position(names.take(pos as int), Column::DateSold.header()),
            gain_loss_index == last_position(names.take(pos as int), Column::GainLoss.header()),
            record_type_index == last_position(
                names.take(pos as int),
                Column::RecordType.header(),
            ),
            total_proceeds_index == last_position(
                names.take(pos as int),
                Column::TotalProceeds.header(),
            ),
        decreases headers.len() - pos,
    {
        let name = trimmed_chars(headers[pos].as_str());
        proof {
            let next = names.take(pos as int + 1);
            assert(next.drop_last() =~= names.take(pos as int));
            assert(next.last() == headers@[pos as int]@);
            lemma_headers_differ(Column::DateSold, Column::GainLoss);
            lemma_headers_differ(Column::DateSold, Column::RecordType);
            lemma_headers_differ(Column::DateSold, Column::TotalProceeds);
            lemma_headers_differ(Column::GainLoss, Column::RecordType);
            lemma_headers_differ(Column::GainLoss, Column::TotalProceeds);
            lemma_headers_differ(Column::RecordType, Column::TotalProceeds);
        }
        if chars_equal(&name, Column::DateSold.header_text()) {
            date_index = Some(pos);
        } else if chars_equal(&name, Column::GainLoss.header_text()) {
            gain_loss_index = Some(pos);
        } else if chars_equal(&name, Column::RecordType.header_text()) {
            record_type_index = Some(pos);
        } else if chars_equal(&name, Column::TotalProceeds.header_text()) {
            total_proceeds_index = Some(pos);
        }
        pos += 1;
    }
    proof {
        assert(names.take(pos as int) =~= names);
        lemma_last_position(names, Column::DateSold.header());
        lemma_last_position(names, Column::GainLoss.header());
        lemma_last_position(names, Column::RecordType.header());
        lemma_last_position(names, Column::TotalProceeds.header());
    }
    match date_index {
        None => Err(Error::MissingColumn(Column::DateSold)),
        Some(date) => match gain_loss_index {
            None => Err(Error::MissingColumn(Column::GainLoss)),
            Some(gain_loss) => match record_type_index {
                None => Err(Error::MissingColumn(Column::RecordType)),
                Some(record_type) => match total_proceeds_index {
                    None => Err(Error::MissingColumn(Column::TotalProceeds)),
                    Some(total_proceeds) => Ok((date, gain_loss, record_type, total_proceeds)),
                },
            },
        },
    }
}

} // verus!
