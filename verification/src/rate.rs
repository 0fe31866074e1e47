use crate::date::{formatted_date, iso_date_format, lemma_key_is_injective, CalendarDate};
use crate::decimal::{as_i64, parse_signed_decimal, signed_decimal_value};
use crate::error::{Error, RateFailure};
use crate::text::{trimmed, trimmed_equals};
use std::collections::HashMap;
use vstd::prelude::*;
use vstd::string::*;

verus! {

broadcast use vstd::std_specs::hash::group_hash_axioms;

/// The header row that the `csv` crate reads from `body`, field by field,
/// or nothing where it reports an error.
pub uninterp spec fn csv_header_row(body: Seq<u8>) -> Option<Seq<Seq<char>>>;

/// The first record after the header row that the `csv` crate reads from
/// `body`, field by field, or nothing where there is none or it reports an
/// error.
pub uninterp spec fn csv_first_record(body: Seq<u8>) -> Option<Seq<Seq<char>>>;

/// Calls `csv::Reader::headers` on a reader over `body`, made by
/// `csv::Reader::from_reader`, and copies the fields out. Nothing is claimed
/// of the row but that it depends on the bytes alone.
#[verifier::external_body]
fn read_csv_header_row(body: &[u8]) -> (r: Option<Vec<String>>)
    ensures
        r.deep_view() == csv_header_row(body@),
{
    let mut reader = csv::Reader::from_reader(body);
    let row = reader.headers().ok()?;
    Some(row.iter().map(String::from).collect())
}

/// Takes the first item of `csv::Reader::records` on a reader over `body`,
/// made by `csv::Reader::from_reader`, and copies the fields out. Nothing is
/// claimed of the record but that it depends on the bytes alone.
#[verifier::external_body]
fn read_csv_first_record(body: &[u8]) -> (r: Option<Vec<String>>)
    ensures
        r.deep_view() == csv_first_record(body@),
{
    let mut reader = csv::Reader::from_reader(body);
    let row = reader.records().next()?.ok()?;
    Some(row.iter().map(String::from).collect())
}

/// The name of the column that holds the rate in a response.
pub open spec fn observed_value_header() -> Seq<char> {
    "OBS_VALUE"@
}

/// The first place at or after `from` in `headers` whose name, without the
/// white space around it, is `name`.
pub open spec fn first_position_from(headers: Seq<Seq<char>>, name: Seq<char>, from: int) -> Option<
    usize,
>
    decreases headers.len() - from,
{
    if from < 0 || from >= headers.len() {
        None
    } else if trimmed(headers[from]) == name {
        Some(from as usize)
    } else {
        first_position_from(headers, name, from + 1)
    }
}

/// The first place in `headers` whose name, without the white space around
/// it, is `name`.
pub open spec fn first_position(headers: Seq<Seq<char>>, name: Seq<char>) -> Option<usize> {
    first_position_from(headers, name, 0)
}

/// The rate that `text` writes down, in millionths: a decimal numeral
/// above zero.
pub open spec fn rate_of_text(text: Seq<char>) -> Result<u64, RateFailure> {
    match as_i64(signed_decimal_value(text)) {
        None => Err(RateFailure::NotANumber),
        Some(value) => if value <= 0 {
            Err(RateFailure::NotPositive)
        } else {
            Ok(value as u64)
        },
    }
}

/// The rate in a response of which `headers` is the header row and
/// `record` the first data row: the field of `record` in the first column
/// named for the observed value.
pub open spec fn rate_of_table(
    headers: Option<Seq<Seq<char>>>,
    record: Option<Seq<Seq<char>>>,
) -> Result<u64, RateFailure> {
    match headers {
        None => Err(RateFailure::Unreadable),
        Some(names) => match first_position(names, observed_value_header()) {
            None => Err(RateFailure::MissingColumn),
            Some(index) => match record {
                None => Err(RateFailure::MissingRow),
                Some(fields) => if index >= fields.len() {
                    Err(RateFailure::MissingRow)
                } else {
                    rate_of_text(fields[index as int])
                },
            },
        },
    }
}

/// The rate in the response `body` of the rate service.
pub open spec fn rate_of_response(body: Seq<u8>) -> Result<u64, RateFailure> {
    rate_of_table(csv_header_row(body), csv_first_record(body))
}

/// Reads a rate from the text of a field.
pub fn rate_from_text(text: &str) -> (r: Result<u64, RateFailure>)
    ensures
        r == rate_of_text(text@),
        r matches Ok(rate) ==> rate > 0,
{
    match parse_signed_decimal(text) {
        None => Err(RateFailure::NotANumber),
        Some(value) => if value <= 0 {
            Err(RateFailure::NotPositive)
        } else {
            Ok(value as u64)
        },
    }
}

/// Finds the first column of `headers` with the name `name`, white space
/// around a name set aside.
pub fn find_first_position(headers: &Vec<String>, name: &str) -> (r: Option<usize>)
    ensures
        r == first_position(headers.deep_view(), name@),
        r matches Some(index) ==> index < headers.len(),
{
    let ghost names = headers.deep_view();
    let mut index: usize = 0;
    while index < headers.len()
        invariant
            index <= headers.len(),
            names == headers.deep_view(),
            first_position(names, name@) == first_position_from(names, name@, index as int),
        decreases headers.len() - index,
    {
        assert(names[index as int] == headers@[index as int]@);
        if trimmed_equals(headers[index].as_str(), name) {
            return Some(index);
        }
        index += 1;
    }
    None
}

/// Reads the rate from the header row and the first data row of a
/// response, as far as they could be read.
pub fn rate_from_table(headers: Option<Vec<String>>, record: Option<Vec<String>>) -> (r: Result<
    u64,
    RateFailure,
>)
    ensures
        r == rate_of_table(headers.deep_view(), record.deep_view()),
        r matches Ok(rate) ==> rate > 0,
{
    match headers {
        None => Err(RateFailure::Unreadable),
        Some(names) => match find_first_position(&names, "OBS_VALUE") {
            None => Err(RateFailure::MissingColumn),
            Some(index) => match record {
                None => Err(RateFailure::MissingRow),
                Some(fields) => if index >= fields.len() {
                    Err(RateFailure::MissingRow)
                } else {
                    assert(fields.deep_view()[index as int] == fields@[index as int]@);
                    rate_from_text(fields[index].as_str())
                },
            },
        },
    }
}

/// Reads the rate from a response of the rate service.
pub fn rate_from_response(body: &[u8]) -> (r: Result<u64, RateFailure>)
    ensures
        r == rate_of_response(body@),
        r matches Ok(rate) ==> rate > 0,
{
    let headers = read_csv_header_row(body);
    let record = read_csv_first_record(body);
    rate_from_table(headers, record)
}

/// The address to ask for the rate of the day that `day` writes down.
pub open spec fn query_text(day: Seq<char>) -> Seq<char> {
    "https://data-api.ecb.europa.eu/service/data/EXR/D.USD.EUR.SP00.A?detail=dataonly&startPeriod="@
        + day + "&endPeriod="@ + day + "&format=csvdata"@
}

/// The address to ask for the rate of `date`, where the date can be
/// written down.
pub open spec fn rate_query(date: CalendarDate) -> Option<Seq<char>> {
    match formatted_date(iso_date_format(), date.year, date.month, date.day) {
        Some(day) => Some(query_text(day)),
        None => None,
    }
}

/// The address to ask for the rate of the day that `day` writes down.
pub fn query_url_for(day: &str) -> (r: String)
    ensures
        r@ == query_text(day@),
{
    let mut url = String::from_str(
        "https://data-api.ecb.europa.eu/service/data/EXR/D.USD.EUR.SP00.A?detail=dataonly&startPeriod=",
    );
    url.append(day);
    url.append("&endPeriod=");
    url.append(day);
    url.append("&format=csvdata");
    url
}

/// The address to ask for the rate from USD to EUR of the single day
/// `date`. `None` where the date cannot be written down.
pub fn rate_query_url(date: &CalendarDate) -> (r: Option<String>)
    ensures
        r.deep_view() == rate_query(*date),
{
    match date.iso_text() {
        Some(day) => Some(query_url_for(day.as_str())),
        None => None,
    }
}

/// The rates that were resolved in one run, by date. A rate once stored is
/// neither replaced nor dropped.
pub struct ExchangeRateCache {
    cache: HashMap<u64, u64>,
}

impl View for ExchangeRateCache {
    type V = Map<CalendarDate, u64>;

    closed spec fn view(&self) -> Map<CalendarDate, u64> {
        Map::new(
            |date: CalendarDate| self.cache@.contains_key(date.key()),
            |date: CalendarDate| self.cache@[date.key()],
        )
    }
}

/// The rates after `rate` was handed in for `date`, and what the one who
/// handed it in is told: a date that has a rate keeps it, a rate of zero is
/// refused, and otherwise the rate is stored.
pub open spec fn stored(rates: Map<CalendarDate, u64>, date: CalendarDate, rate: u64) -> (
    Map<CalendarDate, u64>,
    Result<u64, Error>,
) {
    if rates.contains_key(date) {
        (rates, Ok(rates[date]))
    } else if rate == 0 {
        (rates, Err(Error::RateUnavailable { date, reason: RateFailure::NotPositive }))
    } else {
        (rates.insert(date, rate), Ok(rate))
    }
}

/// The rates after the outcome `outcome` of reading a response was handed
/// in for `date`, and what the one who handed it in is told.
pub open spec fn recorded(
    rates: Map<CalendarDate, u64>,
    date: CalendarDate,
    outcome: Result<u64, RateFailure>,
) -> (Map<CalendarDate, u64>, Result<u64, Error>) {
    if rates.contains_key(date) {
        (rates, Ok(rates[date]))
    } else {
        match outcome {
            Ok(rate) => stored(rates, date, rate),
            Err(reason) => (rates, Err(Error::RateUnavailable { date, reason })),
        }
    }
}

/// A date is resolved once: after a first response gave a rate, handing in
/// any second outcome for the same date returns that same rate and leaves
/// the rates as they are.
pub proof fn lemma_second_resolution_changes_nothing(
    rates: Map<CalendarDate, u64>,
    date: CalendarDate,
    first: Result<u64, RateFailure>,
    second: Result<u64, RateFailure>,
)
    requires
        recorded(rates, date, first).1 is Ok,
    ensures
        ({
            let (after, rate) = recorded(rates, date, first);
            &&& after.contains_key(date)
            &&& rate == Ok::<u64, Error>(after[date])
            &&& recorded(after, date, second) == (after, rate)
        }),
{
}

/// Handing in an outcome drops no rate and replaces none.
pub proof fn lemma_rates_are_kept(
    rates: Map<CalendarDate, u64>,
    date: CalendarDate,
    outcome: Result<u64, RateFailure>,
    other: CalendarDate,
)
    requires
        rates.contains_key(other),
    ensures
        recorded(rates, date, outcome).0.contains_key(other),
        recorded(rates, date, outcome).0[other] == rates[other],
{
}

impl ExchangeRateCache {
    #[verifier::type_invariant]
    closed spec fn rates_are_positive(self) -> bool {
        forall|key: u64| self.cache@.contains_key(key) ==> #[trigger] self.cache@[key] > 0
    }

    /// A cache that holds no rate.
    pub fn new() -> (r: Self)
        ensures
            r@ == Map::<CalendarDate, u64>::empty(),
    {
        let r = ExchangeRateCache { cache: HashMap::new() };
        assert(r@ =~= Map::<CalendarDate, u64>::empty());
        r
    }

    /// The rate stored for `date`: a hit needs no request to the rate
    /// service. `None` where the date has no rate yet.
    pub fn get_exr(&self, date: CalendarDate) -> (r: Option<u64>)
        ensures
            r == if self@.contains_key(date) {
                Some(self@[date])
            } else {
                None
            },
            r matches Some(rate) ==> rate > 0,
    {
        proof {
            use_type_invariant(self);
        }
        let key = date.to_key();
        match self.cache.get(&key) {
            Some(rate) => Some(*rate),
            None => None,
        }
    }

    /// Stores `rate` for `date`, unless the date has a rate already or the
    /// rate is zero, and returns the rate that the date then has.
    pub fn store(&mut self, date: CalendarDate, rate: u64) -> (r: Result<u64, Error>)
        ensures
            (final(self)@, r) == stored(old(self)@, date, rate),
            r matches Ok(rate) ==> rate > 0,
    {
        proof {
            use_type_invariant(&*self);
        }
        let key = date.to_key();
        match self.cache.get(&key) {
            Some(known) => {
                return Ok(*known);
            },
            None => {},
        }
        if rate == 0 {
            return Err(Error::RateUnavailable { date, reason: RateFailure::NotPositive });
        }
        let mut rates: HashMap<u64, u64> = HashMap::new();
        core::mem::swap(&mut self.cache, &mut rates);
        rates.insert(key, rate);
        core::mem::swap(&mut self.cache, &mut rates);
        proof {
            assert forall|other: CalendarDate| other != date implies other.key() != date.key() by {
                if other.key() == date.key() {
                    lemma_key_is_injective(other, date);
                }
            }
            assert(self@ =~= old(self)@.insert(date, rate));
        }
        Ok(rate)
    }

    /// Hands in what reading a response for `date` gave. A date that has a
    /// rate keeps it, whatever the outcome says.
    pub fn record(&mut self, date: CalendarDate, outcome: Result<u64, RateFailure>) -> (r: Result<
        u64,
        Error,
    >)
        ensures
            (final(self)@, r) == recorded(old(self)@, date, outcome),
            r matches Ok(rate) ==> rate > 0,
    {
        match self.get_exr(date) {
            Some(known) => Ok(known),
            None => match outcome {
                Ok(rate) => self.store(date, rate),
                Err(reason) => Err(Error::RateUnavailable { date, reason }),
            },
        }
    }

    /// Resolves the rate of `date` from the response `body` of the rate
    /// service, and stores it. A date that has a rate keeps it, and the
    /// response is not read.
    pub fn resolve(&mut self, date: CalendarDate, body: &[u8]) -> (r: Result<u64, Error>)
        ensures
            (final(self)@, r) == recorded(old(self)@, date, rate_of_response(body@)),
            r matches Ok(rate) ==> rate > 0,
    {
        match self.get_exr(date) {
            Some(known) => Ok(known),
            None => {
                let outcome = rate_from_response(body);
                self.record(date, outcome)
            },
        }
    }
}

} // verus!
