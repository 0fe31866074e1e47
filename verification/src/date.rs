use vstd::prelude::*;

verus! {

/// A day of the proleptic Gregorian calendar, held as year, month and day.
///
/// Any three numbers can be written down; `is_valid` says whether they name
/// a day that exists.
#[derive(Clone, Copy, Debug, PartialEq, Eq, Structural)]
pub struct CalendarDate {
    pub year: i32,
    pub month: u8,
    pub day: u8,
}

/// Whether `year` is a leap year.
pub open spec fn is_leap_year(year: int) -> bool {
    year % 4 == 0 && (year % 100 != 0 || year % 400 == 0)
}

/// The number of days of `month` in `year`, for a month from 1 to 12.
pub open spec fn days_in_month(year: int, month: int) -> int {
    if month == 2 {
        if is_leap_year(year) {
            29
        } else {
            28
        }
    } else if month == 4 || month == 6 || month == 9 || month == 11 {
        30
    } else {
        31
    }
}

/// What the `time` crate reads from `text` under the format description
/// `format`: year, month and day, or nothing where either is refused.
pub uninterp spec fn parsed_date(format: Seq<char>, text: Seq<char>) -> Option<(i32, u8, u8)>;

/// What the `time` crate writes for the day `year`-`month`-`day` under the
/// format description `format`, or nothing where it refuses.
pub uninterp spec fn formatted_date(format: Seq<char>, year: i32, month: u8, day: u8) -> Option<
    Seq<char>,
>;

/// Calls `time::Date::parse` with the description that
/// `time::format_description::parse_borrowed` makes of `format`, and hands
/// out the year, month and day of the date read. Nothing is claimed of the
/// result but that it depends on the two strings alone.
#[verifier::external_body]
fn parse_with_format(text: &str, format: &str) -> (r: Option<(i32, u8, u8)>)
    ensures
        r == parsed_date(format@, text@),
{
    let items = time::format_description::parse_borrowed::<1>(format).ok()?;
    let date = time::Date::parse(text, &items).ok()?;
    Some((date.year(), u8::from(date.month()), date.day()))
}

/// Calls `time::Date::format` on the date that `time::Date::from_calendar_date`
/// makes of the three numbers, with the description that
/// `time::format_description::parse_borrowed` makes of `format`. Nothing is
/// claimed of the text but that it depends on the arguments alone.
#[verifier::external_body]
fn format_with_format(date: CalendarDate, format: &str) -> (r: Option<String>)
    ensures
        match r {
            Some(text) => formatted_date(format@, date.year, date.month, date.day) == Some(text@),
            None => formatted_date(format@, date.year, date.month, date.day) is None,
        },
{
    let items = time::format_description::parse_borrowed::<1>(format).ok()?;
    let month = time::Month::try_from(date.month).ok()?;
    let day = time::Date::from_calendar_date(date.year, month, date.day).ok()?;
    day.format(&items).ok()
}

/// The format description of a sale date in a sheet: month, day, year.
pub open spec fn sheet_date_format() -> Seq<char> {
    "[month]/[day]/[year]"@
}

/// The format description of a date in a rate query and in the detail
/// table: year, month, day.
pub open spec fn iso_date_format() -> Seq<char> {
    "[year]-[month]-[day]"@
}

/// The date that three numbers name, if there is such a day.
pub open spec fn date_of_parts(parts: Option<(i32, u8, u8)>) -> Option<CalendarDate> {
    match parts {
        Some((year, month, day)) => {
            let date = CalendarDate { year, month, day };
            if date.is_valid() {
                Some(date)
            } else {
                None
            }
        },
        None => None,
    }
}

/// The sale date that `text` holds, if it holds one.
pub open spec fn sheet_date(text: Seq<char>) -> Option<CalendarDate> {
    date_of_parts(parsed_date(sheet_date_format(), text))
}

/// Turns what was read from a text into a date, refusing numbers that name
/// no day.
pub fn date_from_parts(parts: Option<(i32, u8, u8)>) -> (r: Option<CalendarDate>)
    ensures
        r == date_of_parts(parts),
{
    match parts {
        Some((year, month, day)) => CalendarDate::from_calendar_date(year, month, day),
        None => None,
    }
}

impl CalendarDate {
    /// Whether the three numbers name a day that exists.
    pub open spec fn is_valid(self) -> bool {
        &&& 1 <= self.month <= 12
        &&& 1 <= self.day <= days_in_month(self.year as int, self.month as int)
    }

    /// Whether `self` is `other` or an earlier day.
    pub open spec fn is_on_or_before(self, other: CalendarDate) -> bool {
        ||| self.year < other.year
        ||| self.year == other.year && self.month < other.month
        ||| self.year == other.year && self.month == other.month && self.day <= other.day
    }

    /// Whether `self` lies in the interval from `start` to `end`, both
    /// bounds included.
    pub open spec fn is_within(self, start: CalendarDate, end: CalendarDate) -> bool {
        start.is_on_or_before(self) && self.is_on_or_before(end)
    }

    /// A number that stands for the date: two dates have the same one only
    /// if they are the same.
    pub open spec fn key(self) -> u64 {
        ((self.year + 0x8000_0000) * 0x1_0000 + self.month * 0x100 + self.day) as u64
    }

    /// The date of the given year, month and day, or `None` where there is
    /// no such day.
    pub fn from_calendar_date(year: i32, month: u8, day: u8) -> (r: Option<CalendarDate>)
        ensures
            r == date_of_parts(Some((year, month, day))),
    {
        let date = CalendarDate { year, month, day };
        if date.valid() {
            Some(date)
        } else {
            None
        }
    }

    /// Decides whether the three numbers name a day that exists.
    pub fn valid(&self) -> (r: bool)
        ensures
            r == self.is_valid(),
    {
        if self.month < 1 || self.month > 12 || self.day < 1 {
            return false;
        }
        let leap = self.year % 4 == 0 && (self.year % 100 != 0 || self.year % 400 == 0);
        let days: u8 = if self.month == 2 {
            if leap {
                29
            } else {
                28
            }
        } else if self.month == 4 || self.month == 6 || self.month == 9 || self.month == 11 {
            30
        } else {
            31
        };
        self.day <= days
    }

    /// Decides whether `self` is `other` or an earlier day.
    pub fn on_or_before(&self, other: &CalendarDate) -> (r: bool)
        ensures
            r == self.is_on_or_before(*other),
    {
        self.year < other.year || (self.year == other.year && (self.month < other.month || (
        self.month == other.month && self.day <= other.day)))
    }

    /// Decides whether `self` lies in the interval from `start` to `end`,
    /// both bounds included.
    pub fn within(&self, start: &CalendarDate, end: &CalendarDate) -> (r: bool)
        ensures
            r == self.is_within(*start, *end),
    {
        start.on_or_before(self) && self.on_or_before(end)
    }

    /// The number that stands for the date in a table of rates.
    pub fn to_key(&self) -> (k: u64)
        ensures
            k == self.key(),
    {
        let shifted: i64 = self.year as i64 + 0x8000_0000;
        (shifted as u64) * 0x1_0000 + (self.month as u64) * 0x100 + (self.day as u64)
    }

    /// Reads a sale date written as month, day and year with `/` between
    /// them. `None` where the text is no such date.
    pub fn parse(text: &str) -> (r: Option<CalendarDate>)
        ensures
            r == sheet_date(text@),
    {
        date_from_parts(parse_with_format(text, "[month]/[day]/[year]"))
    }

    /// The date written as year, month and day with `-` between them.
    /// `None` where the date cannot be written so.
    pub fn iso_text(&self) -> (r: Option<String>)
        ensures
            match r {
                Some(text) => formatted_date(iso_date_format(), self.year, self.month, self.day)
                    == Some(text@),
                None => formatted_date(iso_date_format(), self.year, self.month, self.day) is None,
            },
    {
        format_with_format(*self, "[year]-[month]-[day]")
    }
}

/// Two dates with the same key are the same date.
pub proof fn lemma_key_is_injective(a: CalendarDate, b: CalendarDate)
    requires
        a.key() == b.key(),
    ensures
        a == b,
{
}

} // verus!
