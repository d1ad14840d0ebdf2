//! The report accumulator: the exact text of the destination file, started
//! with a dated header and grown by appending one fragment per fetched
//! issue, in fetch order.
use crate::render::fragment_text;
use crate::render::ReportFragment;
use vstd::prelude::*;
use vstd::string::*;

verus! {

/// One decimal digit as a character.
pub open spec fn digit_char(n: int) -> char {
    if n == 0 {
        '0'
    } else if n == 1 {
        '1'
    } else if n == 2 {
        '2'
    } else if n == 3 {
        '3'
    } else if n == 4 {
        '4'
    } else if n == 5 {
        '5'
    } else if n == 6 {
        '6'
    } else if n == 7 {
        '7'
    } else if n == 8 {
        '8'
    } else {
        '9'
    }
}

/// A leap year of the proleptic Gregorian calendar.
pub open spec fn is_leap_year(year: int) -> bool {
    (year % 4 == 0 && year % 100 != 0) || year % 400 == 0
}

/// The number of days in a month.
pub open spec fn days_in_month(year: int, month: int) -> int {
    if month == 2 {
        if is_leap_year(year) {
            29
        } else {
            28
        }
    } else if month == 4 || month == 6 || month == 9 || month == 11 {
        30
    } else {
        31
    }
}

/// A calendar date that the header can carry: a real day of a year the
/// four-digit label can write.
pub open spec fn valid_date(year: int, month: int, day: int) -> bool {
    1 <= year <= 9999 && 1 <= month <= 12 && 1 <= day <= days_in_month(year, month)
}

/// Checks the calendar validity that `RunState::start` and
/// `Report::initialize` require.
pub fn is_valid_date(year: u16, month: u8, day: u8) -> (r: bool)
    ensures
        r == valid_date(year as int, month as int, day as int),
{
    if year < 1 || year > 9999 || month < 1 || month > 12 || day < 1 {
        return false;
    }
    let limit: u8 = if month == 2 {
        if (year % 4 == 0 && year % 100 != 0) || year % 400 == 0 {
            29
        } else {
            28
        }
    } else if month == 4 || month == 6 || month == 9 || month == 11 {
        30
    } else {
        31
    };
    day <= limit
}

/// The zero-padded `year-month-day` label, as a strftime `%Y-%m-%d` writes
/// it for four-digit years.
pub open spec fn date_label_chars(year: int, month: int, day: int) -> Seq<char> {
    seq![
        digit_char(year / 1000 % 10),
        digit_char(year / 100 % 10),
        digit_char(year / 10 % 10),
        digit_char(year % 10),
        '-',
        digit_char(month / 10 % 10),
        digit_char(month % 10),
        '-',
        digit_char(day / 10 % 10),
        digit_char(day % 10),
    ]
}

/// Relies on chrono's `NaiveDate::from_ymd_opt`, which returns a date for
/// every valid calendar date, and on its `format("%Y-%m-%d")`, which writes
/// the zero-padded year, month and day separated by dashes.
#[verifier::external_body]
fn format_date(year: u16, month: u8, day: u8) -> (r: String)
    requires
        valid_date(year as int, month as int, day as int),
    ensures
        r@ == date_label_chars(year as int, month as int, day as int),
{
    let d = chrono::NaiveDate::from_ymd_opt(year as i32, month as u32, day as u32).unwrap();
    d.format("%Y-%m-%d").to_string()
}

/// The header that initialization writes: a single dated title line,
/// followed by two blank lines.
pub open spec fn header_text(year: int, month: int, day: int) -> Seq<char> {
    "# ["@ + date_label_chars(year, month, day) + "] WRIG ET Bi-Weekly Status Report\n\n\n"@
}

/// Builds the dated header.
pub fn header_line(year: u16, month: u8, day: u8) -> (r: String)
    requires
        valid_date(year as int, month as int, day as int),
    ensures
        r@ == header_text(year as int, month as int, day as int),
{
    let label = format_date(year, month, day);
    let r = String::from_str("# [").concat(label.as_str()).concat(
        "] WRIG ET Bi-Weekly Status Report\n\n\n",
    );
    proof {
        assert(r@ =~= header_text(year as int, month as int, day as int));
    }
    r
}

/// The report under construction. Its text is exactly what the destination
/// file holds once the driver has flushed each appended piece; no fragment
/// is ever revisited or edited after being appended.
pub struct Report {
    pub text: String,
}

impl View for Report {
    type V = Seq<char>;

    open spec fn view(&self) -> Seq<char> {
        self.text@
    }
}

impl Report {
    /// An empty report.
    pub fn new() -> (r: Report)
        ensures
            r@ == Seq::<char>::empty(),
    {
        Report { text: String::new() }
    }

    /// Law: initialization is destructive. Whatever the report held before,
    /// afterwards it holds exactly the dated header — the new content does
    /// not depend on the old in any way.
    pub fn initialize(&mut self, year: u16, month: u8, day: u8)
        requires
            valid_date(year as int, month as int, day as int),
        ensures
            final(self)@ == header_text(year as int, month as int, day as int),
    {
        self.text = header_line(year, month, day);
    }

    /// Appends raw text at the end; nothing already written moves.
    pub fn append_text(&mut self, t: &str)
        ensures
            final(self)@ == old(self)@ + t@,
    {
        self.text.append(t);
    }

    /// Appends one fragment's text at the end, in fetch order.
    pub fn append_fragment(&mut self, fragment: &ReportFragment)
        ensures
            final(self)@ == old(self)@ + fragment_text(fragment@),
    {
        let t = fragment.text();
        self.text.append(t.as_str());
    }

    /// The accumulated text.
    pub fn as_text(&self) -> (r: &str)
        ensures
            r@ == self@,
    {
        self.text.as_str()
    }
}

} // verus!
