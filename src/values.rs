//! The value types that record fields hold: finite reals, calendar dates,
//! timestamps and absolute URLs.
use vstd::prelude::*;

verus! {

/// Whether the IEEE double with bit pattern `b` is finite (neither infinite nor NaN).
pub open spec fn is_finite_bits(b: u64) -> bool {
    (b >> 52u64) & 0x7ffu64 != 0x7ffu64
}

/// A finite real number, held as the bit pattern of an IEEE double.
#[derive(Clone, Copy, Debug, PartialEq, Eq, Hash, Structural)]
pub struct Real {
    pub bits: u64,
}

impl Real {
    pub open spec fn wf(&self) -> bool {
        is_finite_bits(self.bits)
    }

    /// The real with bit pattern `bits`, unless that pattern is infinite or NaN.
    pub fn from_bits(bits: u64) -> (r: Option<Real>)
        ensures
            r is Some <==> is_finite_bits(bits),
            r matches Some(x) ==> x.bits == bits,
    {
        if (bits >> 52u64) & 0x7ffu64 != 0x7ffu64 {
            Some(Real { bits })
        } else {
            None
        }
    }
}

pub open spec fn is_leap_year(y: int) -> bool {
    (y % 4 == 0 && y % 100 != 0) || y % 400 == 0
}

pub open spec fn days_in_month(y: int, m: int) -> int {
    if m == 2 {
        if is_leap_year(y) {
            29
        } else {
            28
        }
    } else if m == 4 || m == 6 || m == 9 || m == 11 {
        30
    } else {
        31
    }
}

/// Whether month `m` and day `d` exist in year `y` of the proleptic Gregorian calendar.
pub open spec fn is_calendar_date(y: int, m: int, d: int) -> bool {
    1 <= m <= 12 && 1 <= d <= days_in_month(y, m)
}

/// Relies on chrono's `NaiveDate::from_ymd_opt`: it gives a date exactly when the
/// month and day exist in the given year, for years in its range (which holds 0 to 9999).
#[verifier::external_body]
fn calendar_date_exists(year: u32, month: u32, day: u32) -> (r: bool)
    requires
        year <= 9999,
    ensures
        r == is_calendar_date(year as int, month as int, day as int),
{
    chrono::NaiveDate::from_ymd_opt(year as i32, month, day).is_some()
}

/// Relies on chrono's `NaiveTime::from_hms_opt`: it gives a time exactly when
/// hour < 24, minute < 60 and second < 60.
#[verifier::external_body]
fn clock_time_exists(hour: u32, minute: u32, second: u32) -> (r: bool)
    ensures
        r == (hour < 24 && minute < 60 && second < 60),
{
    chrono::NaiveTime::from_hms_opt(hour, minute, second).is_some()
}

/// A calendar date with a year of at most four digits.
#[derive(Clone, Copy, Debug, PartialEq, Eq, Hash, Structural)]
pub struct Date {
    pub year: u32,
    pub month: u32,
    pub day: u32,
}

impl Date {
    pub open spec fn wf(&self) -> bool {
        self.year <= 9999 && is_calendar_date(self.year as int, self.month as int, self.day as int)
    }

    /// The date `year`/`month`/`day`, where it exists and the year has at most four digits.
    pub fn new(year: u32, month: u32, day: u32) -> (r: Option<Date>)
        ensures
            r is Some <==> year <= 9999 && is_calendar_date(year as int, month as int, day as int),
            r matches Some(d) ==> d.year == year && d.month == month && d.day == day,
    {
        if year <= 9999 && calendar_date_exists(year, month, day) {
            Some(Date { year, month, day })
        } else {
            None
        }
    }
}

/// A date and a time of day to the second, without a time zone.
#[derive(Clone, Copy, Debug, PartialEq, Eq, Hash, Structural)]
pub struct DateTime {
    pub date: Date,
    pub hour: u32,
    pub minute: u32,
    pub second: u32,
}

impl DateTime {
    pub open spec fn wf(&self) -> bool {
        self.date.wf() && self.hour < 24 && self.minute < 60 && self.second < 60
    }

    /// The moment `hour`:`minute`:`second` of `date`, where that time of day exists.
    pub fn new(date: Date, hour: u32, minute: u32, second: u32) -> (r: Option<DateTime>)
        ensures
            r is Some <==> hour < 24 && minute < 60 && second < 60,
            r matches Some(t) ==> t.date == date && t.hour == hour && t.minute == minute
                && t.second == second,
    {
        if clock_time_exists(hour, minute, second) {
            Some(DateTime { date, hour, minute, second })
        } else {
            None
        }
    }
}

/// The serialization of the absolute URL that a text parses to, if it parses to one.
pub uninterp spec fn parsed_url(s: Seq<char>) -> Option<Seq<char>>;

/// The error that `url::Url::parse` reports for a text that is not an absolute URL.
#[verifier::external_type_specification]
#[verifier::external_body]
pub struct ExParseError(url::ParseError);

/// Relies on `url::Url::parse` and `Url::as_str`: whether a text is an absolute URL,
/// and the serialization it then has, depend on the text alone.
#[verifier::external_body]
fn parse_url(s: &str) -> (r: Result<String, url::ParseError>)
    ensures
        r is Err <==> parsed_url(s@) is None,
        r matches Ok(t) ==> parsed_url(s@) == Some(t@),
{
    match url::Url::parse(s) {
        Ok(u) => Ok(u.as_str().to_string()),
        Err(e) => Err(e),
    }
}

/// An absolute URL, held as its serialization.
#[derive(Clone, Debug, PartialEq, Eq, Hash)]
pub struct Url {
    text: String,
}

impl View for Url {
    type V = Seq<char>;

    closed spec fn view(&self) -> Seq<char> {
        self.text@
    }
}

impl Url {
    /// Whether parsing the serialization gives it back unchanged.
    pub open spec fn is_canonical(&self) -> bool {
        parsed_url(self@) == Some(self@)
    }

    /// The URL that `s` parses to, or why it is not an absolute URL.
    pub fn parse(s: &str) -> (r: Result<Url, url::ParseError>)
        ensures
            r is Err <==> parsed_url(s@) is None,
            r matches Ok(u) ==> parsed_url(s@) == Some(u@),
    {
        match parse_url(s) {
            Ok(text) => Ok(Url { text }),
            Err(e) => Err(e),
        }
    }

    /// The serialization of the URL.
    pub fn as_str(&self) -> (r: &str)
        ensures
            r@ == self@,
    {
        self.text.as_str()
    }
}

} // verus!
