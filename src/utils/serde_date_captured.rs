//! A timestamp on the wire: the text `YYYY-MM-DD HH:MM:SS`, zero-padded, without a time zone.
use crate::error::FieldProblem;
use crate::json::{text_of, JsonValue};
use crate::text::{all_digits, decimal, lemma_decimal_padded, lemma_padded_decimal, padded, push_padded, read_decimal};
use crate::utils::serde_date_created::lemma_pow10_values;
use crate::values::{is_calendar_date, Date, DateTime};
use vstd::prelude::*;
use vstd::string::{StrSliceExecFns, StringExecFns};

verus! {

/// The wire text of a timestamp.
pub open spec fn date_time_text(t: DateTime) -> Seq<char> {
    padded(t.date.year as int, 4) + seq!['-'] + padded(t.date.month as int, 2) + seq!['-']
        + padded(t.date.day as int, 2) + seq![' '] + padded(t.hour as int, 2) + seq![':']
        + padded(t.minute as int, 2) + seq![':'] + padded(t.second as int, 2)
}

/// Whether `s` has the shape `DDDD-DD-DD DD:DD:DD`.
pub open spec fn has_date_time_shape(s: Seq<char>) -> bool {
    &&& s.len() == 19
    &&& s[4] == '-' && s[7] == '-' && s[10] == ' ' && s[13] == ':' && s[16] == ':'
    &&& all_digits(s.subrange(0, 4)) && all_digits(s.subrange(5, 7)) && all_digits(s.subrange(8, 10))
    &&& all_digits(s.subrange(11, 13)) && all_digits(s.subrange(14, 16)) && all_digits(s.subrange(17, 19))
}

/// The timestamp that a wire text spells, if it has the exact shape and the moment exists.
pub open spec fn date_time_from_text(s: Seq<char>) -> Option<DateTime> {
    let t = DateTime {
        date: Date {
            year: decimal(s.subrange(0, 4)) as u32,
            month: decimal(s.subrange(5, 7)) as u32,
            day: decimal(s.subrange(8, 10)) as u32,
        },
        hour: decimal(s.subrange(11, 13)) as u32,
        minute: decimal(s.subrange(14, 16)) as u32,
        second: decimal(s.subrange(17, 19)) as u32,
    };
    if has_date_time_shape(s) && is_calendar_date(t.date.year as int, t.date.month as int, t.date.day as int)
        && t.hour < 24 && t.minute < 60 && t.second < 60 {
        Some(t)
    } else {
        None
    }
}

/// What decoding a wire value as a timestamp gives.
pub open spec fn date_time_of(v: JsonValue) -> Result<DateTime, FieldProblem> {
    match text_of(v) {
        None => Err(FieldProblem::WrongType),
        Some(s) => match date_time_from_text(s) {
            Some(t) => Ok(t),
            None => Err(FieldProblem::Invalid),
        },
    }
}

/// Decoding the text of a valid timestamp gives the timestamp back.
pub proof fn lemma_date_time_round_trip(t: DateTime)
    requires
        t.wf(),
    ensures
        date_time_from_text(date_time_text(t)) == Some(t),
{
    lemma_pow10_values();
    lemma_decimal_padded(t.date.year as int, 4);
    lemma_decimal_padded(t.date.month as int, 2);
    lemma_decimal_padded(t.date.day as int, 2);
    lemma_decimal_padded(t.hour as int, 2);
    lemma_decimal_padded(t.minute as int, 2);
    lemma_decimal_padded(t.second as int, 2);
    let s = date_time_text(t);
    assert(s.subrange(0, 4) =~= padded(t.date.year as int, 4));
    assert(s.subrange(5, 7) =~= padded(t.date.month as int, 2));
    assert(s.subrange(8, 10) =~= padded(t.date.day as int, 2));
    assert(s.subrange(11, 13) =~= padded(t.hour as int, 2));
    assert(s.subrange(14, 16) =~= padded(t.minute as int, 2));
    assert(s.subrange(17, 19) =~= padded(t.second as int, 2));
}

/// A text that decodes to a timestamp is exactly that timestamp's text.
pub proof fn lemma_date_time_text_round_trip(s: Seq<char>)
    requires
        date_time_from_text(s) is Some,
    ensures
        date_time_text(date_time_from_text(s)->Some_0) == s,
{
    lemma_padded_decimal(s.subrange(0, 4));
    lemma_padded_decimal(s.subrange(5, 7));
    lemma_padded_decimal(s.subrange(8, 10));
    lemma_padded_decimal(s.subrange(11, 13));
    lemma_padded_decimal(s.subrange(14, 16));
    lemma_padded_decimal(s.subrange(17, 19));
    lemma_pow10_values();
    assert(date_time_text(date_time_from_text(s)->Some_0) =~= s);
}

/// The timestamp that `s` spells as `YYYY-MM-DD HH:MM:SS`, if it has that exact shape
/// and the moment exists.
pub fn from_text(s: &str) -> (r: Option<DateTime>)
    ensures
        r == date_time_from_text(s@),
{
    if s.unicode_len() != 19 {
        return None;
    }
    if s.get_char(4) != '-' || s.get_char(7) != '-' || s.get_char(10) != ' ' || s.get_char(13) != ':'
        || s.get_char(16) != ':' {
        return None;
    }
    let year = read_decimal(s, 0, 4);
    let month = read_decimal(s, 5, 2);
    let day = read_decimal(s, 8, 2);
    let hour = read_decimal(s, 11, 2);
    let minute = read_decimal(s, 14, 2);
    let second = read_decimal(s, 17, 2);
    proof {
        lemma_pow10_values();
        if year is Some {
            lemma_padded_decimal(s@.subrange(0, 4));
        }
    }
    match (year, month, day, hour, minute, second) {
        (Some(y), Some(mo), Some(d), Some(h), Some(mi), Some(se)) => match Date::new(y, mo, d) {
            Some(date) => DateTime::new(date, h, mi, se),
            None => None,
        },
        _ => None,
    }
}

/// The text `YYYY-MM-DD HH:MM:SS` of a timestamp.
pub fn to_text(t: &DateTime) -> (r: String)
    requires
        t.wf(),
    ensures
        r@ == date_time_text(*t),
{
    proof {
        lemma_pow10_values();
        reveal_strlit("-");
        reveal_strlit(" ");
        reveal_strlit(":");
    }
    let mut out = String::new();
    push_padded(&mut out, t.date.year, 4);
    out.append("-");
    push_padded(&mut out, t.date.month, 2);
    out.append("-");
    push_padded(&mut out, t.date.day, 2);
    out.append(" ");
    push_padded(&mut out, t.hour, 2);
    out.append(":");
    push_padded(&mut out, t.minute, 2);
    out.append(":");
    push_padded(&mut out, t.second, 2);
    assert(out@ =~= date_time_text(*t));
    out
}

/// Decodes a wire value as a timestamp.
pub fn deserialize(v: &JsonValue) -> (r: Result<DateTime, FieldProblem>)
    ensures
        r == date_time_of(*v),
{
    match v {
        JsonValue::Str(s) => match from_text(s.as_str()) {
            Some(t) => Ok(t),
            None => Err(FieldProblem::Invalid),
        },
        _ => Err(FieldProblem::WrongType),
    }
}

/// Encodes a timestamp as its wire value.
pub fn serialize(t: &DateTime) -> (r: JsonValue)
    requires
        t.wf(),
    ensures
        text_of(r) == Some(date_time_text(*t)),
{
    JsonValue::Str(to_text(t))
}

} // verus!
