//! A calendar date on the wire: the text `YYYY/MM/DD`, zero-padded.
use crate::error::FieldProblem;
use crate::json::{text_of, JsonValue};
use crate::text::{all_digits, decimal, lemma_decimal_padded, lemma_padded_decimal, padded, pow10, push_padded, read_decimal};
use crate::values::{is_calendar_date, Date};
use vstd::prelude::*;
use vstd::string::{StrSliceExecFns, StringExecFns};

verus! {

/// The wire text of a date.
pub open spec fn date_text(d: Date) -> Seq<char> {
    padded(d.year as int, 4) + seq!['/'] + padded(d.month as int, 2) + seq!['/'] + padded(d.day as int, 2)
}

/// The date that a wire text spells, if it has the exact shape and the date exists.
pub open spec fn date_from_text(s: Seq<char>) -> Option<Date> {
    if s.len() == 10 && s[4] == '/' && s[7] == '/' && all_digits(s.subrange(0, 4))
        && all_digits(s.subrange(5, 7)) && all_digits(s.subrange(8, 10)) && is_calendar_date(
        decimal(s.subrange(0, 4)),
        decimal(s.subrange(5, 7)),
        decimal(s.subrange(8, 10)),
    ) {
        Some(
            Date {
                year: decimal(s.subrange(0, 4)) as u32,
                month: decimal(s.subrange(5, 7)) as u32,
                day: decimal(s.subrange(8, 10)) as u32,
            },
        )
    } else {
        None
    }
}

/// What decoding a wire value as a date gives.
pub open spec fn date_of(v: JsonValue) -> Result<Date, FieldProblem> {
    match text_of(v) {
        None => Err(FieldProblem::WrongType),
        Some(s) => match date_from_text(s) {
            Some(d) => Ok(d),
            None => Err(FieldProblem::Invalid),
        },
    }
}

pub proof fn lemma_pow10_values()
    ensures
        pow10(2) == 100,
        pow10(4) == 10000,
{
    assert(pow10(0) == 1);
    assert(pow10(1) == 10);
    assert(pow10(2) == 100);
    assert(pow10(3) == 1000);
    assert(pow10(4) == 10000);
}

/// Decoding the text of a valid date gives the date back.
pub proof fn lemma_date_round_trip(d: Date)
    requires
        d.wf(),
    ensures
        date_from_text(date_text(d)) == Some(d),
{
    lemma_pow10_values();
    lemma_decimal_padded(d.year as int, 4);
    lemma_decimal_padded(d.month as int, 2);
    lemma_decimal_padded(d.day as int, 2);
    let s = date_text(d);
    assert(s.subrange(0, 4) =~= padded(d.year as int, 4));
    assert(s.subrange(5, 7) =~= padded(d.month as int, 2));
    assert(s.subrange(8, 10) =~= padded(d.day as int, 2));
}

/// A text that decodes to a date is exactly that date's text.
pub proof fn lemma_date_text_round_trip(s: Seq<char>)
    requires
        date_from_text(s) is Some,
    ensures
        date_text(date_from_text(s)->Some_0) == s,
{
    lemma_padded_decimal(s.subrange(0, 4));
    lemma_padded_decimal(s.subrange(5, 7));
    lemma_padded_decimal(s.subrange(8, 10));
    lemma_pow10_values();
    assert(date_text(date_from_text(s)->Some_0) =~= s);
}

/// The date that `s` spells as `YYYY/MM/DD`, if it has that exact shape and exists.
pub fn from_text(s: &str) -> (r: Option<Date>)
    ensures
        r == date_from_text(s@),
{
    if s.unicode_len() != 10 {
        return None;
    }
    if s.get_char(4) != '/' || s.get_char(7) != '/' {
        return None;
    }
    let year = read_decimal(s, 0, 4);
    let month = read_decimal(s, 5, 2);
    let day = read_decimal(s, 8, 2);
    proof {
        lemma_pow10_values();
        if year is Some {
            lemma_padded_decimal(s@.subrange(0, 4));
        }
    }
    match (year, month, day) {
        (Some(y), Some(m), Some(d)) => Date::new(y, m, d),
        _ => None,
    }
}

/// The text `YYYY/MM/DD` of a date.
pub fn to_text(d: &Date) -> (r: String)
    requires
        d.wf(),
    ensures
        r@ == date_text(*d),
{
    proof {
        lemma_pow10_values();
        reveal_strlit("/");
    }
    let mut out = String::new();
    push_padded(&mut out, d.year, 4);
    out.append("/");
    push_padded(&mut out, d.month, 2);
    out.append("/");
    push_padded(&mut out, d.day, 2);
    assert(out@ =~= date_text(*d));
    out
}

/// Decodes a wire value as a date.
pub fn deserialize(v: &JsonValue) -> (r: Result<Date, FieldProblem>)
    ensures
        r == date_of(*v),
{
    match v {
        JsonValue::Str(s) => match from_text(s.as_str()) {
            Some(d) => Ok(d),
            None => Err(FieldProblem::Invalid),
        },
        _ => Err(FieldProblem::WrongType),
    }
}

/// Encodes a date as its wire value.
pub fn serialize(d: &Date) -> (r: JsonValue)
    requires
        d.wf(),
    ensures
        text_of(r) == Some(date_text(*d)),
{
    JsonValue::Str(to_text(d))
}

} // verus!
