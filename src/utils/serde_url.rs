//! An absolute URL on the wire: its text.
use crate::error::FieldProblem;
use crate::json::{text_of, JsonValue};
use crate::values::{parsed_url, Url};
use vstd::prelude::*;

verus! {

/// What decoding a wire value as a URL gives: the serialization it parses to.
pub open spec fn url_of(v: JsonValue) -> Result<Seq<char>, FieldProblem> {
    match text_of(v) {
        None => Err(FieldProblem::WrongType),
        Some(s) => match parsed_url(s) {
            Some(t) => Ok(t),
            None => Err(FieldProblem::Invalid),
        },
    }
}

/// Decodes a wire value as a URL.
pub fn deserialize(v: &JsonValue) -> (r: Result<Url, FieldProblem>)
    ensures
        r is Ok <==> url_of(*v) is Ok,
        r matches Ok(u) ==> url_of(*v) == Ok::<Seq<char>, FieldProblem>(u@),
        r matches Err(e) ==> url_of(*v) == Err::<Seq<char>, FieldProblem>(e),
{
    match v {
        JsonValue::Str(s) => match Url::parse(s.as_str()) {
            Ok(u) => Ok(u),
            Err(_) => Err(FieldProblem::Invalid),
        },
        _ => Err(FieldProblem::WrongType),
    }
}

/// Encodes a URL as its serialization.
pub fn serialize(u: &Url) -> (r: JsonValue)
    ensures
        text_of(r) == Some(u@),
{
    JsonValue::Str(u.as_str().to_owned())
}

} // verus!
