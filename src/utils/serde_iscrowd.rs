//! A flag on the wire: an unsigned integer, zero for false and any other value for true.
use crate::error::FieldProblem;
use crate::json::{unsigned_of, JsonNumber, JsonValue};
use vstd::prelude::*;

verus! {

/// What decoding a wire value as a flag gives.
pub open spec fn flag_of(v: JsonValue) -> Result<bool, FieldProblem> {
    match unsigned_of(v) {
        Some(n) => Ok(n != 0),
        None => Err(FieldProblem::WrongType),
    }
}

/// The wire integer of a flag.
pub open spec fn flag_number(b: bool) -> u64 {
    if b {
        1
    } else {
        0
    }
}

/// Decoding the wire integer of a flag gives the flag back; a wire integer that is
/// 0 or 1 is the wire integer of what it decodes to.
pub proof fn lemma_flag_round_trip(b: bool, n: u64)
    ensures
        flag_of(JsonValue::Number(JsonNumber { unsigned: Some(flag_number(b)), double_bits: None })) == Ok::<
            bool,
            FieldProblem,
        >(b),
        n <= 1 ==> flag_number(flag_of(JsonValue::Number(JsonNumber { unsigned: Some(n), double_bits: None }))->Ok_0) == n,
{
}

/// Decodes a wire value as a flag.
pub fn deserialize(v: &JsonValue) -> (r: Result<bool, FieldProblem>)
    ensures
        r == flag_of(*v),
{
    match v {
        JsonValue::Number(n) => match n.unsigned {
            Some(k) => Ok(k != 0),
            None => Err(FieldProblem::WrongType),
        },
        _ => Err(FieldProblem::WrongType),
    }
}

/// Encodes a flag as the integer 1 or 0.
pub fn serialize(b: bool) -> (r: JsonValue)
    ensures
        r == JsonValue::Number(JsonNumber { unsigned: Some(flag_number(b)), double_bits: None }),
{
    JsonValue::Number(JsonNumber { unsigned: Some(if b { 1 } else { 0 }), double_bits: None })
}

} // verus!
