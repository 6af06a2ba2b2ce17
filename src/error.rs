//! Why a document or a field could not be read.
use vstd::prelude::*;

verus! {

/// What is wrong with one field of a record.
#[derive(Clone, Copy, Debug, PartialEq, Eq, Hash, Structural)]
pub enum FieldProblem {
    /// The record has no member of that name.
    Missing,
    /// The member holds a value of another shape (a string for a number, ...).
    WrongType,
    /// The member has the right shape but a value that the field's codec rejects.
    Invalid,
}

/// A document that is well-formed data but does not match the record schema.
#[derive(Clone, Debug, PartialEq, Eq, Hash)]
pub struct SchemaError {
    /// The name of the member that could not be read.
    pub field: String,
    pub problem: FieldProblem,
}

/// Why loading a dataset failed.
#[derive(Clone, Debug, PartialEq, Eq, Hash)]
pub enum LoadError {
    /// The annotation file at this path could not be opened or read.
    Io(String),
    /// The annotation file is not well-formed data; the parser's message.
    Syntax(String),
    /// The data does not match the record schema.
    Schema(SchemaError),
}

} // verus!
