//! Structured values, as claims and metadata carry them.

use vstd::prelude::*;

verus! {

/// A JSON value. A number that is no whole number is kept as its decimal
/// text, and an array or object as its JSON text: the library stores and
/// hands on such values and never looks into them.
#[derive(Clone, Debug)]
pub enum JsonValue {
    Null,
    Bool(bool),
    Integer(i64),
    Unsigned(u64),
    Decimal(String),
    Text(String),
    Nested(String),
}

} // verus!
