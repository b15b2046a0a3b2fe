//! Typed literal values, and rows as ordered sequences of values.

use vstd::prelude::*;

verus! {

/// A single column value, represented as a typed literal.
///
/// Values carry the representation that the target statement layer
/// binds positionally: text, a fixed-width integer, a decimal literal
/// kept as its exact digit string, or a null marker.
#[derive(Debug, PartialEq, Eq)]
pub enum Value {
    /// The null marker.
    Null,
    /// A fixed-width integer literal.
    Int(i64),
    /// A text literal.
    Text(String),
    /// A decimal literal, kept as its exact textual form so that no
    /// precision is lost while the value is in flight.
    Decimal(String),
}

impl Clone for Value {
    /// Cloning preserves the value exactly.
    fn clone(&self) -> (res: Self)
        ensures
            res == *self,
    {
        match self {
            Value::Null => Value::Null,
            Value::Int(i) => Value::Int(*i),
            Value::Text(s) => Value::Text(s.clone()),
            Value::Decimal(s) => Value::Decimal(s.clone()),
        }
    }
}

/// A row: one value per schema column, in schema column order.
pub type Row = Vec<Value>;

/// A row matches a schema of `arity` columns when it holds exactly one
/// value per column.
pub open spec fn row_has_arity(row: Seq<Value>, arity: nat) -> bool {
    row.len() == arity
}

} // verus!
