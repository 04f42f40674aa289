//! The runtime representation of field contents: a small, self-describing
//! set of plain values that the envelope codec can carry.

use vstd::prelude::*;
use vstd::slice::slice_to_vec;

verus! {

/// A field's content, in one of the encoding-representable shapes.
#[derive(Debug, Clone, PartialEq, Eq)]
pub enum Value {
    /// No content; the shape of a unit field.
    Unit,
    /// A boolean.
    Bool(bool),
    /// An unsigned 64-bit integer.
    U64(u64),
    /// A signed 64-bit integer.
    I64(i64),
    /// A text string.
    Text(String),
    /// An opaque byte string.
    Bytes(Vec<u8>),
}

/// The mathematical shape of a [`Value`]: strings become character
/// sequences and byte strings become byte sequences.
pub enum ValueModel {
    /// No content.
    Unit,
    /// A boolean.
    Bool(bool),
    /// An unsigned 64-bit integer.
    U64(u64),
    /// A signed 64-bit integer.
    I64(i64),
    /// A text string.
    Text(Seq<char>),
    /// An opaque byte string.
    Bytes(Seq<u8>),
}

impl View for Value {
    type V = ValueModel;

    open spec fn view(&self) -> ValueModel {
        match self {
            Value::Unit => ValueModel::Unit,
            Value::Bool(b) => ValueModel::Bool(*b),
            Value::U64(x) => ValueModel::U64(*x),
            Value::I64(x) => ValueModel::I64(*x),
            Value::Text(s) => ValueModel::Text(s@),
            Value::Bytes(b) => ValueModel::Bytes(b@),
        }
    }
}

/// The models of a list of values, element by element.
pub open spec fn spec_models(vs: Seq<Value>) -> Seq<ValueModel> {
    vs.map_values(|v: Value| v@)
}

impl Value {
    /// An owned copy with the same model.
    pub fn duplicate(&self) -> (r: Value)
        ensures
            r@ == self@,
    {
        match self {
            Value::Unit => Value::Unit,
            Value::Bool(b) => Value::Bool(*b),
            Value::U64(x) => Value::U64(*x),
            Value::I64(x) => Value::I64(*x),
            Value::Text(s) => Value::Text(s.clone()),
            Value::Bytes(b) => Value::Bytes(slice_to_vec(b.as_slice())),
        }
    }
}

} // verus!
