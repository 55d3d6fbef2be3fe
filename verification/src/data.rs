//! Dynamically typed values and their runtime type tags.
//!
//! Every entry of the store holds one `Value`. A `Value` carries its own
//! type tag (the enum variant), so typed access can be checked at run time
//! and a mismatch is always a recoverable absent result, never an abort.

use vstd::prelude::*;

verus! {

/// Runtime type tag of a stored value.
#[derive(Clone, Copy, PartialEq, Eq, Structural, Debug)]
pub enum Kind {
    Bool,
    Int,
    Text,
}

/// A dynamically typed value: the tagged, safe form of type-erased storage.
#[derive(Debug, PartialEq)]
pub enum Value {
    Bool(bool),
    Int(i64),
    Text(String),
}

/// Mathematical model of a `Value`: integers are unbounded, text is a
/// sequence of characters.
pub ghost enum ValueModel {
    Bool(bool),
    Int(int),
    Text(Seq<char>),
}

impl ValueModel {
    /// The type tag of a modelled value.
    pub open spec fn kind(self) -> Kind {
        match self {
            ValueModel::Bool(_) => Kind::Bool,
            ValueModel::Int(_) => Kind::Int,
            ValueModel::Text(_) => Kind::Text,
        }
    }
}

impl View for Value {
    type V = ValueModel;

    open spec fn view(&self) -> ValueModel {
        match self {
            Value::Bool(b) => ValueModel::Bool(*b),
            Value::Int(i) => ValueModel::Int(*i as int),
            Value::Text(s) => ValueModel::Text(s@),
        }
    }
}

/// The view of an optional value, used by contracts of typed reads.
pub open spec fn view_opt(o: Option<Value>) -> Option<ValueModel> {
    match o {
        Some(v) => Some(v@),
        None => None,
    }
}

impl Value {
    /// The runtime type tag of this value.
    pub fn kind(&self) -> (k: Kind)
        ensures
            k == self@.kind(),
    {
        match self {
            Value::Bool(_) => Kind::Bool,
            Value::Int(_) => Kind::Int,
            Value::Text(_) => Kind::Text,
        }
    }
}

impl Clone for Value {
    /// Clones the value; the copy models the same mathematical value.
    fn clone(&self) -> (r: Self)
        ensures
            r@ == self@,
    {
        match self {
            Value::Bool(b) => Value::Bool(*b),
            Value::Int(i) => Value::Int(*i),
            Value::Text(s) => Value::Text(s.clone()),
        }
    }
}

} // verus!
