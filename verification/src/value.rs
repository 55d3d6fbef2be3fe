//! The tagged storage cell behind every entry.
//!
//! A cell owns one dynamically typed value. Typed access succeeds exactly
//! when the requested tag matches the tag of the stored value; a mismatch
//! yields an absent result, never an abort.

use vstd::prelude::*;

use crate::data::Kind;
use crate::data::Value;
use crate::data::ValueModel;
use crate::data::view_opt;

verus! {

/// A cell holding one tagged value.
#[derive(Debug)]
pub struct ValueStore {
    value: Value,
}

impl View for ValueStore {
    type V = ValueModel;

    closed spec fn view(&self) -> ValueModel {
        self.value@
    }
}

impl ValueStore {
    /// Stores `data` in a fresh cell.
    pub fn new(data: Value) -> (s: Self)
        ensures
            s@ == data@,
    {
        ValueStore { value: data }
    }

    /// Borrows the stored value if the requested tag matches.
    pub fn get_ref(&self, kind: Kind) -> (r: Option<&Value>)
        ensures
            match r {
                Some(v) => self@.kind() == kind && v@ == self@,
                None => self@.kind() != kind,
            },
    {
        if self.value.kind() == kind {
            Some(&self.value)
        } else {
            None
        }
    }

    /// Clones the stored value out if the requested tag matches.
    pub fn get_cloned_ref(&self, kind: Kind) -> (r: Option<Value>)
        ensures
            view_opt(r) == (if self@.kind() == kind {
                Some(self@)
            } else {
                None::<ValueModel>
            }),
    {
        if self.value.kind() == kind {
            Some(self.value.clone())
        } else {
            None
        }
    }

    /// Consumes the cell, extracting ownership of the stored value if the
    /// requested tag matches.
    pub fn get(self, kind: Kind) -> (r: Option<Value>)
        ensures
            view_opt(r) == (if self@.kind() == kind {
                Some(self@)
            } else {
                None::<ValueModel>
            }),
    {
        if self.value.kind() == kind {
            Some(self.value)
        } else {
            None
        }
    }

    /// The runtime type tag of the stored value.
    pub fn type_id(&self) -> (k: Kind)
        ensures
            k == self@.kind(),
    {
        self.value.kind()
    }

    /// Whether the stored value carries the given tag.
    pub fn is(&self, type_id: Kind) -> (r: bool)
        ensures
            r == (self@.kind() == type_id),
    {
        self.value.kind() == type_id
    }
}

} // verus!
