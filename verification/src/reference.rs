//! Typed handles onto store entries.

use vstd::prelude::*;

use crate::context_ref::ContextRef;
use crate::context_ref::DEFAULT_FUEL;
use crate::data::Kind;
use crate::data::Value;
use crate::data::view_opt;
use crate::model::read_any_model;
use crate::model::set_dispatch_model;
use crate::model::set_ok;

verus! {

/// A typed capability referencing one store entry by id. It carries no
/// ownership: copying a handle yields a token addressing the same entry.
#[derive(Clone, Copy, PartialEq, Eq, Structural, Debug)]
pub struct Ref {
    pub id: usize,
    pub kind: Kind,
}

impl Ref {
    /// Builds a handle from a raw id and the type tag it claims.
    pub fn new(id: usize, kind: Kind) -> (r: Self)
        ensures
            r == (Ref { id, kind }),
    {
        Ref { id, kind }
    }

    /// The numeric id of the entry this handle addresses.
    pub fn id(&self) -> (r: usize)
        ensures
            r == self.id,
    {
        self.id
    }

    /// Reads the addressed entry through the given store handle.
    pub fn get(&self, context: &mut ContextRef) -> (r: Option<Value>)
        requires
            old(context).wf(),
        ensures
            final(context).wf(),
            (final(context)@, view_opt(r)) == read_any_model(old(context)@, *self),
    {
        context.get(*self)
    }

    /// Writes `data` to the addressed entry through the given store handle,
    /// returning the previous value (or `data` itself for an unknown id).
    pub fn set(&self, context: &mut ContextRef, data: Value) -> (r: Value)
        requires
            old(context).wf(),
            set_ok(old(context)@, *self, data@),
        ensures
            final(context).wf(),
            (final(context)@, r@) == set_dispatch_model(
                old(context)@,
                *self,
                data@,
                DEFAULT_FUEL as nat,
            ),
    {
        context.set(*self, data)
    }

    /// Whether the addressed id currently denotes a leaf value.
    pub fn is_value(&self, context: &ContextRef) -> (r: bool)
        ensures
            r == context@.id_is_value_model(self.id),
    {
        context.id_is_value(self.id)
    }

    /// Whether the addressed id currently denotes a computed entry.
    pub fn is_computed(&self, context: &ContextRef) -> (r: bool)
        ensures
            r == context@.id_is_computed_model(self.id),
    {
        context.id_is_computed(self.id)
    }
}

} // verus!
