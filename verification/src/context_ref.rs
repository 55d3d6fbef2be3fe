//! The store handle: the owner of one store.
//!
//! All client work goes through a handle: defining leaves and computed
//! entries, and the generic reads and writes that dispatch on what an id
//! denotes at call time.

use vstd::prelude::*;

use crate::computed::Expr;
use crate::context::Context;
use crate::data::Value;
use crate::data::view_opt;
use crate::model::StoreModel;
use crate::model::computed_model;
use crate::model::read_any_model;
use crate::model::set_dispatch_model;
use crate::model::set_ok;
use crate::model::value_model;
use crate::model::wf_model;
use crate::reference::Ref;

verus! {

/// The evaluation budget of writes made through a handle: invalidation
/// propagation stops once a cascade — only possible for a dependency
/// cycle — reaches this depth.
pub const DEFAULT_FUEL: usize = 64;

/// A handle owning one store.
pub struct ContextRef {
    context: Context,
}

impl View for ContextRef {
    type V = StoreModel;

    closed spec fn view(&self) -> StoreModel {
        self.context@
    }
}

impl ContextRef {
    /// Well-formedness: the model invariant of the owned store.
    pub open spec fn wf(&self) -> bool {
        wf_model(self@)
    }

    /// A handle onto a fresh, empty store.
    pub fn new() -> (c: ContextRef)
        ensures
            c@ == StoreModel::empty(),
            c.wf(),
    {
        ContextRef { context: Context::new() }
    }

    /// Whether `id` currently denotes a leaf value.
    pub fn id_is_value(&self, id: usize) -> (r: bool)
        ensures
            r == self@.id_is_value_model(id),
    {
        self.context.id_is_value(id)
    }

    /// Whether `id` currently denotes a computed entry.
    pub fn id_is_computed(&self, id: usize) -> (r: bool)
        ensures
            r == self@.id_is_computed_model(id),
    {
        self.context.id_is_computed(id)
    }

    /// Defines a leaf holding `data` and returns its typed handle.
    pub fn value(&mut self, data: Value) -> (r: Ref)
        requires
            old(self).wf(),
        ensures
            final(self).wf(),
            (final(self)@, r) == value_model(old(self)@, data@),
    {
        self.context.value(data)
    }

    /// Defines a computed entry from a getter expression and an optional
    /// setter target. The getter is evaluated once, immediately: on success
    /// the result is cached and the typed handle returned; an ill-typed
    /// getter or a failed first evaluation yields no handle.
    pub fn computed(&mut self, getter: Expr, setter: Option<Ref>) -> (r: Option<Ref>)
        requires
            old(self).wf(),
        ensures
            final(self).wf(),
            (final(self)@, r) == computed_model(old(self)@, getter@, setter, DEFAULT_FUEL as nat),
    {
        self.context.computed(getter, setter, DEFAULT_FUEL)
    }

    /// The generic read: returns the leaf value or cached result addressed
    /// by `id`, or an absent result on an unknown id or a tag mismatch. A
    /// read made while a computed entry is under evaluation is recorded as
    /// a dependency of that entry.
    pub fn get(&mut self, id: Ref) -> (r: Option<Value>)
        requires
            old(self).wf(),
        ensures
            final(self).wf(),
            (final(self)@, view_opt(r)) == read_any_model(old(self)@, id),
    {
        self.context.read_any(id)
    }

    /// The generic write: replaces the leaf value or pushes through the
    /// computed entry's setter and overwrites its cached result, triggers
    /// dependents, and returns the previous value. An unknown id leaves the
    /// store unchanged and returns `data` itself.
    pub fn set(&mut self, id: Ref, data: Value) -> (r: Value)
        requires
            old(self).wf(),
            set_ok(old(self)@, id, data@),
        ensures
            final(self).wf(),
            (final(self)@, r@) == set_dispatch_model(old(self)@, id, data@, DEFAULT_FUEL as nat),
    {
        if self.context.id_is_value(id.id) {
            self.context.set_value(id, data, DEFAULT_FUEL)
        } else if self.context.id_is_computed(id.id) {
            self.context.set_computed(id, data, DEFAULT_FUEL)
        } else {
            data
        }
    }
}

} // verus!
