//! The store: entries, dependency graph, and the invalidation engine.
//!
//! Every operation promises that the store it leaves behind equals the
//! corresponding model function of `crate::model` applied to the store it
//! was given; the laws of the engine are proved over those model functions.

use vstd::prelude::*;
use vstd::string::StringExecFns;

use crate::computed::ComputedStore;
use crate::computed::Expr;
use crate::data::Kind;
use crate::data::Value;
use crate::data::view_opt;
use crate::model::EntryModel;
use crate::model::StoreModel;
use crate::model::alloc_model;
use crate::model::lemma_eval_frame;
use crate::model::lemma_eval_type;
use crate::model::lemma_exec_setter_kinds;
use crate::model::computed_model;
use crate::model::dependents_upto;
use crate::model::eval_model;
use crate::model::exec_getter_model;
use crate::model::exec_setter_model;
use crate::model::get_computed_model;
use crate::model::get_value_model;
use crate::model::read_any_model;
use crate::model::record_dep;
use crate::model::set_any_model;
use crate::model::set_computed_model;
use crate::model::set_value_model;
use crate::model::trigger_list_model;
use crate::model::trigger_model;
use crate::model::wf_model;
use crate::reference::Ref;
use crate::value::ValueStore;

verus! {

/// One slot of the store: unoccupied, a leaf cell, or a computed entry
/// with its descriptor and the cell holding its cached result.
enum Entry {
    Vacant,
    Leaf(ValueStore),
    Computed(ComputedStore, ValueStore),
}

/// The model of one slot.
spec fn entry_model(e: Entry) -> EntryModel {
    match e {
        Entry::Vacant => EntryModel::Vacant,
        Entry::Leaf(cell) => EntryModel::Leaf { value: cell@ },
        Entry::Computed(descriptor, cache) => EntryModel::Computed {
            getter: descriptor.getter_spec(),
            setter: descriptor.setter_spec(),
            cache: cache@,
        },
    }
}

/// The store. Ids are dense indices: allocating pushes one slot and one
/// (initially empty) dependency record.
pub struct Context {
    entries: Vec<Entry>,
    deps: Vec<Vec<usize>>,
    currently_computing: Vec<usize>,
}

impl View for Context {
    type V = StoreModel;

    closed spec fn view(&self) -> StoreModel {
        StoreModel {
            entries: self.entries@.map_values(|e: Entry| entry_model(e)),
            deps: self.deps@.map_values(|d: Vec<usize>| d@),
            computing: self.currently_computing@,
        }
    }
}

/// Whether `x` occurs in `v`.
fn vec_contains(v: &Vec<usize>, x: usize) -> (r: bool)
    ensures
        r == v@.contains(x),
{
    let mut j: usize = 0;
    while j < v.len()
        invariant
            j <= v@.len(),
            forall|k: int| 0 <= k < j ==> v@[k] != x,
        decreases v@.len() - j,
    {
        if v[j] == x {
            return true;
        }
        j += 1;
    }
    false
}

impl Context {
    /// Well-formedness: the model invariant of the store.
    pub open spec fn wf(&self) -> bool {
        wf_model(self@)
    }

    /// A store with no entries.
    pub fn new() -> (c: Context)
        ensures
            c@ == StoreModel::empty(),
            c.wf(),
    {
        let c = Context { entries: Vec::new(), deps: Vec::new(), currently_computing: Vec::new() };
        proof {
            assert(c@.entries =~= StoreModel::empty().entries);
            assert(c@.deps =~= StoreModel::empty().deps);
        }
        c
    }

    /// Allocates the next id: strictly increasing, never reused. The id
    /// stays vacant until an entry is defined for it.
    pub fn next_id(&mut self) -> (id: usize)
        requires
            old(self).wf(),
        ensures
            final(self).wf(),
            (final(self)@, id) == alloc_model(old(self)@),
            id as nat == old(self)@.entries.len(),
    {
        let id = self.entries.len();
        self.entries.push(Entry::Vacant);
        self.deps.push(Vec::new());
        proof {
            assert(self@.entries =~= alloc_model(old(self)@).0.entries);
            assert(self@.deps =~= alloc_model(old(self)@).0.deps);
        }
        id
    }

    /// Whether `id` currently denotes a leaf value.
    pub fn id_is_value(&self, id: usize) -> (r: bool)
        ensures
            r == self@.id_is_value_model(id),
    {
        id < self.entries.len() && match &self.entries[id] {
            Entry::Leaf(_) => true,
            _ => false,
        }
    }

    /// Whether `id` currently denotes a computed entry.
    pub fn id_is_computed(&self, id: usize) -> (r: bool)
        ensures
            r == self@.id_is_computed_model(id),
    {
        id < self.entries.len() && match &self.entries[id] {
            Entry::Computed(_, _) => true,
            _ => false,
        }
    }

    /// If some entry is under evaluation, records `dependency` for the
    /// innermost one.
    pub fn add_dependency_if_computing(&mut self, dependency: usize)
        requires
            old(self).wf(),
        ensures
            final(self).wf(),
            final(self)@ == record_dep(old(self)@, dependency),
    {
        if self.currently_computing.len() > 0 {
            let top = self.currently_computing[self.currently_computing.len() - 1];
            proof {
                assert(old(self)@.computing.last() == top);
                assert((top as int) < self.deps@.len());
            }
            if !vec_contains(&self.deps[top], dependency) {
                self.deps[top].push(dependency);
                proof {
                    assert(self@.deps =~= record_dep(old(self)@, dependency).deps);
                    assert(self@ == record_dep(old(self)@, dependency));
                }
            }
        }
    }

    /// Reads the leaf addressed by `id`, recording the read as a dependency
    /// of the entry under evaluation, if any. Absent on an unknown id or a
    /// tag mismatch.
    pub fn get_value(&mut self, id: Ref) -> (r: Option<Value>)
        requires
            old(self).wf(),
        ensures
            final(self).wf(),
            (final(self)@, view_opt(r)) == get_value_model(old(self)@, id),
    {
        self.add_dependency_if_computing(id.id);
        if id.id < self.entries.len() {
            match &self.entries[id.id] {
                Entry::Leaf(cell) => cell.get_cloned_ref(id.kind),
                _ => None,
            }
        } else {
            None
        }
    }

    /// Reads the cached result of the computed entry addressed by `id`,
    /// recording the read as a dependency of the entry under evaluation, if
    /// any. Reading never triggers evaluation.
    pub fn get_computed(&mut self, id: Ref) -> (r: Option<Value>)
        requires
            old(self).wf(),
        ensures
            final(self).wf(),
            (final(self)@, view_opt(r)) == get_computed_model(old(self)@, id),
    {
        self.add_dependency_if_computing(id.id);
        if id.id < self.entries.len() {
            match &self.entries[id.id] {
                Entry::Computed(_, cache) => cache.get_cloned_ref(id.kind),
                _ => None,
            }
        } else {
            None
        }
    }

    /// The generic read: dispatches on what `r.id` denotes at call time.
    pub(crate) fn read_any(&mut self, r: Ref) -> (res: Option<Value>)
        requires
            old(self).wf(),
        ensures
            final(self).wf(),
            (final(self)@, view_opt(res)) == read_any_model(old(self)@, r),
    {
        if self.id_is_value(r.id) {
            self.get_value(r)
        } else if self.id_is_computed(r.id) {
            self.get_computed(r)
        } else {
            None
        }
    }

    /// Evaluates a getter expression against the store. Reads record
    /// dependencies for the entry under evaluation; the result is absent on
    /// an unknown id, a tag mismatch, or integer overflow.
    pub(crate) fn eval_expr(&mut self, e: &Expr) -> (res: Option<Value>)
        requires
            old(self).wf(),
        ensures
            final(self).wf(),
            (final(self)@, view_opt(res)) == eval_model(old(self)@, e@),
        decreases *e,
    {
        match e {
            Expr::Lit(v) => Some(v.clone()),
            Expr::Read(r) => self.read_any(*r),
            Expr::IfElse(c, t, a) => {
                let cv = self.eval_expr(c);
                match cv {
                    Some(Value::Bool(b)) => if b {
                        self.eval_expr(t)
                    } else {
                        self.eval_expr(a)
                    },
                    _ => None,
                }
            },
            Expr::Concat(a, b) => {
                let av = self.eval_expr(a);
                match av {
                    Some(Value::Text(x)) => {
                        let bv = self.eval_expr(b);
                        match bv {
                            Some(Value::Text(y)) => Some(Value::Text(x.concat(y.as_str()))),
                            _ => None,
                        }
                    },
                    _ => None,
                }
            },
            Expr::Add(a, b) => {
                let av = self.eval_expr(a);
                match av {
                    Some(Value::Int(x)) => {
                        let bv = self.eval_expr(b);
                        match bv {
                            Some(Value::Int(y)) => {
                                let sum: i128 = x as i128 + y as i128;
                                if i64::MIN as i128 <= sum && sum <= i64::MAX as i128 {
                                    Some(Value::Int(sum as i64))
                                } else {
                                    None
                                }
                            },
                            _ => None,
                        }
                    },
                    _ => None,
                }
            },
            Expr::Mul(a, b) => {
                let av = self.eval_expr(a);
                match av {
                    Some(Value::Int(x)) => {
                        let bv = self.eval_expr(b);
                        match bv {
                            Some(Value::Int(y)) => {
                                proof {
                                    assert((x as int) * (y as int) <= i128::MAX as int
                                        && (x as int) * (y as int) >= i128::MIN as int)
                                        by (nonlinear_arith)
                                        requires
                                            i64::MIN as int <= x as int <= i64::MAX as int,
                                            i64::MIN as int <= y as int <= i64::MAX as int,
                                    ;
                                }
                                let prod: i128 = x as i128 * y as i128;
                                if i64::MIN as i128 <= prod && prod <= i64::MAX as i128 {
                                    Some(Value::Int(prod as i64))
                                } else {
                                    None
                                }
                            },
                            _ => None,
                        }
                    },
                    _ => None,
                }
            },
        }
    }

    /// Scans the dependency records and re-evaluates every entry whose
    /// recorded dependencies contain `dependency`, each recomputation
    /// triggering the same scan for its own dependents. `fuel` bounds the
    /// recursion; a dependency cycle exhausts it and the cascade stops.
    pub fn trigger_compute_if_dependency_is_set(&mut self, dependency: usize, fuel: usize)
        requires
            old(self).wf(),
        ensures
            final(self).wf(),
            final(self)@ == trigger_model(old(self)@, dependency, fuel as nat),
        decreases fuel, 1int, 0int,
    {
        if fuel == 0 {
            return ;
        }
        let ghost s0 = self@;
        let mut to_compute: Vec<usize> = Vec::new();
        let mut i: usize = 0;
        while i < self.deps.len()
            invariant
                self@ == s0,
                self.wf(),
                i <= self.deps@.len(),
                to_compute@ == dependents_upto(s0, dependency, i as int),
            decreases self.deps@.len() - i,
        {
            if vec_contains(&self.deps[i], dependency) {
                to_compute.push(i);
            }
            i += 1;
        }
        let ghost ids = to_compute@;
        proof {
            assert(ids == dependents_upto(s0, dependency, s0.deps.len() as int));
        }
        let mut j: usize = 0;
        while j < to_compute.len()
            invariant
                self.wf(),
                fuel > 0,
                j <= ids.len(),
                to_compute@ == ids,
                trigger_list_model(self@, ids, j as int, fuel as nat) == trigger_list_model(
                    s0,
                    ids,
                    0,
                    fuel as nat,
                ),
            decreases ids.len() - j,
        {
            let ghost before = self@;
            self.computed_execute_getter(to_compute[j], fuel - 1);
            proof {
                assert(trigger_list_model(before, ids, j as int, fuel as nat)
                    == trigger_list_model(self@, ids, j as int + 1, fuel as nat));
            }
            j += 1;
        }
        proof {
            assert(trigger_list_model(self@, ids, ids.len() as int, fuel as nat) == self@);
            assert(trigger_model(s0, dependency, fuel as nat) == trigger_list_model(
                s0,
                ids,
                0,
                fuel as nat,
            ));
        }
    }

    /// Re-evaluates the computed entry `id`: its getter runs with `id`
    /// pushed on the evaluation stack; on success the cached result is
    /// overwritten and the entry's own dependents are triggered in turn. A
    /// failed evaluation keeps the previous cached result.
    fn computed_execute_getter(&mut self, id: usize, fuel: usize)
        requires
            old(self).wf(),
        ensures
            final(self).wf(),
            final(self)@ == exec_getter_model(old(self)@, id, fuel as nat),
        decreases fuel, 2int, 0int,
    {
        if !self.id_is_computed(id) {
            return ;
        }
        let ghost s0 = self@;
        let descriptor = match &self.entries[id] {
            Entry::Computed(c, _) => c.clone(),
            _ => unreached(),
        };
        self.currently_computing.push(id);
        proof {
            assert(self@.computing =~= s0.computing.push(id));
            assert(self@ == (StoreModel { computing: s0.computing.push(id), ..s0 }));
        }
        let ghost s1 = self@;
        let res = self.eval_expr(descriptor.get());
        proof {
            lemma_eval_frame(s1, descriptor.getter_spec());
        }
        self.currently_computing.pop();
        proof {
            assert(self@.computing =~= eval_model(s1, descriptor.getter_spec()).0.computing.drop_last());
        }
        match res {
            Some(v) => {
                let cache = ValueStore::new(v);
                self.entries[id] = Entry::Computed(descriptor, cache);
                proof {
                    let s2 = eval_model(s1, s0.entries[id as int]->getter).0;
                    let s3 = StoreModel { computing: s2.computing.drop_last(), ..s2 };
                    let s4 = StoreModel {
                        entries: s3.entries.update(
                            id as int,
                            EntryModel::Computed {
                                getter: s0.entries[id as int]->getter,
                                setter: s0.entries[id as int]->setter,
                                cache: v@,
                            },
                        ),
                        ..s3
                    };
                    assert(self@.entries =~= s4.entries);
                    assert(self@ == s4);
                    lemma_eval_type(s1, s0.entries[id as int]->getter);
                    assert(wf_model(s4)) by {
                        assert(wf_model(s1));
                        assert(wf_model(s3));
                        assert forall|k: int| 0 <= k < s4.entries.len() implies
                            crate::model::entry_wf(s4.entries[k]) by {
                            assert(crate::model::entry_wf(s3.entries[k]));
                        }
                    }
                }
                self.trigger_compute_if_dependency_is_set(id, fuel);
            },
            None => {},
        }
    }

    /// Defines a leaf holding `data` and returns its typed handle. Nothing
    /// can yet depend on the fresh id, so no recomputation is triggered.
    pub fn value(&mut self, data: Value) -> (r: Ref)
        requires
            old(self).wf(),
        ensures
            final(self).wf(),
            (final(self)@, r) == crate::model::value_model(old(self)@, data@),
    {
        let ghost s0 = self@;
        let kind = data.kind();
        let id = self.next_id();
        self.entries[id] = Entry::Leaf(ValueStore::new(data));
        proof {
            let target = crate::model::value_model(s0, data@).0;
            assert(id as int == s0.entries.len());
            assert(self@.entries[id as int] == EntryModel::Leaf { value: data@ });
            assert(forall|i: int|
                0 <= i < s0.entries.len() ==> self@.entries[i] == alloc_model(s0).0.entries[i]);
            assert(self@.entries =~= target.entries);
            assert(self@.deps =~= target.deps);
        }
        Ref::new(id, kind)
    }

    /// Writes a leaf: replaces the stored value, triggers the dependents of
    /// `id.id`, and returns the previous value.
    pub fn set_value(&mut self, id: Ref, data: Value, fuel: usize) -> (r: Value)
        requires
            old(self).wf(),
            old(self)@.id_is_value_model(id.id),
            old(self)@.entries[id.id as int]->value.kind() == data@.kind(),
        ensures
            final(self).wf(),
            (final(self)@, r@) == set_value_model(old(self)@, id, data@, fuel as nat),
    {
        let ghost s0 = self@;
        let kind = data.kind();
        let old_data = match &self.entries[id.id] {
            Entry::Leaf(cell) => cell.get_cloned_ref(kind),
            _ => unreached(),
        };
        let old_value = match old_data {
            Some(v) => v,
            None => unreached(),
        };
        self.entries[id.id] = Entry::Leaf(ValueStore::new(data));
        proof {
            let s1 = StoreModel {
                entries: s0.entries.update(id.id as int, EntryModel::Leaf { value: data@ }),
                ..s0
            };
            assert(self@.entries =~= s1.entries);
            assert(self@ == s1);
            assert(wf_model(s1)) by {
                assert forall|k: int| 0 <= k < s1.entries.len() implies
                    crate::model::entry_wf(s1.entries[k]) by {
                    assert(crate::model::entry_wf(s0.entries[k]));
                }
            }
        }
        self.trigger_compute_if_dependency_is_set(id.id, fuel);
        old_value
    }

    /// Defines a computed entry. An ill-typed getter is rejected without
    /// touching the store. Otherwise a fresh id is allocated and the getter
    /// is evaluated once, immediately, so the first read never computes: on
    /// success the result is cached and the typed handle returned; on
    /// failure the id stays vacant and no handle is issued.
    pub fn computed(&mut self, getter: Expr, setter: Option<Ref>, fuel: usize) -> (r: Option<Ref>)
        requires
            old(self).wf(),
        ensures
            final(self).wf(),
            (final(self)@, r) == computed_model(old(self)@, getter@, setter, fuel as nat),
    {
        let ghost s = self@;
        let kind = match getter.static_type() {
            Some(k) => k,
            None => {
                return None;
            },
        };
        let id = self.next_id();
        self.currently_computing.push(id);
        proof {
            let s0 = alloc_model(s).0;
            assert(self@.computing =~= s0.computing.push(id));
            assert(self@ == (StoreModel { computing: s0.computing.push(id), ..s0 }));
            assert(wf_model(self@));
        }
        let ghost s1 = self@;
        let res = self.eval_expr(&getter);
        proof {
            lemma_eval_frame(s1, getter@);
        }
        self.currently_computing.pop();
        proof {
            assert(self@.computing =~= eval_model(s1, getter@).0.computing.drop_last());
        }
        match res {
            Some(v) => {
                self.entries[id] = Entry::Computed(
                    ComputedStore::new(getter, setter),
                    ValueStore::new(v),
                );
                proof {
                    let s2 = eval_model(s1, getter@).0;
                    let s3 = StoreModel { computing: s2.computing.drop_last(), ..s2 };
                    let s4 = StoreModel {
                        entries: s3.entries.update(
                            id as int,
                            EntryModel::Computed { getter: getter@, setter, cache: v@ },
                        ),
                        ..s3
                    };
                    assert(self@.entries =~= s4.entries);
                    assert(self@ == s4);
                    lemma_eval_type(s1, getter@);
                    assert(wf_model(s4)) by {
                        assert(wf_model(s1));
                        assert(wf_model(s3));
                        assert forall|k: int| 0 <= k < s4.entries.len() implies
                            crate::model::entry_wf(s4.entries[k]) by {
                            assert(crate::model::entry_wf(s3.entries[k]));
                        }
                    }
                }
                self.trigger_compute_if_dependency_is_set(id, fuel);
                Some(Ref::new(id, kind))
            },
            None => None,
        }
    }

    /// Writes a computed entry: the setter, if present, pushes the new
    /// value into its upstream target; then the cached result is
    /// unconditionally overwritten with the new value, and the cached
    /// result found after the push is returned.
    pub fn set_computed(&mut self, id: Ref, data: Value, fuel: usize) -> (r: Value)
        requires
            old(self).wf(),
            old(self)@.id_is_computed_model(id.id),
            old(self)@.entries[id.id as int]->cache.kind() == data@.kind(),
        ensures
            final(self).wf(),
            (final(self)@, r@) == set_computed_model(old(self)@, id, data@, fuel as nat),
        decreases fuel, 3int, 0int,
    {
        let ghost s0 = self@;
        let kind = data.kind();
        self.computed_execute_setter(id.id, data.clone(), fuel);
        proof {
            lemma_exec_setter_kinds(s0, id.id, data@, fuel as nat);
            assert(crate::model::kind_frame(s0.entries[id.id as int], self@.entries[id.id as int]));
        }
        let (descriptor, old_data) = match &self.entries[id.id] {
            Entry::Computed(c, cache) => (c.clone(), cache.get_cloned_ref(kind)),
            _ => unreached(),
        };
        let old_value = match old_data {
            Some(v) => v,
            None => unreached(),
        };
        let ghost s1 = self@;
        self.entries[id.id] = Entry::Computed(descriptor, ValueStore::new(data));
        proof {
            let s2 = StoreModel {
                entries: s1.entries.update(
                    id.id as int,
                    EntryModel::Computed {
                        getter: s1.entries[id.id as int]->getter,
                        setter: s1.entries[id.id as int]->setter,
                        cache: data@,
                    },
                ),
                ..s1
            };
            assert(self@.entries =~= s2.entries);
            assert(self@ == s2);
            assert(wf_model(s2)) by {
                assert forall|k: int| 0 <= k < s2.entries.len() implies
                    crate::model::entry_wf(s2.entries[k]) by {
                    assert(crate::model::entry_wf(s1.entries[k]));
                }
            }
        }
        old_value
    }

    /// Runs the setter of the computed entry `id`, if any: the written
    /// value is pushed into the setter's upstream target.
    fn computed_execute_setter(&mut self, id: usize, data: Value, fuel: usize)
        requires
            old(self).wf(),
            old(self)@.id_is_computed_model(id),
        ensures
            final(self).wf(),
            final(self)@ == exec_setter_model(old(self)@, id, data@, fuel as nat),
        decreases fuel, 2int, 0int,
    {
        let target = match &self.entries[id] {
            Entry::Computed(c, _) => c.set(),
            _ => unreached(),
        };
        match target {
            Some(t) => {
                let _handed_back = self.set_any(t, data, fuel);
            },
            None => {},
        }
    }

    /// The guarded write used by setter pushes: an unknown id, a tag
    /// mismatch or exhausted fuel leaves the store unchanged and hands the
    /// value back.
    fn set_any(&mut self, r: Ref, data: Value, fuel: usize) -> (res: Value)
        requires
            old(self).wf(),
        ensures
            final(self).wf(),
            (final(self)@, res@) == set_any_model(old(self)@, r, data@, fuel as nat),
        decreases fuel, 1int, 0int,
    {
        if fuel == 0 {
            return data;
        }
        if self.id_is_value(r.id) {
            let stored = match &self.entries[r.id] {
                Entry::Leaf(cell) => cell.type_id(),
                _ => unreached(),
            };
            if stored == data.kind() {
                self.set_value(r, data, fuel - 1)
            } else {
                data
            }
        } else if self.id_is_computed(r.id) {
            let stored = match &self.entries[r.id] {
                Entry::Computed(_, cache) => cache.type_id(),
                _ => unreached(),
            };
            if stored == data.kind() {
                self.set_computed(r, data, fuel - 1)
            } else {
                data
            }
        } else {
            data
        }
    }
}

} // verus!
