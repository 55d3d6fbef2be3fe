//! The mathematical model of the store and of every operation on it.
//!
//! Each executable operation of the engine promises in its `ensures` that
//! the store it leaves behind, and the value it returns, equal the result of
//! the corresponding model function applied to the store it was given. All
//! laws of the engine are then proved once, over these model functions.

use vstd::prelude::*;

use crate::computed::ExprModel;
use crate::computed::static_type_model;
use crate::data::Kind;
use crate::data::ValueModel;
use crate::reference::Ref;

verus! {

/// One entry of the store: unoccupied, a mutable leaf value, or a computed
/// entry with its descriptor and its cached result.
pub ghost enum EntryModel {
    Vacant,
    Leaf { value: ValueModel },
    Computed { getter: ExprModel, setter: Option<Ref>, cache: ValueModel },
}

/// The store: entries indexed by id, the recorded dependency ids of each
/// id, and the stack of ids currently under evaluation.
pub ghost struct StoreModel {
    pub entries: Seq<EntryModel>,
    pub deps: Seq<Seq<usize>>,
    pub computing: Seq<usize>,
}

impl StoreModel {
    /// The store with no entries.
    pub open spec fn empty() -> StoreModel {
        StoreModel { entries: Seq::empty(), deps: Seq::empty(), computing: Seq::empty() }
    }

    /// Whether `id` denotes a leaf value.
    pub open spec fn id_is_value_model(self, id: usize) -> bool {
        (id as int) < self.entries.len() && self.entries[id as int] is Leaf
    }

    /// Whether `id` denotes a computed entry.
    pub open spec fn id_is_computed_model(self, id: usize) -> bool {
        (id as int) < self.entries.len() && self.entries[id as int] is Computed
    }
}

/// A computed entry's cached result always carries the static type of its
/// getter, so the tag a handle was issued with never goes stale.
pub open spec fn entry_wf(e: EntryModel) -> bool {
    match e {
        EntryModel::Computed { getter, setter, cache } => static_type_model(getter) == Some(
            cache.kind(),
        ),
        _ => true,
    }
}

/// Well-formedness of the store: one dependency record per entry, every id
/// under evaluation is an allocated id, and every entry is well-formed.
pub open spec fn wf_model(s: StoreModel) -> bool {
    &&& s.deps.len() == s.entries.len()
    &&& forall|i: int|
        0 <= i < s.computing.len() ==> (s.computing[i] as int) < s.entries.len()
    &&& forall|i: int| 0 <= i < s.entries.len() ==> entry_wf(s.entries[i])
}

/// If some entry is under evaluation, records `dependency` for the innermost
/// one (the top of the stack), unless already recorded.
pub open spec fn record_dep(s: StoreModel, dependency: usize) -> StoreModel {
    if s.computing.len() > 0 {
        let top = s.computing.last() as int;
        if top < s.deps.len() {
            if s.deps[top].contains(dependency) {
                s
            } else {
                StoreModel { deps: s.deps.update(top, s.deps[top].push(dependency)), ..s }
            }
        } else {
            s
        }
    } else {
        s
    }
}

/// The leaf value addressed by `r`, if `r.id` is a leaf of matching tag.
pub open spec fn leaf_lookup(s: StoreModel, r: Ref) -> Option<ValueModel> {
    if s.id_is_value_model(r.id) {
        let value = s.entries[r.id as int]->value;
        if value.kind() == r.kind {
            Some(value)
        } else {
            None
        }
    } else {
        None
    }
}

/// The cached result addressed by `r`, if `r.id` is a computed entry of
/// matching tag.
pub open spec fn cache_lookup(s: StoreModel, r: Ref) -> Option<ValueModel> {
    if s.id_is_computed_model(r.id) {
        let cache = s.entries[r.id as int]->cache;
        if cache.kind() == r.kind {
            Some(cache)
        } else {
            None
        }
    } else {
        None
    }
}

/// Reading a leaf: the read is recorded as a dependency, then the leaf value
/// is returned if present and of matching tag.
pub open spec fn get_value_model(s: StoreModel, r: Ref) -> (StoreModel, Option<ValueModel>) {
    (record_dep(s, r.id), leaf_lookup(s, r))
}

/// Reading a computed entry: the read is recorded as a dependency, then the
/// cached result is returned if present and of matching tag. Reading never
/// triggers evaluation.
pub open spec fn get_computed_model(s: StoreModel, r: Ref) -> (StoreModel, Option<ValueModel>) {
    (record_dep(s, r.id), cache_lookup(s, r))
}

/// The generic read: dispatches on what `r.id` denotes at call time; an
/// unknown id is absent and records nothing.
pub open spec fn read_any_model(s: StoreModel, r: Ref) -> (StoreModel, Option<ValueModel>) {
    if s.id_is_value_model(r.id) {
        get_value_model(s, r)
    } else if s.id_is_computed_model(r.id) {
        get_computed_model(s, r)
    } else {
        (s, None)
    }
}

/// An integer result if it fits the stored width, else an absent result.
pub open spec fn int_result(n: int) -> Option<ValueModel> {
    if i64::MIN as int <= n <= i64::MAX as int {
        Some(ValueModel::Int(n))
    } else {
        None
    }
}

/// Evaluation of a getter expression: reads record dependencies for the
/// entry under evaluation; the result is absent on an unknown id, a tag
/// mismatch, or integer overflow.
pub open spec fn eval_model(s: StoreModel, e: ExprModel) -> (StoreModel, Option<ValueModel>)
    decreases e,
{
    match e {
        ExprModel::Lit(v) => (s, Some(v)),
        ExprModel::Read(r) => read_any_model(s, r),
        ExprModel::IfElse(c, t, a) => {
            let (s1, cv) = eval_model(s, *c);
            match cv {
                Some(ValueModel::Bool(b)) => if b {
                    eval_model(s1, *t)
                } else {
                    eval_model(s1, *a)
                },
                _ => (s1, None),
            }
        },
        ExprModel::Concat(a, b) => {
            let (s1, av) = eval_model(s, *a);
            match av {
                Some(ValueModel::Text(x)) => {
                    let (s2, bv) = eval_model(s1, *b);
                    match bv {
                        Some(ValueModel::Text(y)) => (s2, Some(ValueModel::Text(x + y))),
                        _ => (s2, None),
                    }
                },
                _ => (s1, None),
            }
        },
        ExprModel::Add(a, b) => {
            let (s1, av) = eval_model(s, *a);
            match av {
                Some(ValueModel::Int(x)) => {
                    let (s2, bv) = eval_model(s1, *b);
                    match bv {
                        Some(ValueModel::Int(y)) => (s2, int_result(x + y)),
                        _ => (s2, None),
                    }
                },
                _ => (s1, None),
            }
        },
        ExprModel::Mul(a, b) => {
            let (s1, av) = eval_model(s, *a);
            match av {
                Some(ValueModel::Int(x)) => {
                    let (s2, bv) = eval_model(s1, *b);
                    match bv {
                        Some(ValueModel::Int(y)) => (s2, int_result(x * y)),
                        _ => (s2, None),
                    }
                },
                _ => (s1, None),
            }
        },
    }
}

/// The ids among `0 .. n` whose recorded dependencies contain `dependency`,
/// in increasing order.
pub open spec fn dependents_upto(s: StoreModel, dependency: usize, n: int) -> Seq<usize>
    decreases n,
{
    if n <= 0 {
        Seq::empty()
    } else {
        let rest = dependents_upto(s, dependency, n - 1);
        if s.deps[n - 1].contains(dependency) {
            rest.push((n - 1) as usize)
        } else {
            rest
        }
    }
}

/// Invalidation propagation: re-evaluates every entry whose recorded
/// dependencies contain `dependency`, each recomputation triggering the same
/// scan for its own dependents. `fuel` bounds the recursion; a dependency
/// cycle exhausts it and the cascade stops.
pub open spec fn trigger_model(s: StoreModel, dependency: usize, fuel: nat) -> StoreModel
    decreases fuel, 1int, 0int,
{
    if fuel == 0 {
        s
    } else {
        trigger_list_model(s, dependents_upto(s, dependency, s.deps.len() as int), 0, fuel)
    }
}

/// Recomputes the listed dependents in order, from position `j` on.
pub open spec fn trigger_list_model(s: StoreModel, ids: Seq<usize>, j: int, fuel: nat) -> StoreModel
    decreases fuel, 0int, ids.len() - j,
{
    if fuel > 0 && 0 <= j < ids.len() {
        let s1 = exec_getter_model(s, ids[j], (fuel - 1) as nat);
        trigger_list_model(s1, ids, j + 1, fuel)
    } else {
        s
    }
}

/// One recomputation of the computed entry `id`: its getter is evaluated
/// with `id` pushed on the evaluation stack; on success the cached result is
/// overwritten and the entry's own dependents are triggered in turn. A
/// failed evaluation keeps the previous cached result.
pub open spec fn exec_getter_model(s: StoreModel, id: usize, fuel: nat) -> StoreModel
    decreases fuel, 2int, 0int,
{
    if s.id_is_computed_model(id) {
        let getter = s.entries[id as int]->getter;
        let setter = s.entries[id as int]->setter;
        let s1 = StoreModel { computing: s.computing.push(id), ..s };
        let (s2, res) = eval_model(s1, getter);
        let s3 = StoreModel { computing: s2.computing.drop_last(), ..s2 };
        match res {
            Some(v) => {
                let s4 = StoreModel {
                    entries: s3.entries.update(
                        id as int,
                        EntryModel::Computed { getter, setter, cache: v },
                    ),
                    ..s3
                };
                trigger_model(s4, id, fuel)
            },
            None => s3,
        }
    } else {
        s
    }
}

/// Allocating a fresh id: one vacant entry and one empty dependency record.
pub open spec fn alloc_model(s: StoreModel) -> (StoreModel, usize) {
    (
        StoreModel {
            entries: s.entries.push(EntryModel::Vacant),
            deps: s.deps.push(Seq::empty()),
            ..s
        },
        s.entries.len() as usize,
    )
}

/// Defining a leaf: a fresh id bound to the given value. Nothing can yet
/// depend on the new id, so no recomputation is triggered.
pub open spec fn value_model(s: StoreModel, data: ValueModel) -> (StoreModel, Ref) {
    (
        StoreModel {
            entries: s.entries.push(EntryModel::Leaf { value: data }),
            deps: s.deps.push(Seq::empty()),
            ..s
        },
        Ref { id: s.entries.len() as usize, kind: data.kind() },
    )
}

/// Writing a leaf: the stored value is replaced, dependents are triggered,
/// and the previous value is returned. Meaningful only when `r.id` denotes a
/// leaf, which callers must ensure.
pub open spec fn set_value_model(s: StoreModel, r: Ref, data: ValueModel, fuel: nat) -> (
    StoreModel,
    ValueModel,
) {
    let old_value = s.entries[r.id as int]->value;
    let s1 = StoreModel {
        entries: s.entries.update(r.id as int, EntryModel::Leaf { value: data }),
        ..s
    };
    (trigger_model(s1, r.id, fuel), old_value)
}

/// Defining a computed entry. An ill-typed getter is rejected without
/// touching the store. Otherwise a fresh id is allocated and the getter is
/// evaluated once, immediately: on success the result is cached and the
/// typed handle returned; on failure the id stays vacant and no handle is
/// issued.
pub open spec fn computed_model(
    s: StoreModel,
    getter: ExprModel,
    setter: Option<Ref>,
    fuel: nat,
) -> (StoreModel, Option<Ref>) {
    match static_type_model(getter) {
        Some(k) => {
            let (s0, id) = alloc_model(s);
            let s1 = StoreModel { computing: s0.computing.push(id), ..s0 };
            let (s2, res) = eval_model(s1, getter);
            let s3 = StoreModel { computing: s2.computing.drop_last(), ..s2 };
            match res {
                Some(v) => {
                    let s4 = StoreModel {
                        entries: s3.entries.update(
                            id as int,
                            EntryModel::Computed { getter, setter, cache: v },
                        ),
                        ..s3
                    };
                    (trigger_model(s4, id, fuel), Some(Ref { id, kind: k }))
                },
                None => (s3, None),
            }
        },
        None => (s, None),
    }
}

/// Writing a computed entry: the setter, if present, pushes the new value
/// into its upstream target; then the cached result is unconditionally
/// overwritten with the new value, and the cached result found after the
/// push is returned. Meaningful only when `r.id` denotes a computed entry.
pub open spec fn set_computed_model(s: StoreModel, r: Ref, data: ValueModel, fuel: nat) -> (
    StoreModel,
    ValueModel,
)
    decreases fuel, 3int,
{
    let s1 = exec_setter_model(s, r.id, data, fuel);
    let getter = s1.entries[r.id as int]->getter;
    let setter = s1.entries[r.id as int]->setter;
    let old_cache = s1.entries[r.id as int]->cache;
    let s2 = StoreModel {
        entries: s1.entries.update(
            r.id as int,
            EntryModel::Computed { getter, setter, cache: data },
        ),
        ..s1
    };
    (s2, old_cache)
}

/// Running the setter of the computed entry `id`: if a setter target is
/// present, the written value is pushed into it; a missing setter is a
/// no-op. Meaningful only when `id` denotes a computed entry.
pub open spec fn exec_setter_model(s: StoreModel, id: usize, data: ValueModel, fuel: nat) -> StoreModel
    decreases fuel, 2int,
{
    match s.entries[id as int]->setter {
        Some(target) => set_any_model(s, target, data, fuel).0,
        None => s,
    }
}

/// The guarded write used by setter pushes: an unknown id, a tag mismatch or
/// exhausted fuel leaves the store unchanged and hands the value back.
pub open spec fn set_any_model(s: StoreModel, r: Ref, data: ValueModel, fuel: nat) -> (
    StoreModel,
    ValueModel,
)
    decreases fuel, 1int,
{
    if fuel == 0 {
        (s, data)
    } else if s.id_is_value_model(r.id) {
        if s.entries[r.id as int]->value.kind() == data.kind() {
            set_value_model(s, r, data, (fuel - 1) as nat)
        } else {
            (s, data)
        }
    } else if s.id_is_computed_model(r.id) {
        if s.entries[r.id as int]->cache.kind() == data.kind() {
            set_computed_model(s, r, data, (fuel - 1) as nat)
        } else {
            (s, data)
        }
    } else {
        (s, data)
    }
}

/// When a generic write is defined: the value's tag must match the tag of
/// what the addressed entry currently holds; an unknown id is always
/// acceptable (the write hands the value back).
pub open spec fn set_ok(s: StoreModel, r: Ref, data: ValueModel) -> bool {
    &&& (s.id_is_value_model(r.id) ==> s.entries[r.id as int]->value.kind() == data.kind())
    &&& (s.id_is_computed_model(r.id) ==> s.entries[r.id as int]->cache.kind() == data.kind())
}

/// The generic write: dispatches on what `r.id` denotes at call time; an
/// unknown id leaves the store unchanged and returns the value itself.
pub open spec fn set_dispatch_model(s: StoreModel, r: Ref, data: ValueModel, fuel: nat) -> (
    StoreModel,
    ValueModel,
) {
    if s.id_is_value_model(r.id) {
        set_value_model(s, r, data, fuel)
    } else if s.id_is_computed_model(r.id) {
        set_computed_model(s, r, data, fuel)
    } else {
        (s, data)
    }
}

/// What invalidation propagation may do to one entry: nothing to vacant
/// ids and leaf values; a computed entry keeps its descriptor and only its
/// cached result moves, staying within its tag.
pub open spec fn entry_frame(e: EntryModel, e2: EntryModel) -> bool {
    match e {
        EntryModel::Vacant => e2 is Vacant,
        EntryModel::Leaf { value } => e2 == e,
        EntryModel::Computed { getter, setter, cache } => {
            &&& e2 is Computed
            &&& e2->getter == getter
            &&& e2->setter == setter
            &&& e2->cache.kind() == cache.kind()
        },
    }
}

/// The frame of invalidation propagation: ids keep what they denote, leaf
/// values are untouched, descriptors are untouched, cached results keep
/// their tag, and the evaluation stack is restored.
pub open spec fn frame_ok(s: StoreModel, s2: StoreModel) -> bool {
    &&& s2.entries.len() == s.entries.len()
    &&& s2.deps.len() == s.deps.len()
    &&& s2.computing == s.computing
    &&& forall|i: int| 0 <= i < s.entries.len() ==> entry_frame(s.entries[i], s2.entries[i])
}

/// What a write may do to one entry: what an id denotes and the tag of what
/// it holds never change; values and cached results may move within their
/// tag.
pub open spec fn kind_frame(e: EntryModel, e2: EntryModel) -> bool {
    match e {
        EntryModel::Vacant => e2 is Vacant,
        EntryModel::Leaf { value } => e2 is Leaf && e2->value.kind() == value.kind(),
        EntryModel::Computed { getter, setter, cache } => {
            &&& e2 is Computed
            &&& e2->getter == getter
            &&& e2->setter == setter
            &&& e2->cache.kind() == cache.kind()
        },
    }
}

/// The frame of a write: like `frame_ok`, except that leaf values may move
/// within their tag.
pub open spec fn kinds_ok(s: StoreModel, s2: StoreModel) -> bool {
    &&& s2.entries.len() == s.entries.len()
    &&& s2.deps.len() == s.deps.len()
    &&& s2.computing == s.computing
    &&& forall|i: int| 0 <= i < s.entries.len() ==> kind_frame(s.entries[i], s2.entries[i])
}

/// Evaluation only records dependencies: entries and the evaluation stack
/// are left as they were, and the result is absent or a value.
pub proof fn lemma_eval_frame(s: StoreModel, e: ExprModel)
    ensures
        eval_model(s, e).0.entries == s.entries,
        eval_model(s, e).0.computing == s.computing,
        eval_model(s, e).0.deps.len() == s.deps.len(),
    decreases e,
{
    match e {
        ExprModel::Lit(v) => {},
        ExprModel::Read(r) => {},
        ExprModel::IfElse(c, t, a) => {
            lemma_eval_frame(s, *c);
            let s1 = eval_model(s, *c).0;
            lemma_eval_frame(s1, *t);
            lemma_eval_frame(s1, *a);
        },
        ExprModel::Concat(a, b) | ExprModel::Add(a, b) | ExprModel::Mul(a, b) => {
            lemma_eval_frame(s, *a);
            let s1 = eval_model(s, *a).0;
            lemma_eval_frame(s1, *b);
        },
    }
}

/// Type soundness of evaluation: whenever evaluation of a statically typed
/// expression yields a value, that value carries the static type.
pub proof fn lemma_eval_type(s: StoreModel, e: ExprModel)
    requires
        static_type_model(e) is Some,
    ensures
        eval_model(s, e).1 matches Some(v) ==> Some(v.kind()) == static_type_model(e),
    decreases e,
{
    match e {
        ExprModel::Lit(v) => {},
        ExprModel::Read(r) => {},
        ExprModel::IfElse(c, t, a) => {
            let s1 = eval_model(s, *c).0;
            lemma_eval_type(s1, *t);
            lemma_eval_type(s1, *a);
        },
        ExprModel::Concat(a, b) | ExprModel::Add(a, b) | ExprModel::Mul(a, b) => {},
    }
}

/// `entry_frame` composes.
pub proof fn lemma_frame_trans(s: StoreModel, s1: StoreModel, s2: StoreModel)
    requires
        frame_ok(s, s1),
        frame_ok(s1, s2),
    ensures
        frame_ok(s, s2),
{
    assert forall|i: int| 0 <= i < s.entries.len() implies entry_frame(
        s.entries[i],
        s2.entries[i],
    ) by {
        assert(entry_frame(s.entries[i], s1.entries[i]));
        assert(entry_frame(s1.entries[i], s2.entries[i]));
    }
}

/// `kind_frame` composes.
pub proof fn lemma_kinds_trans(s: StoreModel, s1: StoreModel, s2: StoreModel)
    requires
        kinds_ok(s, s1),
        kinds_ok(s1, s2),
    ensures
        kinds_ok(s, s2),
{
    assert forall|i: int| 0 <= i < s.entries.len() implies kind_frame(
        s.entries[i],
        s2.entries[i],
    ) by {
        assert(kind_frame(s.entries[i], s1.entries[i]));
        assert(kind_frame(s1.entries[i], s2.entries[i]));
    }
}

/// The strong frame is a case of the weak one.
pub proof fn lemma_frame_implies_kinds(s: StoreModel, s2: StoreModel)
    requires
        frame_ok(s, s2),
    ensures
        kinds_ok(s, s2),
{
    assert forall|i: int| 0 <= i < s.entries.len() implies kind_frame(
        s.entries[i],
        s2.entries[i],
    ) by {
        assert(entry_frame(s.entries[i], s2.entries[i]));
    }
}

/// A store within the write frame of a well-formed store is well-formed.
pub proof fn lemma_kinds_wf(s: StoreModel, s2: StoreModel)
    requires
        wf_model(s),
        kinds_ok(s, s2),
    ensures
        wf_model(s2),
{
    assert forall|i: int| 0 <= i < s2.entries.len() implies entry_wf(s2.entries[i]) by {
        assert(kind_frame(s.entries[i], s2.entries[i]));
        assert(entry_wf(s.entries[i]));
    }
}

/// Invalidation propagation stays within its frame and preserves
/// well-formedness.
pub proof fn lemma_trigger_frame(s: StoreModel, dependency: usize, fuel: nat)
    requires
        wf_model(s),
    ensures
        frame_ok(s, trigger_model(s, dependency, fuel)),
        wf_model(trigger_model(s, dependency, fuel)),
    decreases fuel, 1int, 0int,
{
    if fuel == 0 {
    } else {
        lemma_trigger_list_frame(s, dependents_upto(s, dependency, s.deps.len() as int), 0, fuel);
    }
}

/// Recomputing a list of dependents stays within the frame and preserves
/// well-formedness.
pub proof fn lemma_trigger_list_frame(s: StoreModel, ids: Seq<usize>, j: int, fuel: nat)
    requires
        wf_model(s),
    ensures
        frame_ok(s, trigger_list_model(s, ids, j, fuel)),
        wf_model(trigger_list_model(s, ids, j, fuel)),
    decreases fuel, 0int, ids.len() - j,
{
    if fuel > 0 && 0 <= j < ids.len() {
        let s1 = exec_getter_model(s, ids[j], (fuel - 1) as nat);
        lemma_exec_getter_frame(s, ids[j], (fuel - 1) as nat);
        lemma_trigger_list_frame(s1, ids, j + 1, fuel);
        lemma_frame_trans(s, s1, trigger_list_model(s1, ids, j + 1, fuel));
    }
}

/// One recomputation stays within the frame and preserves well-formedness.
pub proof fn lemma_exec_getter_frame(s: StoreModel, id: usize, fuel: nat)
    requires
        wf_model(s),
    ensures
        frame_ok(s, exec_getter_model(s, id, fuel)),
        wf_model(exec_getter_model(s, id, fuel)),
    decreases fuel, 2int, 0int,
{
    if s.id_is_computed_model(id) {
        let getter = s.entries[id as int]->getter;
        let setter = s.entries[id as int]->setter;
        let s1 = StoreModel { computing: s.computing.push(id), ..s };
        let (s2, res) = eval_model(s1, getter);
        lemma_eval_frame(s1, getter);
        let s3 = StoreModel { computing: s2.computing.drop_last(), ..s2 };
        assert(s3.computing =~= s.computing);
        match res {
            Some(v) => {
                assert(entry_wf(s.entries[id as int]));
                lemma_eval_type(s1, getter);
                let s4 = StoreModel {
                    entries: s3.entries.update(
                        id as int,
                        EntryModel::Computed { getter, setter, cache: v },
                    ),
                    ..s3
                };
                assert(frame_ok(s, s4));
                assert(wf_model(s4)) by {
                    assert forall|i: int| 0 <= i < s4.entries.len() implies entry_wf(
                        s4.entries[i],
                    ) by {
                        assert(entry_wf(s.entries[i]));
                    }
                }
                lemma_trigger_frame(s4, id, fuel);
                lemma_frame_trans(s, s4, trigger_model(s4, id, fuel));
            },
            None => {},
        }
    }
}

/// A guarded write stays within the write frame and preserves
/// well-formedness.
pub proof fn lemma_set_any_kinds(s: StoreModel, r: Ref, data: ValueModel, fuel: nat)
    requires
        wf_model(s),
    ensures
        kinds_ok(s, set_any_model(s, r, data, fuel).0),
        wf_model(set_any_model(s, r, data, fuel).0),
    decreases fuel, 1int,
{
    if fuel == 0 {
    } else if s.id_is_value_model(r.id) {
        if s.entries[r.id as int]->value.kind() == data.kind() {
            let s1 = StoreModel {
                entries: s.entries.update(r.id as int, EntryModel::Leaf { value: data }),
                ..s
            };
            assert(kinds_ok(s, s1));
            lemma_kinds_wf(s, s1);
            lemma_trigger_frame(s1, r.id, (fuel - 1) as nat);
            lemma_frame_implies_kinds(s1, trigger_model(s1, r.id, (fuel - 1) as nat));
            lemma_kinds_trans(s, s1, trigger_model(s1, r.id, (fuel - 1) as nat));
        }
    } else if s.id_is_computed_model(r.id) {
        if s.entries[r.id as int]->cache.kind() == data.kind() {
            lemma_set_computed_kinds(s, r, data, (fuel - 1) as nat);
        }
    }
}

/// Running a setter stays within the write frame and preserves
/// well-formedness.
pub proof fn lemma_exec_setter_kinds(s: StoreModel, id: usize, data: ValueModel, fuel: nat)
    requires
        wf_model(s),
    ensures
        kinds_ok(s, exec_setter_model(s, id, data, fuel)),
        wf_model(exec_setter_model(s, id, data, fuel)),
    decreases fuel, 2int,
{
    match s.entries[id as int]->setter {
        Some(target) => lemma_set_any_kinds(s, target, data, fuel),
        None => {},
    }
}

/// Writing a computed entry of matching tag stays within the write frame
/// and preserves well-formedness.
pub proof fn lemma_set_computed_kinds(s: StoreModel, r: Ref, data: ValueModel, fuel: nat)
    requires
        wf_model(s),
        s.id_is_computed_model(r.id),
        s.entries[r.id as int]->cache.kind() == data.kind(),
    ensures
        kinds_ok(s, set_computed_model(s, r, data, fuel).0),
        wf_model(set_computed_model(s, r, data, fuel).0),
    decreases fuel, 3int,
{
    let s1 = exec_setter_model(s, r.id, data, fuel);
    lemma_exec_setter_kinds(s, r.id, data, fuel);
    let getter = s1.entries[r.id as int]->getter;
    let setter = s1.entries[r.id as int]->setter;
    let s2 = StoreModel {
        entries: s1.entries.update(
            r.id as int,
            EntryModel::Computed { getter, setter, cache: data },
        ),
        ..s1
    };
    assert(kind_frame(s.entries[r.id as int], s1.entries[r.id as int]));
    assert(kinds_ok(s1, s2)) by {
        assert forall|i: int| 0 <= i < s1.entries.len() implies kind_frame(
            s1.entries[i],
            s2.entries[i],
        ) by {}
    }
    lemma_kinds_trans(s, s1, s2);
    lemma_kinds_wf(s, s2);
}

} // verus!
