//! The laws of the engine, proved over the store model.
//!
//! Each law quantifies over every well-formed store and every input its
//! statement allows; the executable operations are tied to the same model
//! functions by their contracts.

use vstd::prelude::*;

use crate::computed::ExprModel;
use crate::computed::static_type_model;
use crate::data::ValueModel;
use crate::model::EntryModel;
use crate::model::StoreModel;
use crate::model::alloc_model;
use crate::model::computed_model;
use crate::model::dependents_upto;
use crate::model::entry_wf;
use crate::model::eval_model;
use crate::model::get_computed_model;
use crate::model::get_value_model;
use crate::model::lemma_eval_frame;
use crate::model::lemma_eval_type;
use crate::model::lemma_trigger_frame;
use crate::model::read_any_model;
use crate::model::set_computed_model;
use crate::model::set_dispatch_model;
use crate::model::set_value_model;
use crate::model::trigger_model;
use crate::model::wf_model;
use crate::reference::Ref;

verus! {

/// No entry's recorded dependencies contain `x`.
pub open spec fn no_dep_on(s: StoreModel, x: usize) -> bool {
    forall|j: int| 0 <= j < s.deps.len() ==> !s.deps[j].contains(x)
}

/// `x` denotes neither a leaf nor a computed entry.
pub open spec fn unknown_id(s: StoreModel, x: usize) -> bool {
    !s.id_is_value_model(x) && !s.id_is_computed_model(x)
}

/// Membership in a sequence extended by one element.
proof fn lemma_push_contains(sq: Seq<usize>, e: usize, x: usize)
    ensures
        sq.push(e).contains(x) == (sq.contains(x) || e == x),
{
    if sq.contains(x) {
        let i = choose|i: int| 0 <= i < sq.len() && sq[i] == x;
        assert(sq.push(e)[i] == x);
    }
    if e == x {
        assert(sq.push(e)[sq.len() as int] == x);
    }
    if sq.push(e).contains(x) {
        let i = choose|i: int| 0 <= i < sq.push(e).len() && sq.push(e)[i] == x;
        if i < sq.len() {
            assert(sq[i] == x);
        }
    }
}

/// Evaluation records only ids that denote an entry: no dependency on an
/// unknown id ever appears.
proof fn lemma_eval_no_new_dep(s: StoreModel, e: ExprModel, x: usize)
    requires
        unknown_id(s, x),
        no_dep_on(s, x),
    ensures
        no_dep_on(eval_model(s, e).0, x),
    decreases e,
{
    match e {
        ExprModel::Lit(v) => {},
        ExprModel::Read(r) => {
            if s.id_is_value_model(r.id) || s.id_is_computed_model(r.id) {
                let s1 = crate::model::record_dep(s, r.id);
                assert forall|j: int| 0 <= j < s1.deps.len() implies !s1.deps[j].contains(x) by {
                    if s.computing.len() > 0 {
                        let top = s.computing.last() as int;
                        if 0 <= top < s.deps.len() {
                            lemma_push_contains(s.deps[top], r.id, x);
                        }
                    }
                }
            }
        },
        ExprModel::IfElse(c, t, a) => {
            lemma_eval_no_new_dep(s, *c, x);
            lemma_eval_frame(s, *c);
            let s1 = eval_model(s, *c).0;
            lemma_eval_no_new_dep(s1, *t, x);
            lemma_eval_no_new_dep(s1, *a, x);
        },
        ExprModel::Concat(a, b) | ExprModel::Add(a, b) | ExprModel::Mul(a, b) => {
            lemma_eval_no_new_dep(s, *a, x);
            lemma_eval_frame(s, *a);
            let s1 = eval_model(s, *a).0;
            lemma_eval_no_new_dep(s1, *b, x);
        },
    }
}

/// An id no dependency record contains has no dependents.
proof fn lemma_dependents_empty(s: StoreModel, x: usize, n: int)
    requires
        no_dep_on(s, x),
        n <= s.deps.len(),
    ensures
        dependents_upto(s, x, n) == Seq::<usize>::empty(),
    decreases n,
{
    if n > 0 {
        lemma_dependents_empty(s, x, n - 1);
    }
}

/// Two stores whose entries answer every read alike.
pub open spec fn reads_agree(s: StoreModel, t: StoreModel) -> bool {
    forall|r: Ref| #![auto] read_any_model(s, r).1 == read_any_model(t, r).1
}

/// The value of an expression depends only on what reads return, never on
/// the dependency records or the evaluation stack.
proof fn lemma_eval_reads_agree(s: StoreModel, t: StoreModel, e: ExprModel)
    requires
        reads_agree(s, t),
    ensures
        eval_model(s, e).1 == eval_model(t, e).1,
    decreases e,
{
    match e {
        ExprModel::Lit(v) => {},
        ExprModel::Read(r) => {},
        ExprModel::IfElse(c, t2, a) => {
            lemma_eval_reads_agree(s, t, *c);
            lemma_eval_frame(s, *c);
            lemma_eval_frame(t, *c);
            let s1 = eval_model(s, *c).0;
            let t1 = eval_model(t, *c).0;
            assert(reads_agree(s1, t1)) by {
                assert forall|r: Ref| #![auto] read_any_model(s1, r).1 == read_any_model(
                    t1,
                    r,
                ).1 by {
                    assert(read_any_model(s, r).1 == read_any_model(t, r).1);
                }
            }
            lemma_eval_reads_agree(s1, t1, *t2);
            lemma_eval_reads_agree(s1, t1, *a);
        },
        ExprModel::Concat(a, b) | ExprModel::Add(a, b) | ExprModel::Mul(a, b) => {
            lemma_eval_reads_agree(s, t, *a);
            lemma_eval_frame(s, *a);
            lemma_eval_frame(t, *a);
            let s1 = eval_model(s, *a).0;
            let t1 = eval_model(t, *a).0;
            assert(reads_agree(s1, t1)) by {
                assert forall|r: Ref| #![auto] read_any_model(s1, r).1 == read_any_model(
                    t1,
                    r,
                ).1 by {
                    assert(read_any_model(s, r).1 == read_any_model(t, r).1);
                }
            }
            lemma_eval_reads_agree(s1, t1, *b);
        },
    }
}

/// Defining a leaf with some value and immediately reading it returns that
/// value, through the typed read and through the generic read alike.
pub proof fn lemma_define_value_then_read(s: StoreModel, data: ValueModel)
    requires
        wf_model(s),
        s.entries.len() < usize::MAX as nat,
    ensures
        ({
            let (s1, r) = crate::model::value_model(s, data);
            &&& get_value_model(s1, r).1 == Some(data)
            &&& read_any_model(s1, r).1 == Some(data)
        }),
{
}

/// Writing a second value to a leaf returns the first one, and a subsequent
/// read returns the second: the recomputation cascade a write triggers
/// never touches leaf values.
pub proof fn lemma_write_value_then_read(s: StoreModel, r: Ref, v2: ValueModel, fuel: nat)
    requires
        wf_model(s),
        s.id_is_value_model(r.id),
        s.entries[r.id as int]->value.kind() == v2.kind(),
        r.kind == v2.kind(),
    ensures
        ({
            let (s2, prev) = set_value_model(s, r, v2, fuel);
            &&& prev == s.entries[r.id as int]->value
            &&& get_value_model(s2, r).1 == Some(v2)
            &&& read_any_model(s2, r).1 == Some(v2)
        }),
{
    let s1 = StoreModel {
        entries: s.entries.update(r.id as int, EntryModel::Leaf { value: v2 }),
        ..s
    };
    assert(wf_model(s1)) by {
        assert forall|k: int| 0 <= k < s1.entries.len() implies entry_wf(s1.entries[k]) by {
            assert(entry_wf(s.entries[k]));
        }
    }
    lemma_trigger_frame(s1, r.id, fuel);
    assert(crate::model::entry_frame(
        s1.entries[r.id as int],
        trigger_model(s1, r.id, fuel).entries[r.id as int],
    ));
}

/// Defining a computed entry immediately caches the result of evaluating
/// its getter against the store as it stood at definition time, and a
/// handle is issued exactly when the getter is well-typed and that first
/// evaluation succeeds. Holds for every fresh id that no stale dependency
/// record mentions.
pub proof fn lemma_define_computed_caches_getter(
    s: StoreModel,
    getter: ExprModel,
    setter: Option<Ref>,
    fuel: nat,
)
    requires
        wf_model(s),
        s.entries.len() < usize::MAX as nat,
        no_dep_on(s, s.entries.len() as usize),
    ensures
        ({
            let (s1, handle) = computed_model(s, getter, setter, fuel);
            &&& (handle is Some <==> static_type_model(getter) is Some && eval_model(
                s,
                getter,
            ).1 is Some)
            &&& (handle matches Some(r) ==> get_computed_model(s1, r).1 == eval_model(
                s,
                getter,
            ).1)
        }),
{
    let id = s.entries.len() as usize;
    if static_type_model(getter) is Some {
        let k = static_type_model(getter)->0;
        let s0 = alloc_model(s).0;
        let sc = StoreModel { computing: s0.computing.push(id), ..s0 };
        assert(reads_agree(sc, s)) by {
            assert forall|r: Ref| #![auto] read_any_model(sc, r).1 == read_any_model(s, r).1 by {
                if (r.id as int) < s.entries.len() {
                    assert(sc.entries[r.id as int] == s.entries[r.id as int]);
                }
            }
        }
        lemma_eval_reads_agree(sc, s, getter);
        let (s2, res) = eval_model(sc, getter);
        lemma_eval_frame(sc, getter);
        assert(unknown_id(sc, id));
        assert(no_dep_on(sc, id)) by {
            assert forall|j: int| 0 <= j < sc.deps.len() implies !sc.deps[j].contains(id) by {
                if j < s.deps.len() {
                    assert(sc.deps[j] == s.deps[j]);
                } else {
                    assert(sc.deps[j] == Seq::<usize>::empty());
                }
            }
        }
        lemma_eval_no_new_dep(sc, getter, id);
        match res {
            Some(v) => {
                let s3 = StoreModel { computing: s2.computing.drop_last(), ..s2 };
                let s4 = StoreModel {
                    entries: s3.entries.update(
                        id as int,
                        EntryModel::Computed { getter, setter, cache: v },
                    ),
                    ..s3
                };
                lemma_dependents_empty(s4, id, s4.deps.len() as int);
                if fuel > 0 {
                    assert(trigger_model(s4, id, fuel) == crate::model::trigger_list_model(
                        s4,
                        Seq::<usize>::empty(),
                        0,
                        fuel,
                    ));
                }
                assert(trigger_model(s4, id, fuel) == s4);
                lemma_eval_type(sc, getter);
            },
            None => {},
        }
    }
}

/// Writing through a computed entry whose setter pushes into an upstream
/// leaf updates that leaf's observable value, and also sets the computed
/// entry's own cached result to the written value.
pub proof fn lemma_set_computed_pushes_upstream(
    s: StoreModel,
    r: Ref,
    t: Ref,
    data: ValueModel,
    fuel: nat,
)
    requires
        wf_model(s),
        s.id_is_computed_model(r.id),
        s.entries[r.id as int]->setter == Some(t),
        s.entries[r.id as int]->cache.kind() == data.kind(),
        r.kind == data.kind(),
        s.id_is_value_model(t.id),
        s.entries[t.id as int]->value.kind() == data.kind(),
        t.kind == data.kind(),
        fuel >= 1,
    ensures
        ({
            let (s2, _) = set_computed_model(s, r, data, fuel);
            &&& s2.entries[t.id as int] == EntryModel::Leaf { value: data }
            &&& get_value_model(s2, t).1 == Some(data)
            &&& get_computed_model(s2, r).1 == Some(data)
        }),
{
    assert(t.id != r.id);
    let sa = StoreModel {
        entries: s.entries.update(t.id as int, EntryModel::Leaf { value: data }),
        ..s
    };
    assert(wf_model(sa)) by {
        assert forall|k: int| 0 <= k < sa.entries.len() implies entry_wf(sa.entries[k]) by {
            assert(entry_wf(s.entries[k]));
        }
    }
    lemma_trigger_frame(sa, t.id, (fuel - 1) as nat);
    let s1 = trigger_model(sa, t.id, (fuel - 1) as nat);
    assert(crate::model::entry_frame(sa.entries[t.id as int], s1.entries[t.id as int]));
    assert(crate::model::entry_frame(sa.entries[r.id as int], s1.entries[r.id as int]));
    assert(set_value_model(s, t, data, (fuel - 1) as nat).0 == s1);
    assert(crate::model::exec_setter_model(s, r.id, data, fuel) == s1);
}

/// Reading any entry with a mismatched type tag returns an absent result —
/// through the typed reads and through the generic read alike.
pub proof fn lemma_read_mismatched_tag_absent(s: StoreModel, r: Ref)
    requires
        s.id_is_value_model(r.id) ==> s.entries[r.id as int]->value.kind() != r.kind,
        s.id_is_computed_model(r.id) ==> s.entries[r.id as int]->cache.kind() != r.kind,
    ensures
        read_any_model(s, r).1 == None::<ValueModel>,
        get_value_model(s, r).1 == None::<ValueModel>,
        get_computed_model(s, r).1 == None::<ValueModel>,
{
}

/// A handle is a plain value: any copy of it addresses the identical entry,
/// so reads and writes through either copy mean the same operation.
pub proof fn lemma_handle_copies_alias(s: StoreModel, r: Ref, c: Ref, data: ValueModel, fuel: nat)
    requires
        c == r,
    ensures
        read_any_model(s, c) == read_any_model(s, r),
        set_dispatch_model(s, c, data, fuel) == set_dispatch_model(s, r, data, fuel),
{
}

/// An id keeps denoting what it denotes, for its entire lifetime: a write
/// never changes which ids are leaves and which are computed entries, never
/// changes a stored value's tag, and never touches a computed entry's
/// descriptor.
pub proof fn lemma_write_preserves_denotation(s: StoreModel, r: Ref, data: ValueModel, fuel: nat)
    requires
        wf_model(s),
        crate::model::set_ok(s, r, data),
    ensures
        crate::model::kinds_ok(s, set_dispatch_model(s, r, data, fuel).0),
{
    if s.id_is_value_model(r.id) {
        let s1 = StoreModel {
            entries: s.entries.update(r.id as int, EntryModel::Leaf { value: data }),
            ..s
        };
        assert(crate::model::kinds_ok(s, s1));
        assert(wf_model(s1)) by {
            assert forall|k: int| 0 <= k < s1.entries.len() implies entry_wf(s1.entries[k]) by {
                assert(entry_wf(s.entries[k]));
            }
        }
        lemma_trigger_frame(s1, r.id, fuel);
        crate::model::lemma_frame_implies_kinds(s1, trigger_model(s1, r.id, fuel));
        crate::model::lemma_kinds_trans(s, s1, trigger_model(s1, r.id, fuel));
    } else if s.id_is_computed_model(r.id) {
        crate::model::lemma_set_computed_kinds(s, r, data, fuel);
    }
}

} // verus!

