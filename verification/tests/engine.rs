//! Scenario tests for the reactive engine.

use rea::ContextRef;
use rea::Expr;
use rea::Kind;
use rea::Ref;
use rea::Value;

fn text(s: &str) -> Value {
    Value::Text(s.to_string())
}

#[test]
fn define_leaf_then_read() {
    let mut context = ContextRef::new();
    let a = context.value(Value::Int(7));
    assert_eq!(context.get(a), Some(Value::Int(7)));
    let b = context.value(Value::Bool(true));
    assert_eq!(context.get(b), Some(Value::Bool(true)));
    let c = context.value(text("hello"));
    assert_eq!(context.get(c), Some(text("hello")));
}

#[test]
fn write_leaf_returns_previous_and_updates() {
    let mut context = ContextRef::new();
    let a = context.value(Value::Int(1));
    let previous = context.set(a, Value::Int(2));
    assert_eq!(previous, Value::Int(1));
    assert_eq!(context.get(a), Some(Value::Int(2)));
}

#[test]
fn define_computed_caches_immediately() {
    let mut context = ContextRef::new();
    let a = context.value(Value::Int(21));
    let doubled = context
        .computed(
            Expr::Mul(Box::new(Expr::Read(a)), Box::new(Expr::Lit(Value::Int(2)))),
            None,
        )
        .unwrap();
    // The cache was populated at definition time; reading returns it.
    assert_eq!(context.get(doubled), Some(Value::Int(42)));
}

#[test]
fn push_semantics_recompute_on_write() {
    let mut context = ContextRef::new();
    let a = context.value(Value::Int(1));
    let b = context
        .computed(
            Expr::Mul(Box::new(Expr::Read(a)), Box::new(Expr::Lit(Value::Int(2)))),
            None,
        )
        .unwrap();
    assert_eq!(context.get(b), Some(Value::Int(2)));
    // Writing the leaf recomputes the dependent eagerly, with no read of b
    // in between.
    context.set(a, Value::Int(5));
    assert_eq!(context.get(b), Some(Value::Int(10)));
}

#[test]
fn conditional_dependency_tracking() {
    let mut context = ContextRef::new();
    let skip_first_name = context.value(Value::Bool(true));
    let first_name = context.value(text("Hello"));
    let last_name = context.value(text("World"));
    let full_name = context
        .computed(
            Expr::IfElse(
                Box::new(Expr::Read(skip_first_name)),
                Box::new(Expr::Read(last_name)),
                Box::new(Expr::Concat(
                    Box::new(Expr::Read(first_name)),
                    Box::new(Expr::Concat(
                        Box::new(Expr::Lit(text(" "))),
                        Box::new(Expr::Read(last_name)),
                    )),
                )),
            ),
            None,
        )
        .unwrap();
    assert_eq!(context.get(full_name), Some(text("World")));
    context.set(skip_first_name, Value::Bool(false));
    assert_eq!(context.get(full_name), Some(text("Hello World")));
    context.set(first_name, text("Rea"));
    assert_eq!(context.get(full_name), Some(text("Rea World")));
    context.set(skip_first_name, Value::Bool(true));
    assert_eq!(context.get(full_name), Some(text("World")));
    // The last name is read on every branch, so it always propagates.
    context.set(last_name, text("Universe"));
    assert_eq!(context.get(full_name), Some(text("Universe")));
    // The first name is not read while skipping; its value does not show.
    context.set(first_name, text("Somebody"));
    assert_eq!(context.get(full_name), Some(text("Universe")));
}

#[test]
fn computed_setter_pushes_upstream() {
    let mut context = ContextRef::new();
    let leaf = context.value(Value::Int(10));
    let mirror = context
        .computed(Expr::Read(leaf), Some(leaf))
        .unwrap();
    assert_eq!(context.get(mirror), Some(Value::Int(10)));
    // The setter pushes into the leaf; the push recomputes the mirror, so
    // the "previous" cached result returned is the recomputed one.
    let previous = context.set(mirror, Value::Int(42));
    assert_eq!(previous, Value::Int(42));
    assert_eq!(context.get(leaf), Some(Value::Int(42)));
    assert_eq!(context.get(mirror), Some(Value::Int(42)));
}

#[test]
fn computed_setter_without_dependency() {
    let mut context = ContextRef::new();
    let leaf = context.value(Value::Int(10));
    // The getter does not read the leaf, so the push recomputes nothing and
    // the previous cached result is the one from definition time.
    let fixed = context
        .computed(Expr::Lit(Value::Int(5)), Some(leaf))
        .unwrap();
    let previous = context.set(fixed, Value::Int(42));
    assert_eq!(previous, Value::Int(5));
    assert_eq!(context.get(leaf), Some(Value::Int(42)));
    assert_eq!(context.get(fixed), Some(Value::Int(42)));
}

#[test]
fn computed_without_setter_only_overwrites_cache() {
    let mut context = ContextRef::new();
    let leaf = context.value(Value::Int(3));
    let tripled = context
        .computed(
            Expr::Mul(Box::new(Expr::Read(leaf)), Box::new(Expr::Lit(Value::Int(3)))),
            None,
        )
        .unwrap();
    let previous = context.set(tripled, Value::Int(0));
    assert_eq!(previous, Value::Int(9));
    assert_eq!(context.get(leaf), Some(Value::Int(3)));
    assert_eq!(context.get(tripled), Some(Value::Int(0)));
    // The next write to the leaf recomputes over the overwritten cache.
    context.set(leaf, Value::Int(4));
    assert_eq!(context.get(tripled), Some(Value::Int(12)));
}

#[test]
fn mismatched_tag_reads_absent() {
    let mut context = ContextRef::new();
    let a = context.value(Value::Int(7));
    let wrong = Ref::new(a.id(), Kind::Bool);
    assert_eq!(context.get(wrong), None);
    let c = context
        .computed(Expr::Lit(text("cached")), None)
        .unwrap();
    let wrong_computed = Ref::new(c.id(), Kind::Int);
    assert_eq!(context.get(wrong_computed), None);
    // The right tags still read fine.
    assert_eq!(context.get(a), Some(Value::Int(7)));
    assert_eq!(context.get(c), Some(text("cached")));
}

#[test]
fn unknown_id_reads_absent_and_write_hands_back() {
    let mut context = ContextRef::new();
    let stranger = Ref::new(999, Kind::Int);
    assert_eq!(context.get(stranger), None);
    assert_eq!(context.set(stranger, Value::Int(1)), Value::Int(1));
}

#[test]
fn handle_copies_address_the_same_entry() {
    let mut context = ContextRef::new();
    let a = context.value(Value::Int(1));
    let copy = a;
    assert_eq!(copy, a);
    context.set(copy, Value::Int(2));
    assert_eq!(context.get(a), Some(Value::Int(2)));
    assert_eq!(context.get(copy), Some(Value::Int(2)));
}

#[test]
fn handles_report_their_entry_kind() {
    let mut context = ContextRef::new();
    let a = context.value(Value::Int(1));
    let c = context.computed(Expr::Lit(Value::Int(2)), None).unwrap();
    assert!(a.is_value(&context));
    assert!(!a.is_computed(&context));
    assert!(c.is_computed(&context));
    assert!(!c.is_value(&context));
    let stranger = Ref::new(999, Kind::Int);
    assert!(!stranger.is_value(&context));
    assert!(!stranger.is_computed(&context));
}

#[test]
fn handle_get_and_set_delegate() {
    let mut context = ContextRef::new();
    let a = context.value(Value::Int(1));
    assert_eq!(a.get(&mut context), Some(Value::Int(1)));
    let previous = a.set(&mut context, Value::Int(5));
    assert_eq!(previous, Value::Int(1));
    assert_eq!(a.get(&mut context), Some(Value::Int(5)));
}

#[test]
fn ill_typed_getter_is_rejected() {
    let mut context = ContextRef::new();
    // The condition of the branch is an integer, not a boolean.
    let bad = context.computed(
        Expr::IfElse(
            Box::new(Expr::Lit(Value::Int(1))),
            Box::new(Expr::Lit(Value::Int(2))),
            Box::new(Expr::Lit(Value::Int(3))),
        ),
        None,
    );
    assert!(bad.is_none());
    // Concatenation of integers is ill-typed too.
    let bad2 = context.computed(
        Expr::Concat(
            Box::new(Expr::Lit(Value::Int(1))),
            Box::new(Expr::Lit(Value::Int(2))),
        ),
        None,
    );
    assert!(bad2.is_none());
}

#[test]
fn overflowing_getter_fails_definition() {
    let mut context = ContextRef::new();
    let bad = context.computed(
        Expr::Mul(
            Box::new(Expr::Lit(Value::Int(i64::MAX))),
            Box::new(Expr::Lit(Value::Int(2))),
        ),
        None,
    );
    assert!(bad.is_none());
    let bad_sum = context.computed(
        Expr::Add(
            Box::new(Expr::Lit(Value::Int(i64::MAX))),
            Box::new(Expr::Lit(Value::Int(1))),
        ),
        None,
    );
    assert!(bad_sum.is_none());
    let fine = context.computed(
        Expr::Add(
            Box::new(Expr::Lit(Value::Int(40))),
            Box::new(Expr::Lit(Value::Int(2))),
        ),
        None,
    );
    assert_eq!(context.get(fine.unwrap()), Some(Value::Int(42)));
}

#[test]
fn getter_reading_unknown_id_fails_definition() {
    let mut context = ContextRef::new();
    let bad = context.computed(Expr::Read(Ref::new(999, Kind::Int)), None);
    assert!(bad.is_none());
}

#[test]
fn chained_computed_entries_cascade() {
    let mut context = ContextRef::new();
    let a = context.value(Value::Int(1));
    let b = context
        .computed(
            Expr::Add(Box::new(Expr::Read(a)), Box::new(Expr::Lit(Value::Int(1)))),
            None,
        )
        .unwrap();
    let c = context
        .computed(
            Expr::Mul(Box::new(Expr::Read(b)), Box::new(Expr::Lit(Value::Int(10)))),
            None,
        )
        .unwrap();
    assert_eq!(context.get(c), Some(Value::Int(20)));
    context.set(a, Value::Int(5));
    assert_eq!(context.get(b), Some(Value::Int(6)));
    assert_eq!(context.get(c), Some(Value::Int(60)));
}

#[test]
fn diamond_graph_recomputes_along_both_paths() {
    let mut context = ContextRef::new();
    let a = context.value(Value::Int(1));
    let b = context
        .computed(
            Expr::Add(Box::new(Expr::Read(a)), Box::new(Expr::Lit(Value::Int(1)))),
            None,
        )
        .unwrap();
    let c = context
        .computed(
            Expr::Add(Box::new(Expr::Read(b)), Box::new(Expr::Lit(Value::Int(1)))),
            None,
        )
        .unwrap();
    let d = context
        .computed(
            Expr::Add(
                Box::new(Expr::Read(b)),
                Box::new(Expr::Read(c)),
            ),
            None,
        )
        .unwrap();
    assert_eq!(context.get(d), Some(Value::Int(5)));
    context.set(a, Value::Int(2));
    assert_eq!(context.get(b), Some(Value::Int(3)));
    assert_eq!(context.get(c), Some(Value::Int(4)));
    assert_eq!(context.get(d), Some(Value::Int(7)));
}

#[test]
fn dependency_cycle_stops_instead_of_diverging() {
    let mut context = ContextRef::new();
    let cond = context.value(Value::Bool(false));
    let seed = context.value(Value::Int(0));
    // Ids are minted densely, so the entry defined after `b` will get id 3;
    // `b` reads it only once the condition is flipped.
    let forward = Ref::new(3, Kind::Int);
    let b = context
        .computed(
            Expr::IfElse(
                Box::new(Expr::Read(cond)),
                Box::new(Expr::Read(forward)),
                Box::new(Expr::Read(seed)),
            ),
            None,
        )
        .unwrap();
    let c = context
        .computed(
            Expr::Add(Box::new(Expr::Read(b)), Box::new(Expr::Lit(Value::Int(1)))),
            None,
        )
        .unwrap();
    assert_eq!(c.id(), forward.id());
    // Close the cycle: b now reads c while c reads b. The write cascades
    // around the cycle until the evaluation budget runs out — and returns.
    context.set(cond, Value::Bool(true));
    assert!(context.get(b).is_some());
    assert!(context.get(c).is_some());
}
