//! Computed entries: getter expressions and optional setters.
//!
//! A computed entry is described by a getter, a small expression evaluated
//! against the store, and an optional setter, a target handle into which a
//! written value is pushed upstream. Both are plain data, so the engine that
//! evaluates them is verified in full.

use vstd::prelude::*;

use crate::data::Kind;
use crate::data::Value;
use crate::data::ValueModel;
use crate::reference::Ref;

verus! {

/// A getter expression, evaluated against the store. Reads performed during
/// evaluation are attributed to the entry under evaluation as dependencies.
#[derive(Debug)]
pub enum Expr {
    /// A constant value.
    Lit(Value),
    /// The current value of the addressed entry (leaf or computed).
    Read(Ref),
    /// `if cond { then } else { alt }`; the condition must be boolean.
    IfElse(Box<Expr>, Box<Expr>, Box<Expr>),
    /// Concatenation of two text values.
    Concat(Box<Expr>, Box<Expr>),
    /// Sum of two integer values; overflow makes evaluation fail.
    Add(Box<Expr>, Box<Expr>),
    /// Product of two integer values; overflow makes evaluation fail.
    Mul(Box<Expr>, Box<Expr>),
}

/// Mathematical model of a getter expression.
pub ghost enum ExprModel {
    Lit(ValueModel),
    Read(Ref),
    IfElse(Box<ExprModel>, Box<ExprModel>, Box<ExprModel>),
    Concat(Box<ExprModel>, Box<ExprModel>),
    Add(Box<ExprModel>, Box<ExprModel>),
    Mul(Box<ExprModel>, Box<ExprModel>),
}

/// The model of an expression.
pub open spec fn expr_model(e: Expr) -> ExprModel
    decreases e,
{
    match e {
        Expr::Lit(v) => ExprModel::Lit(v@),
        Expr::Read(r) => ExprModel::Read(r),
        Expr::IfElse(c, t, a) => ExprModel::IfElse(
            Box::new(expr_model(*c)),
            Box::new(expr_model(*t)),
            Box::new(expr_model(*a)),
        ),
        Expr::Concat(a, b) => ExprModel::Concat(Box::new(expr_model(*a)), Box::new(expr_model(*b))),
        Expr::Add(a, b) => ExprModel::Add(Box::new(expr_model(*a)), Box::new(expr_model(*b))),
        Expr::Mul(a, b) => ExprModel::Mul(Box::new(expr_model(*a)), Box::new(expr_model(*b))),
    }
}

impl View for Expr {
    type V = ExprModel;

    open spec fn view(&self) -> ExprModel {
        expr_model(*self)
    }
}

/// The static type of a modelled expression: the tag its evaluation yields
/// whenever it succeeds, or `None` for an ill-typed expression.
pub open spec fn static_type_model(e: ExprModel) -> Option<Kind>
    decreases e,
{
    match e {
        ExprModel::Lit(v) => Some(v.kind()),
        ExprModel::Read(r) => Some(r.kind),
        ExprModel::IfElse(c, t, a) => if static_type_model(*c) == Some(Kind::Bool)
            && static_type_model(*t) is Some && static_type_model(*t) == static_type_model(*a) {
            static_type_model(*t)
        } else {
            None
        },
        ExprModel::Concat(a, b) => if static_type_model(*a) == Some(Kind::Text)
            && static_type_model(*b) == Some(Kind::Text) {
            Some(Kind::Text)
        } else {
            None
        },
        ExprModel::Add(a, b) | ExprModel::Mul(a, b) => if static_type_model(*a) == Some(Kind::Int)
            && static_type_model(*b) == Some(Kind::Int) {
            Some(Kind::Int)
        } else {
            None
        },
    }
}

impl Expr {
    /// Computes the static type of this expression, or `None` if it is
    /// ill-typed and its evaluation could never succeed.
    pub fn static_type(&self) -> (r: Option<Kind>)
        ensures
            r == static_type_model(self@),
        decreases *self,
    {
        match self {
            Expr::Lit(v) => Some(v.kind()),
            Expr::Read(r) => Some(r.kind),
            Expr::IfElse(c, t, a) => {
                let ct = c.static_type();
                let tt = t.static_type();
                let at = a.static_type();
                if ct == Some(Kind::Bool) && tt.is_some() && tt == at {
                    tt
                } else {
                    None
                }
            },
            Expr::Concat(a, b) => {
                if a.static_type() == Some(Kind::Text) && b.static_type() == Some(Kind::Text) {
                    Some(Kind::Text)
                } else {
                    None
                }
            },
            Expr::Add(a, b) => {
                if a.static_type() == Some(Kind::Int) && b.static_type() == Some(Kind::Int) {
                    Some(Kind::Int)
                } else {
                    None
                }
            },
            Expr::Mul(a, b) => {
                if a.static_type() == Some(Kind::Int) && b.static_type() == Some(Kind::Int) {
                    Some(Kind::Int)
                } else {
                    None
                }
            },
        }
    }
}

impl Clone for Expr {
    /// Clones the expression; the copy models the same expression.
    fn clone(&self) -> (r: Self)
        ensures
            r@ == self@,
        decreases *self,
    {
        match self {
            Expr::Lit(v) => Expr::Lit(v.clone()),
            Expr::Read(r) => Expr::Read(*r),
            Expr::IfElse(c, t, a) => Expr::IfElse(
                Box::new((**c).clone()),
                Box::new((**t).clone()),
                Box::new((**a).clone()),
            ),
            Expr::Concat(a, b) => Expr::Concat(Box::new((**a).clone()), Box::new((**b).clone())),
            Expr::Add(a, b) => Expr::Add(Box::new((**a).clone()), Box::new((**b).clone())),
            Expr::Mul(a, b) => Expr::Mul(Box::new((**a).clone()), Box::new((**b).clone())),
        }
    }
}

/// The stored descriptor of a computed entry: a getter expression and an
/// optional setter target into which written values are pushed upstream.
#[derive(Debug)]
pub struct ComputedStore {
    getter: Expr,
    setter: Option<Ref>,
}

impl ComputedStore {
    /// Builds a descriptor from a getter and an optional setter target.
    pub fn new(getter: Expr, setter: Option<Ref>) -> (s: Self)
        ensures
            s.getter_spec() == getter@,
            s.setter_spec() == setter,
    {
        ComputedStore { getter, setter }
    }

    /// The model of the stored getter expression.
    pub closed spec fn getter_spec(&self) -> ExprModel {
        self.getter@
    }

    /// The stored setter target, if any.
    pub closed spec fn setter_spec(&self) -> Option<Ref> {
        self.setter
    }

    /// The getter expression.
    pub fn get(&self) -> (r: &Expr)
        ensures
            r@ == self.getter_spec(),
    {
        &self.getter
    }

    /// The setter target, if any.
    pub fn set(&self) -> (r: Option<Ref>)
        ensures
            r == self.setter_spec(),
    {
        self.setter
    }
}

impl Clone for ComputedStore {
    /// Clones the descriptor; the copy models the same getter and setter.
    fn clone(&self) -> (r: Self)
        ensures
            r.getter_spec() == self.getter_spec(),
            r.setter_spec() == self.setter_spec(),
    {
        ComputedStore { getter: self.getter.clone(), setter: self.setter }
    }
}

} // verus!
