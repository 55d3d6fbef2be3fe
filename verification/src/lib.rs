//! A fine-grained reactive computation engine.
//!
//! The store holds mutable leaf values and derived computed entries behind
//! uniform numeric handles. Reads performed while a computed entry is being
//! evaluated record dependency edges; writing a leaf eagerly recomputes every
//! entry whose recorded dependencies contain the written id.

pub mod computed;
pub mod context;
pub mod context_ref;
pub mod data;
pub mod laws;
pub mod model;
pub mod reference;
pub mod value;

pub use computed::Expr;
pub use context_ref::ContextRef;
pub use data::Kind;
pub use data::Value;
pub use reference::Ref;
