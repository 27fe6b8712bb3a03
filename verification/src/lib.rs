//! A tree-walking evaluator for a small imperative expression language with
//! integers, booleans, lexical blocks, conditionals, loops, and curried
//! first-order functions.
//!
//! The evaluator consumes an already-parsed syntax tree ([`ast::Expr`]) and
//! reduces it to a [`ast::Value`], executing side effects (bindings, mutation,
//! printing) against a scope-chain environment ([`env::Env`]). Every step of
//! the evaluator is specified by a fuel-indexed definitional interpreter over
//! mathematical models of the syntax tree and the environment
//! ([`semantics`]), and the executable evaluator is proved to return exactly
//! what that interpreter prescribes.

pub mod ast;
pub mod env;
pub mod errors;
pub mod eval;
pub mod props;
pub mod semantics;
