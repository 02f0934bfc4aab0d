//! Lowering of closed sum types with dispatchable behaviour.
//!
//! A trait with a closed list of variants has its items defined piecewise, by
//! a `match` on types. Lowering compiles every such `match` into one
//! definition for each variant. It rests on three things, each verified
//! against a mathematical model of the syntax:
//!
//! - capture-avoiding substitution of one generic parameter in a syntax tree
//!   ([`syntax`], [`occurrence`], [`subst`], [`binder`], [`arms`], [`scoped`],
//!   [`substitutable`]);
//! - renaming of parameters whose names are in conflict ([`conflict`],
//!   [`rename`], [`params`]);
//! - closure conversion, which finds the parameters of the scopes round an
//!   expression that the expression depends on ([`indirection`]).
//!
//! The lowering itself is in [`lower`], with [`agreement`], [`depend`],
//! [`merge`] and [`dispatch`]; [`laws`] states what holds of all of it.

pub mod agreement;
pub mod arms;
pub mod binder;
pub mod conflict;
pub mod depend;
pub mod dispatch;
pub mod error;
pub mod expr;
pub mod generics;
pub mod indirection;
pub mod item;
pub mod laws;
pub mod lower;
pub mod merge;
pub mod occurrence;
pub mod output;
pub mod params;
pub mod rename;
pub mod scoped;
pub mod subst;
pub mod substitutable;
pub mod syntax;
pub mod tokens;
