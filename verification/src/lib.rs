//! Compile-time core of an embeddable scripting language: item interning,
//! meta resolution, constant-expression evaluation under a budget, lexical
//! scopes with pop-order enforcement, and stack-machine instruction emission.

pub mod assembler;
pub mod budget;
pub mod error;
pub mod hir;
pub mod interp;
pub mod ir;
pub mod item;
pub mod meta;
pub mod pool;
pub mod query;
pub mod scopes;
pub mod span;
pub mod visitor;
pub mod warning;
pub mod value;

use vstd::prelude::*;

verus! {

} // verus!
