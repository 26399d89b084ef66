//! A semantic rewriter and field checker for InfluxQL `SELECT` statements.
//!
//! Given a parsed statement and a catalogue of measurement schemas, the
//! rewrite resolves the `FROM` clause, expands wildcards and regexes,
//! annotates column references with their types, prunes sources that project
//! no field, guarantees a leading `time` projection and gives every
//! projection a distinct alias. A separate analysis validates the projection
//! list against the per-function argument rules and names the projection
//! type.

use vstd::prelude::*;

pub mod ast;
pub mod authz;
pub mod error;
pub mod expand;
pub mod field_checker;
pub mod field_mapper;
pub mod ir;
pub mod messages;
pub mod regex_support;
pub mod render;
pub mod rewriter;
pub mod schema;
pub mod selectors;
pub mod text;
pub mod type_evaluator;

verus! {

} // verus!
