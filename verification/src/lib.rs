//! Predicate pushdown for a lazy query planner: rewrites a declarative plan
//! tree so that row filters run as close to the data sources as each node's
//! safety rule allows, without changing the query's observable result.
//!
//! The plan model lives in [`plan`], the expression model in [`expr`], the
//! keyed filter accumulator in [`acc`], and the pass itself in [`pushdown`];
//! [`laws`] states and proves the structural guarantees of the rewrite.

pub mod acc;
pub mod builder;
pub mod expr;
pub mod laws;
pub mod plan;
pub mod pushdown;
pub mod schema;
