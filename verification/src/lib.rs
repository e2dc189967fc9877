//! Core of a cluster security auditor: a resource cache, a compiled
//! condition language with its evaluator, a rule store, a findings
//! pipeline, and the decision logic of the per-kind watch loops.

pub mod cache;
pub mod condition;
pub mod eval;
pub mod parser;
pub mod pipeline;
pub mod rules;
pub mod watch;
pub mod doc;
pub mod types;
