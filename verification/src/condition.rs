//! The compiled condition language: a tree of comparisons,
//! quantifiers over wildcard-expanded paths, cache-wide aggregates
//! and boolean connectives, built once when the rules are loaded.

use vstd::prelude::*;
use crate::doc::{PathStep, StepS, path_view};

verus! {

/// Comparison operator of a per-resource check.
#[derive(Clone, Copy, PartialEq, Eq, Structural, Debug)]
pub enum CmpOp {
    Eq,
    Ne,
    Exists,
    NotExists,
}

/// Quantifier over a wildcard expansion.
#[derive(Clone, Copy, PartialEq, Eq, Structural, Debug)]
pub enum Quant {
    Any,
    All,
}

/// Comparison operator of an aggregate count check.
#[derive(Clone, Copy, PartialEq, Eq, Structural, Debug)]
pub enum AggOp {
    Eq,
    Ne,
    Lt,
    Le,
    Gt,
    Ge,
}

/// Namespace scope of an aggregate count: the namespace of the
/// resource under evaluation, or the whole cluster.
#[derive(Clone, Copy, PartialEq, Eq, Structural, Debug)]
pub enum NsScope {
    Current,
    Cluster,
}

/// A literal of the condition language.
#[derive(Debug)]
pub enum Literal {
    Null,
    Bool(bool),
    Int(i64),
    Str(Vec<u8>),
}

/// Mathematical form of a literal.
pub enum LitS {
    Null,
    Bool(bool),
    Int(int),
    Str(Seq<u8>),
}

impl View for Literal {
    type V = LitS;

    open spec fn view(&self) -> LitS {
        match self {
            Literal::Null => LitS::Null,
            Literal::Bool(b) => LitS::Bool(*b),
            Literal::Int(i) => LitS::Int(*i as int),
            Literal::Str(s) => LitS::Str(s@),
        }
    }
}

/// A compiled condition.
#[derive(Debug)]
pub enum Condition {
    /// A comparison or existence check on one field path.
    Cmp { path: Vec<PathStep>, op: CmpOp, lit: Literal },
    /// ANY/ALL over the elements of the array that `path` reaches;
    /// the inner predicate's paths are relative to one element.
    Quantified { q: Quant, path: Vec<PathStep>, inner: Box<Condition> },
    /// A count of cached objects of `kind`, compared to `bound`.
    Agg { kind: Vec<u8>, scope: NsScope, op: AggOp, bound: i64 },
    And(Box<Condition>, Box<Condition>),
    Or(Box<Condition>, Box<Condition>),
    Not(Box<Condition>),
}

/// Mathematical form of a condition.
pub enum CondS {
    Cmp { path: Seq<StepS>, op: CmpOp, lit: LitS },
    Quantified { q: Quant, path: Seq<StepS>, inner: Box<CondS> },
    Agg { kind: Seq<u8>, scope: NsScope, op: AggOp, bound: int },
    And(Box<CondS>, Box<CondS>),
    Or(Box<CondS>, Box<CondS>),
    Not(Box<CondS>),
}

/// The view of a compiled condition.
pub open spec fn cview(c: Condition) -> CondS
    decreases c,
{
    match c {
        Condition::Cmp { path, op, lit } => CondS::Cmp { path: path_view(path@), op, lit: lit@ },
        Condition::Quantified { q, path, inner } => CondS::Quantified {
            q,
            path: path_view(path@),
            inner: Box::new(cview(*inner)),
        },
        Condition::Agg { kind, scope, op, bound } => CondS::Agg {
            kind: kind@,
            scope,
            op,
            bound: bound as int,
        },
        Condition::And(a, b) => CondS::And(Box::new(cview(*a)), Box::new(cview(*b))),
        Condition::Or(a, b) => CondS::Or(Box::new(cview(*a)), Box::new(cview(*b))),
        Condition::Not(a) => CondS::Not(Box::new(cview(*a))),
    }
}

} // verus!
