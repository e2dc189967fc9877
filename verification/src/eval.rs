//! The condition evaluator: a pure function of the condition, the
//! resource's canonical document, and a cache snapshot. A missing
//! intermediate field makes the containing sub-expression take its
//! documented default — existence checks and comparisons answer
//! false, never an evaluation error.

use vstd::prelude::*;
use crate::cache::{CacheEntry, ResourceCache, count_in};
use crate::condition::{AggOp, CmpOp, CondS, Condition, LitS, Literal, Quant, NsScope, cview};
use crate::doc::{Doc, PathStep, StepS, bytes_eq, path_view, resolve, resolve_path,
    resolve_prefix, step_get, step_lookup};

verus! {

/// Whether a resolved document node equals a literal. Values of
/// different shapes never compare equal.
pub open spec fn lit_matches(v: Doc, lit: LitS) -> bool {
    match (v, lit) {
        (Doc::Null, LitS::Null) => true,
        (Doc::Bool(b), LitS::Bool(c)) => b == c,
        (Doc::Int(i), LitS::Int(j)) => i as int == j,
        (Doc::Str(s), LitS::Str(t)) => s@ == t,
        _ => false,
    }
}

/// An aggregate count compared to its bound.
pub open spec fn cmp_count(c: int, op: AggOp, bound: int) -> bool {
    match op {
        AggOp::Eq => c == bound,
        AggOp::Ne => c != bound,
        AggOp::Lt => c < bound,
        AggOp::Le => c <= bound,
        AggOp::Gt => c > bound,
        AggOp::Ge => c >= bound,
    }
}

/// Meaning of one comparison against a document. An `Eq`, `Ne` or
/// `Exists` whose path fails to resolve is false; `NotExists` is true
/// exactly when every step but the last resolves and the last does
/// not.
pub open spec fn spec_eval_cmp(d: Doc, path: Seq<StepS>, op: CmpOp, lit: LitS) -> bool {
    match op {
        CmpOp::Eq => match resolve(d, path) {
            Some(v) => lit_matches(v, lit),
            None => false,
        },
        CmpOp::Ne => match resolve(d, path) {
            Some(v) => !lit_matches(v, lit),
            None => false,
        },
        CmpOp::Exists => resolve(d, path) is Some,
        CmpOp::NotExists => if path.len() == 0 {
            false
        } else {
            match resolve(d, path.drop_last()) {
                Some(p) => step_get(p, path.last()) is None,
                None => false,
            }
        },
    }
}

/// Whether some element of a wildcard expansion satisfies the inner
/// predicate; false over an empty expansion.
pub open spec fn spec_eval_any(
    inner: CondS,
    items: Seq<Doc>,
    cache: Seq<CacheEntry>,
    ns: Seq<u8>,
) -> bool
    decreases inner, 1int, items.len(),
{
    if items.len() == 0 {
        false
    } else {
        spec_eval_any(inner, items.drop_last(), cache, ns) || spec_eval(
            inner,
            items.last(),
            cache,
            ns,
        )
    }
}

/// Whether every element of a wildcard expansion satisfies the inner
/// predicate; vacuously true over an empty expansion.
pub open spec fn spec_eval_all(
    inner: CondS,
    items: Seq<Doc>,
    cache: Seq<CacheEntry>,
    ns: Seq<u8>,
) -> bool
    decreases inner, 1int, items.len(),
{
    if items.len() == 0 {
        true
    } else {
        spec_eval_all(inner, items.drop_last(), cache, ns) && spec_eval(
            inner,
            items.last(),
            cache,
            ns,
        )
    }
}

/// Meaning of a condition against one document, a cache snapshot,
/// and the namespace of the resource under evaluation. This is a
/// mathematical function of its arguments alone, which is what makes
/// evaluation deterministic and side-effect-free.
pub open spec fn spec_eval(c: CondS, d: Doc, cache: Seq<CacheEntry>, ns: Seq<u8>) -> bool
    decreases c, 0int, 0int,
{
    match c {
        CondS::Cmp { path, op, lit } => spec_eval_cmp(d, path, op, lit),
        CondS::Quantified { q, path, inner } => match resolve(d, path) {
            Some(Doc::Arr(items)) => match q {
                Quant::Any => spec_eval_any(*inner, items@, cache, ns),
                Quant::All => spec_eval_all(*inner, items@, cache, ns),
            },
            _ => q is All,
        },
        CondS::Agg { kind, scope, op, bound } => cmp_count(
            count_in(
                cache,
                kind,
                match scope {
                    NsScope::Current => Some(ns),
                    NsScope::Cluster => None,
                },
            ),
            op,
            bound,
        ),
        CondS::And(a, b) => spec_eval(*a, d, cache, ns) && spec_eval(*b, d, cache, ns),
        CondS::Or(a, b) => spec_eval(*a, d, cache, ns) || spec_eval(*b, d, cache, ns),
        CondS::Not(a) => !spec_eval(*a, d, cache, ns),
    }
}

/// Compares a resolved node with a literal.
pub fn eval_literal(v: &Doc, lit: &Literal) -> (r: bool)
    ensures
        r == lit_matches(*v, lit@),
{
    match (v, lit) {
        (Doc::Null, Literal::Null) => true,
        (Doc::Bool(b), Literal::Bool(c)) => *b == *c,
        (Doc::Int(i), Literal::Int(j)) => *i == *j,
        (Doc::Str(s), Literal::Str(t)) => bytes_eq(s, t),
        _ => false,
    }
}

/// Compares an aggregate count with its bound.
fn cmp_count_exec(cnt: usize, op: AggOp, bound: i64) -> (r: bool)
    ensures
        r == cmp_count(cnt as int, op, bound as int),
{
    if bound < 0 {
        // A count is never negative.
        match op {
            AggOp::Eq => false,
            AggOp::Ne => true,
            AggOp::Lt => false,
            AggOp::Le => false,
            AggOp::Gt => true,
            AggOp::Ge => true,
        }
    } else {
        let c = cnt as u128;
        let b = bound as u128;
        match op {
            AggOp::Eq => c == b,
            AggOp::Ne => c != b,
            AggOp::Lt => c < b,
            AggOp::Le => c <= b,
            AggOp::Gt => c > b,
            AggOp::Ge => c >= b,
        }
    }
}

/// Evaluates one comparison against a document.
pub fn eval_cmp(d: &Doc, path: &Vec<PathStep>, op: CmpOp, lit: &Literal) -> (r: bool)
    ensures
        r == spec_eval_cmp(*d, path_view(path@), op, lit@),
{
    match op {
        CmpOp::Eq => match resolve_path(d, path) {
            Some(v) => eval_literal(v, lit),
            None => false,
        },
        CmpOp::Ne => match resolve_path(d, path) {
            Some(v) => !eval_literal(v, lit),
            None => false,
        },
        CmpOp::Exists => resolve_path(d, path).is_some(),
        CmpOp::NotExists => {
            if path.len() == 0 {
                false
            } else {
                proof {
                    assert(path_view(path@).take(path@.len() - 1) =~= path_view(
                        path@,
                    ).drop_last());
                    assert(path_view(path@).last() == path@[path@.len() - 1]@);
                }
                match resolve_prefix(d, path, path.len() - 1) {
                    Some(p) => step_lookup(p, &path[path.len() - 1]).is_none(),
                    None => false,
                }
            }
        },
    }
}

/// Evaluates a compiled condition against one resource's canonical
/// document and the current cache snapshot. The result equals
/// `spec_eval`, a function of the arguments alone: identical inputs
/// always yield the same boolean, and nothing is mutated.
#[verifier::loop_isolation(false)]
pub fn evaluate(c: &Condition, d: &Doc, cache: &ResourceCache, ns: &Vec<u8>) -> (r: bool)
    ensures
        r == spec_eval(cview(*c), *d, cache@, ns@),
    decreases *c,
{
    match c {
        Condition::Cmp { path, op, lit } => {
            let rr = eval_cmp(d, path, *op, lit);
            proof {
                assert(cview(*c) == CondS::Cmp { path: path_view(path@), op: *op, lit: lit@ });
                assert(rr == spec_eval(cview(*c), *d, cache@, ns@));
            }
            rr
        },
        Condition::Quantified { q, path, inner } => {
            match resolve_path(d, path) {
                Some(v) => match v {
                    Doc::Arr(items) => {
                        let ghost iv = cview(**inner);
                        proof {
                            assert(cview(*c) == (CondS::Quantified {
                                q: *q,
                                path: path_view(path@),
                                inner: Box::new(iv),
                            }));
                            assert(*(Box::new(iv)) == iv);
                            assert(resolve(*d, path_view(path@)) == Some(*v));
                            assert(*v == Doc::Arr(*items));
                        }
                        match q {
                            Quant::Any => {
                                let mut found = false;
                                let mut i: usize = 0;
                                while i < items.len()
                                    invariant
                                        i <= items@.len(),
                                        found == spec_eval_any(
                                            iv,
                                            items@.take(i as int),
                                            cache@,
                                            ns@,
                                        ),
                                    decreases items@.len() - i,
                                {
                                    proof {
                                        assert(items@.take(i + 1).drop_last() =~= items@.take(
                                            i as int,
                                        ));
                                        assert(items@.take(i + 1).last() == items@[i as int]);
                                        assert(spec_eval_any(iv, items@.take(i + 1), cache@, ns@)
                                            == (spec_eval_any(
                                            iv,
                                            items@.take(i as int),
                                            cache@,
                                            ns@,
                                        ) || spec_eval(iv, items@[i as int], cache@, ns@)));
                                    }
                                    if evaluate(inner, &items[i], cache, ns) {
                                        found = true;
                                    }
                                    i += 1;
                                }
                                proof {
                                    reveal_with_fuel(spec_eval, 2);
                                    assert(items@.take(items@.len() as int) =~= items@);
                                    assert(found == spec_eval_any(iv, items@, cache@, ns@));
                                    assert(found == spec_eval(cview(*c), *d, cache@, ns@));
                                }
                                found
                            },
                            Quant::All => {
                                let mut all = true;
                                let mut i: usize = 0;
                                while i < items.len()
                                    invariant
                                        i <= items@.len(),
                                        all == spec_eval_all(
                                            iv,
                                            items@.take(i as int),
                                            cache@,
                                            ns@,
                                        ),
                                    decreases items@.len() - i,
                                {
                                    proof {
                                        assert(items@.take(i + 1).drop_last() =~= items@.take(
                                            i as int,
                                        ));
                                        assert(items@.take(i + 1).last() == items@[i as int]);
                                        assert(spec_eval_all(iv, items@.take(i + 1), cache@, ns@)
                                            == (spec_eval_all(
                                            iv,
                                            items@.take(i as int),
                                            cache@,
                                            ns@,
                                        ) && spec_eval(iv, items@[i as int], cache@, ns@)));
                                    }
                                    if !evaluate(inner, &items[i], cache, ns) {
                                        all = false;
                                    }
                                    i += 1;
                                }
                                proof {
                                    reveal_with_fuel(spec_eval, 2);
                                    assert(items@.take(items@.len() as int) =~= items@);
                                    assert(all == spec_eval_all(iv, items@, cache@, ns@));
                                    assert(all == spec_eval(cview(*c), *d, cache@, ns@));
                                }
                                all
                            },
                        }
                    },
                    _ => match q {
                        Quant::Any => false,
                        Quant::All => true,
                    },
                },
                None => match q {
                    Quant::Any => false,
                    Quant::All => true,
                },
            }
        },
        Condition::Agg { kind, scope, op, bound } => {
            let ns_opt = match scope {
                NsScope::Current => Some(ns),
                NsScope::Cluster => None,
            };
            let cnt = cache.count_by(kind, ns_opt);
            cmp_count_exec(cnt, *op, *bound)
        },
        Condition::And(a, b) => {
            let ra = evaluate(a, d, cache, ns);
            let rb = evaluate(b, d, cache, ns);
            ra && rb
        },
        Condition::Or(a, b) => {
            let ra = evaluate(a, d, cache, ns);
            let rb = evaluate(b, d, cache, ns);
            ra || rb
        },
        Condition::Not(a) => !evaluate(a, d, cache, ns),
    }
}

/// ANY over an empty wildcard expansion is false, and ALL over an
/// empty expansion is vacuously true, whatever the inner predicate.
pub proof fn lemma_quantifier_over_empty_expansion(
    path: Seq<StepS>,
    inner: Box<CondS>,
    d: Doc,
    cache: Seq<CacheEntry>,
    ns: Seq<u8>,
)
    requires
        match resolve(d, path) {
            Some(v) => v matches Doc::Arr(items) && items@.len() == 0,
            None => false,
        },
    ensures
        !spec_eval(CondS::Quantified { q: Quant::Any, path, inner }, d, cache, ns),
        spec_eval(CondS::Quantified { q: Quant::All, path, inner }, d, cache, ns),
{
    reveal_with_fuel(spec_eval, 2);
}

/// ANY over an expansion holds exactly when at least one element
/// satisfies the inner predicate.
pub proof fn lemma_any_iff_exists(inner: CondS, items: Seq<Doc>, cache: Seq<CacheEntry>, ns: Seq<u8>)
    ensures
        spec_eval_any(inner, items, cache, ns) <==> (exists|i: int|
            0 <= i < items.len() && #[trigger] spec_eval(inner, items[i], cache, ns)),
    decreases items.len(),
{
    if items.len() > 0 {
        lemma_any_iff_exists(inner, items.drop_last(), cache, ns);
        if spec_eval_any(inner, items, cache, ns) {
            if spec_eval_any(inner, items.drop_last(), cache, ns) {
                let i0 = choose|i: int|
                    0 <= i < items.drop_last().len() && #[trigger] spec_eval(
                        inner,
                        items.drop_last()[i],
                        cache,
                        ns,
                    );
                assert(items.drop_last()[i0] == items[i0]);
                assert(spec_eval(inner, items[i0], cache, ns));
            } else {
                assert(spec_eval(inner, items[items.len() - 1], cache, ns));
            }
        } else {
            assert forall|i: int| 0 <= i < items.len() implies !spec_eval(
                inner,
                #[trigger] items[i],
                cache,
                ns,
            ) by {
                if i < items.len() - 1 {
                    assert(items.drop_last()[i] == items[i]);
                    assert(!spec_eval(inner, items.drop_last()[i], cache, ns));
                }
            }
        }
    }
}

/// ALL over an expansion holds exactly when every element satisfies
/// the inner predicate — vacuously on an empty expansion.
pub proof fn lemma_all_iff_forall(inner: CondS, items: Seq<Doc>, cache: Seq<CacheEntry>, ns: Seq<u8>)
    ensures
        spec_eval_all(inner, items, cache, ns) <==> (forall|i: int|
            0 <= i < items.len() ==> #[trigger] spec_eval(inner, items[i], cache, ns)),
    decreases items.len(),
{
    if items.len() > 0 {
        lemma_all_iff_forall(inner, items.drop_last(), cache, ns);
        if spec_eval_all(inner, items, cache, ns) {
            assert forall|i: int| 0 <= i < items.len() implies spec_eval(
                inner,
                #[trigger] items[i],
                cache,
                ns,
            ) by {
                if i < items.len() - 1 {
                    assert(items.drop_last()[i] == items[i]);
                    assert(spec_eval(inner, items.drop_last()[i], cache, ns));
                }
            }
        } else {
            if spec_eval_all(inner, items.drop_last(), cache, ns) {
                assert(!spec_eval(inner, items[items.len() - 1], cache, ns));
            } else {
                let i0 = choose|i: int|
                    0 <= i < items.drop_last().len() && !#[trigger] spec_eval(
                        inner,
                        items.drop_last()[i],
                        cache,
                        ns,
                    );
                assert(items.drop_last()[i0] == items[i0]);
                assert(!spec_eval(inner, items[i0], cache, ns));
            }
        }
    }
}

} // verus!
