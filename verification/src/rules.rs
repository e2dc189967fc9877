//! The rule store and rules engine. At startup every raw rule
//! document is validated — required fields present, severity
//! recognized case-insensitively, condition text compiled — and one
//! flaw aborts the whole load, naming the offending file and rule:
//! a partial rule set is never silently accepted. Afterward the rule
//! set is immutable. For each Added/Modified event the engine runs
//! every rule whose scope includes the event's kind against the
//! resource's canonical document and the current cache snapshot, and
//! emits one finding per rule that matches.

use vstd::prelude::*;
use crate::cache::{CacheEntry, ResourceCache};
use crate::condition::cview;
use crate::doc::{Doc, StepS, bytes_eq, copy_bytes, step_get};
use crate::eval::{evaluate, spec_eval};
use crate::parser::{parse_condition, spec_parse_condition};
use crate::types::{Finding, KindScope, ResourceRef, Rule, parse_severity, severity_of};

verus! {

/// One raw rule object as read from a rule document, before
/// validation; `file` names the document it came from.
pub struct RuleSpec {
    pub file: Vec<u8>,
    pub name: Option<Vec<u8>>,
    pub description: Option<Vec<u8>>,
    pub category: Option<Vec<u8>>,
    pub severity: Option<Vec<u8>>,
    pub condition: Option<Vec<u8>>,
    pub suggestion: Option<Vec<u8>>,
    /// The kinds the rule targets; absent means every kind.
    pub kinds: Option<Vec<Vec<u8>>>,
}

/// Why one rule was rejected at load time.
#[derive(Clone, Copy, PartialEq, Eq, Structural, Debug)]
pub enum LoadErrorKind {
    MissingName,
    MissingDescription,
    MissingCategory,
    MissingSeverity,
    MissingCondition,
    MissingSuggestion,
    UnknownSeverity,
    BadCondition,
}

/// A fatal load failure, naming the offending file and rule.
#[derive(Debug)]
pub struct LoadError {
    pub file: Vec<u8>,
    pub rule: Vec<u8>,
    pub kind: LoadErrorKind,
}

/// The first flaw of one raw rule, in a fixed order of checks; a
/// valid rule has none.
pub open spec fn spec_error_of(rs: RuleSpec) -> Option<LoadErrorKind> {
    match rs.name {
        None => Some(LoadErrorKind::MissingName),
        Some(_) => match rs.description {
            None => Some(LoadErrorKind::MissingDescription),
            Some(_) => match rs.category {
                None => Some(LoadErrorKind::MissingCategory),
                Some(_) => match rs.severity {
                    None => Some(LoadErrorKind::MissingSeverity),
                    Some(sv) => match rs.condition {
                        None => Some(LoadErrorKind::MissingCondition),
                        Some(ct) => match rs.suggestion {
                            None => Some(LoadErrorKind::MissingSuggestion),
                            Some(_) => if severity_of(sv@) is None {
                                Some(LoadErrorKind::UnknownSeverity)
                            } else if spec_parse_condition(ct@) is None {
                                Some(LoadErrorKind::BadCondition)
                            } else {
                                None
                            },
                        },
                    },
                },
            },
        },
    }
}

/// The label a load error reports for a rule: its name, or nothing.
pub open spec fn rule_label(rs: RuleSpec) -> Seq<u8> {
    match rs.name {
        Some(nm) => nm@,
        None => Seq::empty(),
    }
}

/// Whether a compiled rule is exactly the meaning of a raw one.
pub open spec fn rule_matches_spec(r: Rule, rs: RuleSpec) -> bool {
    &&& rs.name matches Some(nm) && r.name@ == nm@
    &&& rs.description matches Some(d) && r.description@ == d@
    &&& rs.category matches Some(c) && r.category@ == c@
    &&& rs.severity matches Some(sv) && Some(r.severity) == severity_of(sv@)
    &&& rs.condition matches Some(ct) && Some(cview(r.condition)) == spec_parse_condition(ct@)
    &&& rs.suggestion matches Some(sg) && r.suggestion@ == sg@
    &&& match rs.kinds {
        None => r.kinds is All,
        Some(ks) => r.kinds matches KindScope::Kinds(rk) && rk@.len() == ks@.len() && (forall|
            i: int,
        |
            0 <= i < ks@.len() ==> (#[trigger] rk@[i])@ == ks@[i]@),
    }
}

/// Index of the first invalid raw rule at or after `i`; the list's
/// length if every one is valid.
pub open spec fn first_bad_from(specs: Seq<RuleSpec>, i: int) -> int
    decreases specs.len() - i,
{
    if !(0 <= i < specs.len()) {
        specs.len() as int
    } else if spec_error_of(specs[i]) is Some {
        i
    } else {
        first_bad_from(specs, i + 1)
    }
}

/// Validates and compiles one raw rule.
fn compile_rule(rs: RuleSpec) -> (r: Result<Rule, LoadErrorKind>)
    ensures
        match r {
            Ok(rule) => spec_error_of(rs) is None && rule_matches_spec(rule, rs),
            Err(k) => spec_error_of(rs) == Some(k),
        },
{
    let name = match rs.name {
        Some(x) => x,
        None => {
            return Err(LoadErrorKind::MissingName);
        },
    };
    let description = match rs.description {
        Some(x) => x,
        None => {
            return Err(LoadErrorKind::MissingDescription);
        },
    };
    let category = match rs.category {
        Some(x) => x,
        None => {
            return Err(LoadErrorKind::MissingCategory);
        },
    };
    let severity_text = match rs.severity {
        Some(x) => x,
        None => {
            return Err(LoadErrorKind::MissingSeverity);
        },
    };
    let condition_text = match rs.condition {
        Some(x) => x,
        None => {
            return Err(LoadErrorKind::MissingCondition);
        },
    };
    let suggestion = match rs.suggestion {
        Some(x) => x,
        None => {
            return Err(LoadErrorKind::MissingSuggestion);
        },
    };
    let severity = match parse_severity(&severity_text) {
        Some(s) => s,
        None => {
            return Err(LoadErrorKind::UnknownSeverity);
        },
    };
    let condition = match parse_condition(&condition_text) {
        Some(c) => c,
        None => {
            return Err(LoadErrorKind::BadCondition);
        },
    };
    let kinds = match rs.kinds {
        None => KindScope::All,
        Some(ks) => KindScope::Kinds(ks),
    };
    Ok(Rule { name, description, category, severity, kinds, condition, suggestion })
}

/// Whether `kind` occurs in a list of kind names.
pub open spec fn kind_in(ks: Seq<Vec<u8>>, kind: Seq<u8>) -> bool
    decreases ks.len(),
{
    if ks.len() == 0 {
        false
    } else {
        kind_in(ks.drop_last(), kind) || ks.last()@ == kind
    }
}

/// Whether a rule's scope includes the kind.
pub open spec fn rule_applies(r: Rule, kind: Seq<u8>) -> bool {
    match r.kinds {
        KindScope::All => true,
        KindScope::Kinds(ks) => kind_in(ks@, kind),
    }
}

/// Whether a rule matches one resource under one cache snapshot.
pub open spec fn rule_fires(r: Rule, d: Doc, cache: Seq<CacheEntry>, kind: Seq<u8>, ns: Seq<u8>) -> bool {
    rule_applies(r, kind) && spec_eval(cview(r.condition), d, cache, ns)
}

/// The rules that match, in rule-set order.
pub open spec fn matching_rules(
    rules: Seq<Rule>,
    d: Doc,
    cache: Seq<CacheEntry>,
    kind: Seq<u8>,
    ns: Seq<u8>,
) -> Seq<Rule>
    decreases rules.len(),
{
    if rules.len() == 0 {
        Seq::empty()
    } else {
        let m = matching_rules(rules.drop_last(), d, cache, kind, ns);
        if rule_fires(rules.last(), d, cache, kind, ns) {
            m.push(rules.last())
        } else {
            m
        }
    }
}

/// Whether a finding carries exactly one rule's verdict on one
/// resource.
pub open spec fn finding_for(
    f: Finding,
    r: Rule,
    kind: Seq<u8>,
    ns: Seq<u8>,
    name: Seq<u8>,
    ts: u64,
) -> bool {
    &&& f.severity == r.severity
    &&& f.category@ == r.category@
    &&& f.description@ == r.description@
    &&& f.suggestion@ == r.suggestion@
    &&& f.resource.kind@ == kind
    &&& f.resource.namespace@ == ns
    &&& f.resource.name@ == name
    &&& f.timestamp == ts
}

/// Tests a rule's scope against a kind.
fn kind_applies(r: &Rule, kind: &Vec<u8>) -> (res: bool)
    ensures
        res == rule_applies(*r, kind@),
{
    match &r.kinds {
        KindScope::All => true,
        KindScope::Kinds(ks) => {
            let mut found = false;
            let mut i: usize = 0;
            while i < ks.len()
                invariant
                    i <= ks@.len(),
                    found == kind_in(ks@.take(i as int), kind@),
                decreases ks@.len() - i,
            {
                proof {
                    assert(ks@.take(i + 1).drop_last() =~= ks@.take(i as int));
                    assert(ks@.take(i + 1).last() == ks@[i as int]);
                }
                if bytes_eq(&ks[i], kind) {
                    found = true;
                }
                i += 1;
            }
            proof {
                assert(ks@.take(ks@.len() as int) =~= ks@);
            }
            found
        },
    }
}

/// The immutable, validated rule set and its evaluation engine.
#[derive(Debug)]
pub struct RulesEngine {
    rules: Vec<Rule>,
}

impl View for RulesEngine {
    type V = Seq<Rule>;

    closed spec fn view(&self) -> Seq<Rule> {
        self.rules@
    }
}

impl RulesEngine {
    /// Validates and compiles a whole rule set. One invalid rule
    /// fails the load, reporting the first flaw with the file and
    /// rule it came from; on success the engine holds the meaning
    /// of every raw rule, in order.
    #[verifier::loop_isolation(false)]
    pub fn new(specs: Vec<RuleSpec>) -> (r: Result<RulesEngine, LoadError>)
        ensures
            match r {
                Ok(engine) => first_bad_from(specs@, 0) == specs@.len() && engine@.len()
                    == specs@.len() && (forall|j: int|
                    0 <= j < specs@.len() ==> rule_matches_spec(
                        #[trigger] engine@[j],
                        specs@[j],
                    )),
                Err(err) => ({
                    let b = first_bad_from(specs@, 0);
                    &&& 0 <= b < specs@.len()
                    &&& spec_error_of(specs@[b]) == Some(err.kind)
                    &&& err.file@ == specs@[b].file@
                    &&& err.rule@ == rule_label(specs@[b])
                }),
            },
    {
        let ghost specs0 = specs@;
        let mut specs = specs;
        let n = specs.len();
        let mut rules: Vec<Rule> = Vec::new();
        let mut i: usize = 0;
        while i < n
            invariant
                n == specs0.len(),
                i <= n,
                specs@ =~= specs0.skip(i as int),
                rules@.len() == i,
                forall|j: int|
                    0 <= j < i ==> rule_matches_spec(#[trigger] rules@[j], specs0[j]),
                first_bad_from(specs0, 0) == first_bad_from(specs0, i as int),
            decreases n - i,
        {
            let rs = specs.remove(0);
            proof {
                assert(rs == specs0[i as int]);
                assert(specs@ =~= specs0.skip(i + 1));
            }
            let file = copy_bytes(&rs.file);
            let label = match &rs.name {
                Some(nm) => copy_bytes(nm),
                None => Vec::new(),
            };
            match compile_rule(rs) {
                Ok(rule) => {
                    rules.push(rule);
                },
                Err(k) => {
                    proof {
                        assert(first_bad_from(specs0, i as int) == i as int);
                    }
                    return Err(LoadError { file, rule: label, kind: k });
                },
            }
            proof {
                assert(first_bad_from(specs0, i as int) == first_bad_from(specs0, i + 1));
            }
            i += 1;
        }
        Ok(RulesEngine { rules })
    }

    /// Number of loaded rules.
    pub fn len(&self) -> (r: usize)
        ensures
            r == self@.len(),
    {
        self.rules.len()
    }

    /// Runs every applicable rule against one resource's canonical
    /// document and the current cache snapshot, and returns one
    /// finding per matching rule, in rule-set order. Pure: neither
    /// the cache nor the rule set is touched, and identical inputs
    /// give identical findings.
    pub fn evaluate_rules(
        &self,
        kind: &Vec<u8>,
        namespace: &Vec<u8>,
        name: &Vec<u8>,
        doc: &Doc,
        cache: &ResourceCache,
        now: u64,
    ) -> (fs: Vec<Finding>)
        ensures
            ({
                let m = matching_rules(self@, *doc, cache@, kind@, namespace@);
                fs@.len() == m.len() && (forall|j: int|
                    0 <= j < m.len() ==> finding_for(
                        #[trigger] fs@[j],
                        m[j],
                        kind@,
                        namespace@,
                        name@,
                        now,
                    ))
            }),
    {
        let mut fs: Vec<Finding> = Vec::new();
        let mut i: usize = 0;
        let ghost rs = self@;
        while i < self.rules.len()
            invariant
                rs == self@,
                i <= rs.len(),
                ({
                    let m = matching_rules(rs.take(i as int), *doc, cache@, kind@, namespace@);
                    fs@.len() == m.len() && (forall|j: int|
                        0 <= j < m.len() ==> finding_for(
                            #[trigger] fs@[j],
                            m[j],
                            kind@,
                            namespace@,
                            name@,
                            now,
                        ))
                }),
            decreases rs.len() - i,
        {
            let r = &self.rules[i];
            proof {
                assert(rs.take(i + 1).drop_last() =~= rs.take(i as int));
                assert(rs.take(i + 1).last() == rs[i as int]);
            }
            let applies = kind_applies(r, kind);
            if applies && evaluate(&r.condition, doc, cache, namespace) {
                let f = Finding {
                    severity: r.severity,
                    category: copy_bytes(&r.category),
                    description: copy_bytes(&r.description),
                    resource: ResourceRef {
                        kind: copy_bytes(kind),
                        namespace: copy_bytes(namespace),
                        name: copy_bytes(name),
                    },
                    suggestion: copy_bytes(&r.suggestion),
                    timestamp: now,
                };
                proof {
                    assert(finding_for(f, rs[i as int], kind@, namespace@, name@, now));
                }
                fs.push(f);
            }
            i += 1;
        }
        proof {
            assert(rs.take(rs.len() as int) =~= rs);
        }
        fs
    }
}

/// The bytes of the key "metadata".
pub open spec fn key_metadata() -> Seq<u8> {
    seq![109u8, 101u8, 116u8, 97u8, 100u8, 97u8, 116u8, 97u8]
}

/// The bytes of the key "namespace".
pub open spec fn key_namespace() -> Seq<u8> {
    seq![110u8, 97u8, 109u8, 101u8, 115u8, 112u8, 97u8, 99u8, 101u8]
}

/// The namespace recorded in a canonical document, when
/// `metadata.namespace` is a string.
pub open spec fn spec_namespace_of(d: Doc) -> Option<Seq<u8>> {
    match step_get(d, StepS::Key(key_metadata())) {
        Some(m) => match step_get(m, StepS::Key(key_namespace())) {
            Some(v) => match v {
                Doc::Str(ns) => Some(ns@),
                _ => None,
            },
            _ => None,
        },
        None => None,
    }
}

/// Reads `metadata.namespace` out of a canonical document.
pub fn extract_namespace(doc: &Doc) -> (r: Option<Vec<u8>>)
    ensures
        match r {
            Some(ns) => spec_namespace_of(*doc) == Some(ns@),
            None => spec_namespace_of(*doc) is None,
        },
{
    let mut mk: Vec<u8> = Vec::new();
    mk.push(109);
    mk.push(101);
    mk.push(116);
    mk.push(97);
    mk.push(100);
    mk.push(97);
    mk.push(116);
    mk.push(97);
    proof {
        assert(mk@ =~= key_metadata());
    }
    let mut nk: Vec<u8> = Vec::new();
    nk.push(110);
    nk.push(97);
    nk.push(109);
    nk.push(101);
    nk.push(115);
    nk.push(112);
    nk.push(97);
    nk.push(99);
    nk.push(101);
    proof {
        assert(nk@ =~= key_namespace());
    }
    let m = match crate::doc::step_lookup(doc, &crate::doc::PathStep::Key(mk)) {
        Some(m) => m,
        None => {
            return None;
        },
    };
    match crate::doc::step_lookup(m, &crate::doc::PathStep::Key(nk)) {
        Some(v) => match v {
            Doc::Str(ns) => Some(copy_bytes(ns)),
            _ => None,
        },
        None => None,
    }
}

} // verus!
