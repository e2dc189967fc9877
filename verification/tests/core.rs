use kubekitty::cache::{ListedObject, ResourceCache};
use kubekitty::condition::{CmpOp, Condition, Literal, Quant};
use kubekitty::doc::{Doc, PathStep};
use kubekitty::eval::evaluate;
use kubekitty::parser::parse_condition;
use kubekitty::pipeline::{FindingsPipeline, SendOutcome};
use kubekitty::rules::{LoadErrorKind, RuleSpec, RulesEngine, extract_namespace};
use kubekitty::types::{Finding, KindScope, Severity, parse_severity};
use kubekitty::watch::{
    ProviderSignal, WatchAction, WatchPhase, WatchState, all_watching, backoff_delay,
    initial_state, watch_step,
};

fn bs(s: &str) -> Vec<u8> {
    s.as_bytes().to_vec()
}

fn obj(fields: Vec<(&str, Doc)>) -> Doc {
    Doc::Obj(fields.into_iter().map(|(k, v)| (bs(k), v)).collect())
}

fn rule(
    file: &str,
    name: &str,
    severity: &str,
    condition: &str,
    kinds: Option<Vec<&str>>,
) -> RuleSpec {
    RuleSpec {
        file: bs(file),
        name: Some(bs(name)),
        description: Some(bs(&format!("{} description", name))),
        category: Some(bs(name)),
        severity: Some(bs(severity)),
        condition: Some(bs(condition)),
        suggestion: Some(bs(&format!("fix {}", name))),
        kinds: kinds.map(|ks| ks.into_iter().map(bs).collect()),
    }
}

fn pod_doc(privileged: bool) -> Doc {
    obj(vec![
        (
            "metadata",
            obj(vec![
                ("namespace", Doc::Str(bs("prod"))),
                ("name", Doc::Str(bs("web-1"))),
            ]),
        ),
        (
            "spec",
            obj(vec![(
                "containers",
                Doc::Arr(vec![obj(vec![(
                    "securityContext",
                    obj(vec![("privileged", Doc::Bool(privileged))]),
                )])]),
            )]),
        ),
    ])
}

#[test]
fn severity_names_are_case_insensitive() {
    assert_eq!(parse_severity(&bs("low")), Some(Severity::Low));
    assert_eq!(parse_severity(&bs("LOW")), Some(Severity::Low));
    assert_eq!(parse_severity(&bs("Medium")), Some(Severity::Medium));
    assert_eq!(parse_severity(&bs("hIgH")), Some(Severity::High));
    assert_eq!(parse_severity(&bs("CRITICAL")), Some(Severity::Critical));
    assert_eq!(parse_severity(&bs("urgent")), None);
    assert_eq!(parse_severity(&bs("")), None);
}

#[test]
fn parser_reads_a_plain_comparison() {
    let c = parse_condition(&bs("spec.tls notExists")).expect("parse");
    match c {
        Condition::Cmp { path, op, lit } => {
            assert_eq!(path.len(), 2);
            assert!(matches!(&path[0], PathStep::Key(k) if k == &bs("spec")));
            assert!(matches!(&path[1], PathStep::Key(k) if k == &bs("tls")));
            assert!(matches!(op, CmpOp::NotExists));
            assert!(matches!(lit, Literal::Null));
        }
        _ => panic!("expected a comparison"),
    }
}

#[test]
fn parser_desugars_a_wildcard_comparison_to_any() {
    let c = parse_condition(&bs(
        "spec.containers[*].securityContext.privileged == true",
    ))
    .expect("parse");
    match c {
        Condition::Quantified { q, path, inner } => {
            assert!(matches!(q, Quant::Any));
            assert_eq!(path.len(), 2);
            match *inner {
                Condition::Cmp { path, op, lit } => {
                    assert_eq!(path.len(), 2);
                    assert!(matches!(op, CmpOp::Eq));
                    assert!(matches!(lit, Literal::Bool(true)));
                }
                _ => panic!("expected an inner comparison"),
            }
        }
        _ => panic!("expected a quantifier"),
    }
}

#[test]
fn parser_reads_literals_indexes_and_connectives() {
    assert!(parse_condition(&bs("spec.replicas == 3")).is_some());
    assert!(parse_condition(&bs("spec.replicas == -12")).is_some());
    assert!(parse_condition(&bs("metadata.name == \"web\"")).is_some());
    assert!(parse_condition(&bs("spec.containers[0].image exists")).is_some());
    assert!(parse_condition(&bs("a.b == 1 && !(c.d == 2) || e.f exists")).is_some());
    assert!(parse_condition(&bs("ALL(spec.containers[*], securityContext exists)")).is_some());
    assert!(parse_condition(&bs("Count(NetworkPolicy, namespace) == 0")).is_some());
    assert!(parse_condition(&bs("Count(Pod, cluster) > 10")).is_some());
}

#[test]
fn parser_rejects_malformed_text() {
    assert!(parse_condition(&bs("")).is_none());
    assert!(parse_condition(&bs("spec..tls == 1")).is_none());
    assert!(parse_condition(&bs("spec.tls ==")).is_none());
    assert!(parse_condition(&bs("spec.tls == \"unterminated")).is_none());
    assert!(parse_condition(&bs("Count(Pod) == 0")).is_none());
    assert!(parse_condition(&bs("a[*].b[*].c == 1")).is_none());
    assert!(parse_condition(&bs("spec.tls == 1 trailing")).is_none());
}

#[test]
fn evaluation_is_deterministic_and_pure() {
    let c = parse_condition(&bs(
        "spec.containers[*].securityContext.privileged == true && Count(NetworkPolicy, namespace) == 0",
    ))
    .expect("parse");
    let d = pod_doc(true);
    let cache = ResourceCache::new();
    let ns = bs("prod");
    let first = evaluate(&c, &d, &cache, &ns);
    let second = evaluate(&c, &d, &cache, &ns);
    let third = evaluate(&c, &d, &cache, &ns);
    assert_eq!(first, second);
    assert_eq!(second, third);
    assert!(first);
}

#[test]
fn any_over_empty_expansion_is_false_and_all_is_true() {
    let empty = obj(vec![("spec", obj(vec![("containers", Doc::Arr(vec![]))]))]);
    let cache = ResourceCache::new();
    let ns = bs("prod");
    fn quantifier(q: Quant) -> Condition {
        Condition::Quantified {
            q,
            path: vec![PathStep::Key(bs("spec")), PathStep::Key(bs("containers"))],
            inner: Box::new(Condition::Cmp {
                path: vec![PathStep::Key(bs("securityContext"))],
                op: CmpOp::Exists,
                lit: Literal::Null,
            }),
        }
    }
    let any = quantifier(Quant::Any);
    let all = quantifier(Quant::All);
    assert!(!evaluate(&any, &empty, &cache, &ns));
    assert!(evaluate(&all, &empty, &cache, &ns));
}

fn standard_engine() -> RulesEngine {
    RulesEngine::new(vec![
        rule(
            "rules/pods.yaml",
            "privileged-container",
            "critical",
            "spec.containers[*].securityContext.privileged == true",
            Some(vec!["Pod"]),
        ),
        rule(
            "rules/deployments.yaml",
            "tls-missing",
            "high",
            "spec.tls notExists",
            Some(vec!["Deployment"]),
        ),
        rule(
            "rules/network.yaml",
            "no-network-policy",
            "medium",
            "Count(NetworkPolicy, namespace) == 0",
            None,
        ),
    ])
    .expect("rules load")
}

#[test]
fn privileged_pod_yields_exactly_one_finding_from_its_rule() {
    let engine = standard_engine();
    let mut cache = ResourceCache::new();
    // One network policy in the namespace keeps the aggregate rule quiet.
    cache.upsert(bs("NetworkPolicy"), bs("prod"), bs("default-deny"), 1, Doc::Null);
    let findings = engine.evaluate_rules(
        &bs("Pod"),
        &bs("prod"),
        &bs("web-1"),
        &pod_doc(true),
        &cache,
        42,
    );
    assert_eq!(findings.len(), 1);
    let f: &Finding = &findings[0];
    assert_eq!(f.severity, Severity::Critical);
    assert_eq!(f.category, bs("privileged-container"));
    assert_eq!(f.resource.kind, bs("Pod"));
    assert_eq!(f.resource.namespace, bs("prod"));
    assert_eq!(f.resource.name, bs("web-1"));
    assert_eq!(f.suggestion, bs("fix privileged-container"));
    assert_eq!(f.timestamp, 42);

    let quiet = engine.evaluate_rules(
        &bs("Pod"),
        &bs("prod"),
        &bs("web-2"),
        &pod_doc(false),
        &cache,
        43,
    );
    assert_eq!(quiet.len(), 0);
}

#[test]
fn deployment_without_tls_yields_the_tls_finding() {
    let engine = standard_engine();
    let mut cache = ResourceCache::new();
    cache.upsert(bs("NetworkPolicy"), bs("prod"), bs("default-deny"), 1, Doc::Null);

    let without_tls = obj(vec![("spec", obj(vec![("replicas", Doc::Int(2))]))]);
    let findings = engine.evaluate_rules(
        &bs("Deployment"),
        &bs("prod"),
        &bs("api"),
        &without_tls,
        &cache,
        7,
    );
    assert_eq!(findings.len(), 1);
    assert_eq!(findings[0].category, bs("tls-missing"));
    assert_eq!(findings[0].severity, Severity::High);

    let with_tls = obj(vec![(
        "spec",
        obj(vec![("tls", obj(vec![("secretName", Doc::Str(bs("cert")))]))]),
    )]);
    let none = engine.evaluate_rules(
        &bs("Deployment"),
        &bs("prod"),
        &bs("api"),
        &with_tls,
        &cache,
        8,
    );
    assert_eq!(none.len(), 0);
}

#[test]
fn aggregate_rule_follows_the_cache_without_a_restart() {
    let engine = standard_engine();
    let mut cache = ResourceCache::new();

    // No network policy cached for the namespace: the next evaluated
    // resource there picks up the aggregate finding.
    let findings = engine.evaluate_rules(
        &bs("Pod"),
        &bs("prod"),
        &bs("web-1"),
        &pod_doc(false),
        &cache,
        1,
    );
    assert_eq!(findings.len(), 1);
    assert_eq!(findings[0].category, bs("no-network-policy"));
    assert_eq!(findings[0].severity, Severity::Medium);

    // After the policy lands in the cache the same rule goes quiet on
    // the next trigger.
    cache.upsert(bs("NetworkPolicy"), bs("prod"), bs("default-deny"), 5, Doc::Null);
    let after = engine.evaluate_rules(
        &bs("Pod"),
        &bs("prod"),
        &bs("web-1"),
        &pod_doc(false),
        &cache,
        2,
    );
    assert_eq!(after.len(), 0);

    // A policy in another namespace does not count.
    let mut other = ResourceCache::new();
    other.upsert(bs("NetworkPolicy"), bs("dev"), bs("default-deny"), 5, Doc::Null);
    let still = engine.evaluate_rules(
        &bs("Pod"),
        &bs("prod"),
        &bs("web-1"),
        &pod_doc(false),
        &other,
        3,
    );
    assert_eq!(still.len(), 1);
}

#[test]
fn expired_version_forces_a_full_relist_and_resync() {
    // The watcher decision: an expired token while watching goes back
    // to a full listing, never a diff-resume.
    let st = WatchState {
        phase: WatchPhase::Watching { version: 41 },
        attempt: 0,
    };
    let (next, action) = watch_step(st, ProviderSignal::ExpiredVersion);
    assert!(matches!(next.phase, WatchPhase::Listing));
    assert!(matches!(action, WatchAction::StartList));

    // Applying the fresh listing leaves exactly the listed objects,
    // with no stale entries, and other kinds untouched.
    let mut cache = ResourceCache::new();
    cache.upsert(bs("Pod"), bs("prod"), bs("old-a"), 1, Doc::Null);
    cache.upsert(bs("Pod"), bs("prod"), bs("old-b"), 2, Doc::Null);
    cache.upsert(bs("Role"), bs("prod"), bs("admin"), 3, Doc::Null);
    let listing = vec![
        ListedObject {
            namespace: bs("prod"),
            name: bs("old-b"),
            version: 9,
            doc: Doc::Int(1),
        },
        ListedObject {
            namespace: bs("prod"),
            name: bs("new-c"),
            version: 9,
            doc: Doc::Int(2),
        },
    ];
    let inserted = cache.replace_kind(&bs("Pod"), listing);
    assert_eq!(inserted, 2);
    assert!(cache.get(&bs("Pod"), &bs("prod"), &bs("old-a")).is_none());
    assert!(cache.get(&bs("Pod"), &bs("prod"), &bs("old-b")).is_some());
    assert!(cache.get(&bs("Pod"), &bs("prod"), &bs("new-c")).is_some());
    assert!(cache.get(&bs("Role"), &bs("prod"), &bs("admin")).is_some());
    assert_eq!(cache.count_by(&bs("Pod"), None), 2);
}

fn finding_with_category(c: &str) -> Finding {
    Finding {
        severity: Severity::Low,
        category: bs(c),
        description: bs("d"),
        resource: kubekitty::types::ResourceRef {
            kind: bs("Pod"),
            namespace: bs("prod"),
            name: bs("x"),
        },
        suggestion: bs("s"),
        timestamp: 0,
    }
}

#[test]
fn full_pipeline_blocks_the_producer_until_one_receive() {
    let mut p = FindingsPipeline::new(2);
    assert_eq!(p.try_send(finding_with_category("one")), SendOutcome::Sent);
    assert_eq!(p.try_send(finding_with_category("two")), SendOutcome::Sent);
    // The buffer stands at capacity: the producer is told to block.
    assert_eq!(
        p.try_send(finding_with_category("three")),
        SendOutcome::WouldBlock
    );
    assert_eq!(p.len(), 2);
    // One receive unblocks it at once.
    let first = p.recv().expect("first");
    assert_eq!(first.category, bs("one"));
    assert_eq!(p.try_send(finding_with_category("three")), SendOutcome::Sent);
    // Nothing was lost and the order held.
    assert_eq!(p.recv().expect("second").category, bs("two"));
    assert_eq!(p.recv().expect("third").category, bs("three"));
    assert!(p.recv().is_none());
}

#[test]
fn closed_pipeline_refuses_new_findings_but_drains() {
    let mut p = FindingsPipeline::new(4);
    assert_eq!(p.try_send(finding_with_category("kept")), SendOutcome::Sent);
    p.close();
    assert!(p.is_closed());
    assert_eq!(p.try_send(finding_with_category("late")), SendOutcome::Closed);
    assert_eq!(p.recv().expect("drain").category, bs("kept"));
    assert!(p.recv().is_none());
}

#[test]
fn unrecognized_severity_fails_the_load_naming_file_and_rule() {
    let err = RulesEngine::new(vec![
        rule(
            "rules/pods.yaml",
            "privileged-container",
            "critical",
            "spec.containers[*].securityContext.privileged == true",
            Some(vec!["Pod"]),
        ),
        rule(
            "rules/broken.yaml",
            "shaky-rule",
            "urgent",
            "spec.tls notExists",
            None,
        ),
    ])
    .expect_err("load must fail");
    assert_eq!(err.kind, LoadErrorKind::UnknownSeverity);
    assert_eq!(err.file, bs("rules/broken.yaml"));
    assert_eq!(err.rule, bs("shaky-rule"));
}

#[test]
fn bad_condition_and_missing_fields_fail_the_load() {
    let err = RulesEngine::new(vec![rule(
        "rules/broken.yaml",
        "odd-rule",
        "low",
        "spec..tls == 1",
        None,
    )])
    .expect_err("load must fail");
    assert_eq!(err.kind, LoadErrorKind::BadCondition);

    let mut missing = rule("rules/broken.yaml", "half-rule", "low", "a exists", None);
    missing.suggestion = None;
    let err2 = RulesEngine::new(vec![missing]).expect_err("load must fail");
    assert_eq!(err2.kind, LoadErrorKind::MissingSuggestion);
    assert_eq!(err2.rule, bs("half-rule"));
}

#[test]
fn engine_load_keeps_every_rule_in_order() {
    let engine = standard_engine();
    assert_eq!(engine.len(), 3);
}

#[test]
fn watch_protocol_walks_list_subscribe_and_backoff() {
    let st = initial_state();
    assert!(matches!(st.phase, WatchPhase::Listing));

    let (watching, action) = watch_step(st, ProviderSignal::ListOk { version: 12 });
    assert!(matches!(watching.phase, WatchPhase::Watching { version: 12 }));
    assert!(matches!(action, WatchAction::Subscribe { from_version: 12 }));

    let (after_add, action) = watch_step(watching, ProviderSignal::Added { version: 15 });
    assert!(matches!(after_add.phase, WatchPhase::Watching { version: 15 }));
    assert!(matches!(action, WatchAction::ApplyUpsert));

    let (after_del, action) = watch_step(after_add, ProviderSignal::Deleted);
    assert!(matches!(after_del.phase, WatchPhase::Watching { version: 15 }));
    assert!(matches!(action, WatchAction::ApplyDelete));

    let (after_bm, action) = watch_step(after_del, ProviderSignal::Bookmark { version: 20 });
    assert!(matches!(after_bm.phase, WatchPhase::Watching { version: 20 }));
    assert!(matches!(action, WatchAction::Ignore));

    let (backing, action) = watch_step(after_bm, ProviderSignal::TransientError);
    assert!(matches!(backing.phase, WatchPhase::BackingOff { delay_ms: 500 }));
    assert_eq!(backing.attempt, 1);
    assert!(matches!(action, WatchAction::Wait { delay_ms: 500 }));

    let (listing, action) = watch_step(backing, ProviderSignal::WaitDone);
    assert!(matches!(listing.phase, WatchPhase::Listing));
    assert!(matches!(action, WatchAction::StartList));

    let (failed, action) = watch_step(listing, ProviderSignal::ListAuthFailure);
    assert!(matches!(failed.phase, WatchPhase::Failed));
    assert!(matches!(action, WatchAction::Escalate));
    // A failed watcher stays failed.
    let (still, action) = watch_step(failed, ProviderSignal::ListOk { version: 1 });
    assert!(matches!(still.phase, WatchPhase::Failed));
    assert!(matches!(action, WatchAction::Ignore));
}

#[test]
fn backoff_doubles_and_saturates() {
    assert_eq!(backoff_delay(0), 500);
    assert_eq!(backoff_delay(1), 1000);
    assert_eq!(backoff_delay(2), 2000);
    assert_eq!(backoff_delay(5), 16000);
    assert_eq!(backoff_delay(6), 30000);
    assert_eq!(backoff_delay(40), 30000);
}

#[test]
fn readiness_requires_every_kind_watching() {
    let watching = WatchState {
        phase: WatchPhase::Watching { version: 1 },
        attempt: 0,
    };
    let listing = initial_state();
    assert!(all_watching(&vec![watching, watching]));
    assert!(!all_watching(&vec![watching, listing]));
    assert!(all_watching(&vec![]));
}

#[test]
fn namespace_is_read_from_metadata() {
    assert_eq!(extract_namespace(&pod_doc(false)), Some(bs("prod")));
    let bare = obj(vec![("spec", Doc::Null)]);
    assert_eq!(extract_namespace(&bare), None);
    let wrong_shape = obj(vec![("metadata", obj(vec![("namespace", Doc::Int(3))]))]);
    assert_eq!(extract_namespace(&wrong_shape), None);
}

#[test]
fn cache_upserts_deletes_and_counts() {
    let mut cache = ResourceCache::new();
    cache.upsert(bs("Pod"), bs("prod"), bs("a"), 1, Doc::Int(1));
    cache.upsert(bs("Pod"), bs("dev"), bs("b"), 1, Doc::Int(2));
    cache.upsert(bs("Pod"), bs("prod"), bs("a"), 2, Doc::Int(3));
    assert_eq!(cache.count_by(&bs("Pod"), None), 2);
    assert_eq!(cache.count_by(&bs("Pod"), Some(&bs("prod"))), 1);
    assert!(matches!(
        cache.get(&bs("Pod"), &bs("prod"), &bs("a")),
        Some(Doc::Int(3))
    ));
    cache.delete(&bs("Pod"), &bs("prod"), &bs("a"));
    assert!(cache.get(&bs("Pod"), &bs("prod"), &bs("a")).is_none());
    assert_eq!(cache.count_by(&bs("Pod"), None), 1);
}

#[test]
fn string_and_integer_comparisons_evaluate_exactly() {
    let cache = ResourceCache::new();
    let ns = bs("prod");
    let d = obj(vec![
        ("metadata", obj(vec![("name", Doc::Str(bs("web")))])),
        ("spec", obj(vec![("replicas", Doc::Int(3))])),
    ]);
    let eq_name = parse_condition(&bs("metadata.name == \"web\"")).unwrap();
    assert!(evaluate(&eq_name, &d, &cache, &ns));
    let ne_name = parse_condition(&bs("metadata.name != \"api\"")).unwrap();
    assert!(evaluate(&ne_name, &d, &cache, &ns));
    let eq_reps = parse_condition(&bs("spec.replicas == 3")).unwrap();
    assert!(evaluate(&eq_reps, &d, &cache, &ns));
    let wrong = parse_condition(&bs("spec.replicas == 4")).unwrap();
    assert!(!evaluate(&wrong, &d, &cache, &ns));
    // A missing path makes both comparisons false.
    let missing = parse_condition(&bs("spec.image == \"x\"")).unwrap();
    assert!(!evaluate(&missing, &d, &cache, &ns));
    let missing_ne = parse_condition(&bs("spec.image != \"x\"")).unwrap();
    assert!(!evaluate(&missing_ne, &d, &cache, &ns));
}

#[test]
fn kind_scope_limits_which_rules_run() {
    let engine = RulesEngine::new(vec![rule(
        "rules/pods.yaml",
        "pods-only",
        "low",
        "metadata exists",
        Some(vec!["Pod", "Deployment"]),
    )])
    .expect("load");
    let cache = ResourceCache::new();
    let d = pod_doc(false);
    assert_eq!(
        engine
            .evaluate_rules(&bs("Pod"), &bs("prod"), &bs("x"), &d, &cache, 0)
            .len(),
        1
    );
    assert_eq!(
        engine
            .evaluate_rules(&bs("Role"), &bs("prod"), &bs("x"), &d, &cache, 0)
            .len(),
        0
    );
}

#[test]
fn quantifiers_split_on_a_mixed_container_list() {
    let cache = ResourceCache::new();
    let ns = bs("prod");
    let d = obj(vec![(
        "spec",
        obj(vec![(
            "containers",
            Doc::Arr(vec![
                obj(vec![(
                    "securityContext",
                    obj(vec![("privileged", Doc::Bool(true))]),
                )]),
                obj(vec![(
                    "securityContext",
                    obj(vec![("privileged", Doc::Bool(false))]),
                )]),
            ]),
        )]),
    )]);
    let any = parse_condition(&bs(
        "spec.containers[*].securityContext.privileged == true",
    ))
    .unwrap();
    assert!(evaluate(&any, &d, &cache, &ns));
    let all = parse_condition(&bs(
        "ALL(spec.containers[*], securityContext.privileged == true)",
    ))
    .unwrap();
    assert!(!evaluate(&all, &d, &cache, &ns));
    let all_have_ctx = parse_condition(&bs(
        "ALL(spec.containers[*], securityContext exists)",
    ))
    .unwrap();
    assert!(evaluate(&all_have_ctx, &d, &cache, &ns));
}

#[test]
fn not_exists_needs_the_parent_to_resolve() {
    let cache = ResourceCache::new();
    let ns = bs("prod");
    let cond = parse_condition(&bs("spec.tls notExists")).unwrap();
    // The parent resolves and the field is absent: true.
    let with_spec = obj(vec![("spec", obj(vec![("replicas", Doc::Int(1))]))]);
    assert!(evaluate(&cond, &with_spec, &cache, &ns));
    // A missing intermediate makes the check false, not an error.
    let without_spec = obj(vec![("metadata", Doc::Null)]);
    assert!(!evaluate(&cond, &without_spec, &cache, &ns));
    // A present field makes it false.
    let with_tls = obj(vec![("spec", obj(vec![("tls", Doc::Null)]))]);
    assert!(!evaluate(&cond, &with_tls, &cache, &ns));
}
