use interlink::common::identity::SpiffeId;
use interlink::policy::{patterns, Decision, PolicyEngine, PolicyRule};

const TRUST_DOMAIN: &str = "test.local";

fn make_id(ns: &str, sa: &str) -> SpiffeId {
    SpiffeId::new("trust.local", ns, sa)
}

#[test]
fn test_default_deny() {
    let engine = PolicyEngine::new();
    let src = make_id("default", "evil");
    let dst = make_id("default", "api");
    assert_eq!(
        engine.evaluate(&src, &dst),
        Decision::Deny("no matching policy")
    );
}

#[test]
fn test_namespace_rule_allow() {
    let mut engine = PolicyEngine::new();
    engine.add_namespace_rule(
        "default",
        patterns::allow_same_namespace("trust.local", "default"),
    );
    let src = make_id("default", "web");
    let dst = make_id("default", "api");
    assert_eq!(engine.evaluate(&src, &dst), Decision::Allow);
}

#[test]
fn test_specific_allow_overrides_default_deny() {
    let mut engine = PolicyEngine::new();
    engine.add_namespace_rule(
        "default",
        patterns::allow(
            "spiffe://trust.local/ns/default/sa/web",
            "spiffe://trust.local/ns/default/sa/api",
            "web can call api",
        ),
    );
    let src = make_id("default", "web");
    let dst = make_id("default", "api");
    assert_eq!(engine.evaluate(&src, &dst), Decision::Allow);
}

#[test]
fn test_cross_namespace_deny() {
    let mut engine = PolicyEngine::new();
    engine.add_namespace_rule(
        "billing",
        patterns::allow_same_namespace("trust.local", "billing"),
    );
    let src = make_id("default", "web");
    let dst = make_id("billing", "payments");
    // No matching rule for cross-namespace
    assert_eq!(
        engine.evaluate(&src, &dst),
        Decision::Deny("no matching policy")
    );
}

#[test]
fn test_global_policy_overrides_namespace() {
    let mut engine = PolicyEngine::new();
    engine.add_namespace_rule(
        "default",
        patterns::allow_same_namespace("trust.local", "default"),
    );
    engine.set_global_policies(vec![PolicyRule {
        source_pattern: "spiffe://trust.local/ns/default/sa/blocked".into(),
        destination_pattern: "spiffe://trust.local/ns/*/sa/*".into(),
        decision: Decision::Deny("blocked from all services"),
        description: String::new(),
    }]);
    let src = make_id("default", "blocked");
    let dst = make_id("default", "api");
    // The namespace rule matches first; the rules for all traffic come second.
    assert_eq!(engine.evaluate(&src, &dst), Decision::Allow);
}

#[test]
fn test_policy_pattern_wildcard() {
    let mut engine = PolicyEngine::new();
    engine.add_namespace_rule(
        "default",
        PolicyRule {
            source_pattern: "spiffe://trust.local/ns/*/sa/*".into(),
            destination_pattern: "spiffe://trust.local/ns/default/sa/api".into(),
            decision: Decision::Allow,
            description: "any namespace can call api".into(),
        },
    );
    let src = make_id("other", "service");
    let dst = make_id("default", "api");
    assert_eq!(engine.evaluate(&src, &dst), Decision::Allow);
}

#[test]
fn test_default_allow_mode() {
    let mut engine = PolicyEngine::new();
    engine.set_default_decision(Decision::Allow);
    let src = make_id("default", "anything");
    let dst = make_id("other", "anything");
    assert_eq!(engine.evaluate(&src, &dst), Decision::Allow);
}

#[test]
fn test_explicit_deny_rule() {
    let mut engine = PolicyEngine::new();
    // Deny a specific source first so it takes precedence.
    engine.add_namespace_rule(
        "default",
        PolicyRule {
            source_pattern: "spiffe://trust.local/ns/default/sa/evil".into(),
            destination_pattern: "spiffe://trust.local/ns/default/sa/*".into(),
            decision: Decision::Deny("blocked source"),
            description: "deny evil".into(),
        },
    );
    // Allow all traffic within default namespace.
    engine.add_namespace_rule(
        "default",
        patterns::allow_same_namespace("trust.local", "default"),
    );

    let evil = make_id("default", "evil");
    let api = make_id("default", "api");
    let good = make_id("default", "good");

    // Deny rule matches first.
    assert_eq!(
        engine.evaluate(&evil, &api),
        Decision::Deny("blocked source")
    );
    // Other traffic is allowed.
    assert_eq!(engine.evaluate(&good, &api), Decision::Allow);
}

#[test]
fn test_policy_engine_default_deny() {
    let engine = PolicyEngine::new();
    let src = SpiffeId::try_new(TRUST_DOMAIN, "default", "unknown").unwrap();
    let dst = SpiffeId::try_new(TRUST_DOMAIN, "billing", "api").unwrap();
    assert_eq!(
        engine.evaluate(&src, &dst),
        Decision::Deny("no matching policy")
    );
}

#[test]
fn test_policy_engine_allow() {
    let mut engine = PolicyEngine::new();
    engine.add_namespace_rule(
        "billing",
        patterns::allow(
            "spiffe://test.local/ns/default/sa/*",
            "spiffe://test.local/ns/billing/sa/*",
            "allow default to billing",
        ),
    );
    let src = SpiffeId::try_new(TRUST_DOMAIN, "default", "web").unwrap();
    let dst = SpiffeId::try_new(TRUST_DOMAIN, "billing", "api").unwrap();
    assert_eq!(engine.evaluate(&src, &dst), Decision::Allow);
}

#[test]
fn test_policy_engine_multi_namespace() {
    let mut engine = PolicyEngine::new();

    // billing namespace allows internal traffic
    engine.add_namespace_rule(
        "billing",
        patterns::allow_same_namespace("cluster.local", "billing"),
    );

    // monitoring namespace allows traffic from billing
    engine.add_namespace_rule(
        "monitoring",
        patterns::allow(
            "spiffe://cluster.local/ns/billing/sa/*",
            "spiffe://cluster.local/ns/monitoring/sa/grafana",
            "billing can access grafana",
        ),
    );

    let billing_svc = SpiffeId::try_new("cluster.local", "billing", "invoice-worker").unwrap();
    let grafana = SpiffeId::try_new("cluster.local", "monitoring", "grafana").unwrap();
    let unknown = SpiffeId::try_new("cluster.local", "default", "hacker").unwrap();

    assert_eq!(
        engine.evaluate(&billing_svc, &grafana),
        Decision::Allow,
        "billing should reach grafana"
    );
    assert_eq!(
        engine.evaluate(&unknown, &grafana),
        Decision::Deny("no matching policy"),
        "unknown should be denied"
    );
}

#[test]
fn test_high_volume_policy_lookup() {
    let mut engine = PolicyEngine::new();

    // Add 100 namespace rules
    for i in 0..100u32 {
        let ns = format!("ns-{}", i);
        engine.add_namespace_rule(&ns, patterns::allow_same_namespace("cluster.local", &ns));
    }

    // Should take <10ms for 10000 evaluations
    let start = std::time::Instant::now();
    let iterations = 10_000;
    for _ in 0..iterations {
        let id = SpiffeId::try_new("cluster.local", "ns-50", "svc").unwrap();
        let _ = engine.evaluate(&id, &id);
    }
    let elapsed = start.elapsed();
    let per_op = elapsed / iterations;

    assert!(
        per_op < std::time::Duration::from_micros(10),
        "policy lookup took {:?} per op, expected <10µs",
        per_op
    );
}

#[test]
fn rules_for_all_traffic_are_replaced_as_a_whole() {
    let mut engine = PolicyEngine::default();
    let web = make_id("default", "web");
    let api = make_id("default", "api");
    engine.set_global_policies(vec![patterns::allow(
        "spiffe://trust.local/ns/*/sa/*",
        "spiffe://trust.local/ns/*/sa/*",
        "all",
    )]);
    assert_eq!(engine.evaluate(&web, &api), Decision::Allow);
    engine.set_global_policies(vec![patterns::deny(
        "spiffe://trust.local/ns/default/sa/web",
        "no web",
    )]);
    assert_eq!(engine.evaluate(&web, &api), Decision::Deny("blocklisted source"));
    assert_eq!(engine.evaluate(&api, &web), Decision::Deny("no matching policy"));
}

#[test]
fn a_denied_source_reaches_no_destination() {
    let mut engine = PolicyEngine::new();
    engine.set_default_decision(Decision::Allow);
    engine.set_global_policies(vec![patterns::deny("spiffe://evil.org/ns/*/sa/*", "evil.org")]);
    let evil = SpiffeId::new("evil.org", "a", "b");
    for destination in [
        SpiffeId::new("trust.local", "default", "api"),
        SpiffeId::new("other.org", "x", "y"),
        evil.clone(),
    ] {
        assert_eq!(
            engine.evaluate(&evil, &destination),
            Decision::Deny("blocklisted source")
        );
    }
    assert_eq!(engine.evaluate(&make_id("a", "b"), &evil), Decision::Allow);
}

#[test]
fn rules_of_a_namespace_keep_their_order_and_stay_their_own() {
    let mut engine = PolicyEngine::new();
    let all = "spiffe://trust.local/ns/*/sa/*";
    engine.add_namespace_rule("a", patterns::allow(all, all, "first"));
    engine.add_namespace_rule("b", patterns::deny(all, "only"));
    engine.add_namespace_rule("a", patterns::deny(all, "second"));
    let x = make_id("x", "x");
    assert_eq!(engine.evaluate(&x, &make_id("a", "s")), Decision::Allow);
    assert_eq!(
        engine.evaluate(&x, &make_id("b", "s")),
        Decision::Deny("blocklisted source")
    );
    assert_eq!(
        engine.evaluate(&x, &make_id("c", "s")),
        Decision::Deny("no matching policy")
    );
}

#[test]
fn replicas_may_talk_to_each_other_and_nobody_else() {
    let me = make_id("default", "web");
    let other = make_id("default", "api");
    let engine = patterns::replica_policy(&me, false);
    assert_eq!(engine.evaluate(&me, &me), Decision::Allow);
    assert_eq!(engine.evaluate(&other, &me), Decision::Deny("no matching policy"));
    assert_eq!(engine.evaluate(&me, &other), Decision::Deny("no matching policy"));
    let engine = patterns::replica_policy(&me, true);
    assert_eq!(engine.evaluate(&other, &me), Decision::Allow);
}

#[test]
fn constructors_describe_their_rules() {
    let rule = patterns::allow_same_namespace("t", "n");
    assert_eq!(rule.source_pattern, "spiffe://t/ns/n/sa/*");
    assert_eq!(rule.destination_pattern, "spiffe://t/ns/n/sa/*");
    assert_eq!(rule.description, "Allow all traffic within namespace n");
    let rule = patterns::deny("spiffe://t/ns/n/sa/x", "bad").clone();
    assert_eq!(rule.destination_pattern, "spiffe://*/ns/*/sa/*");
    assert_eq!(rule.description, "bad");
}
