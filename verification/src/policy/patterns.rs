//! Rules for common situations.

use vstd::prelude::*;

use crate::common::identity;
use crate::common::identity::SpiffeId;
use crate::policy::{Decision, PolicyEngine, PolicyRule};

verus! {

/// The pattern for every service account of a namespace.
pub open spec fn namespace_pattern(trust_domain: Seq<char>, namespace: Seq<char>) -> Seq<char> {
    "spiffe://"@ + trust_domain + "/ns/"@ + namespace + "/sa/*"@
}

/// Allows all traffic within one namespace.
pub fn allow_same_namespace(trust_domain: &str, namespace: &str) -> (rule: PolicyRule)
    ensures
        rule.source_pattern@ == namespace_pattern(trust_domain@, namespace@),
        rule.destination_pattern@ == namespace_pattern(trust_domain@, namespace@),
        rule.decision == Decision::Allow,
        rule.description@ == "Allow all traffic within namespace "@ + namespace@,
{
    let pattern: String = "spiffe://".to_owned().concat(trust_domain).concat("/ns/").concat(
        namespace,
    ).concat("/sa/*");
    PolicyRule {
        source_pattern: pattern.clone(),
        destination_pattern: pattern,
        decision: Decision::Allow,
        description: "Allow all traffic within namespace ".to_owned().concat(namespace),
    }
}

/// Allows one source to talk to one destination.
pub fn allow(from: &str, to: &str, description: &str) -> (rule: PolicyRule)
    ensures
        rule.source_pattern@ == from@,
        rule.destination_pattern@ == to@,
        rule.decision == Decision::Allow,
        rule.description@ == description@,
{
    PolicyRule {
        source_pattern: from.to_owned(),
        destination_pattern: to.to_owned(),
        decision: Decision::Allow,
        description: description.to_owned(),
    }
}

/// Denies all traffic from one source.
pub fn deny(source: &str, description: &str) -> (rule: PolicyRule)
    ensures
        rule.source_pattern@ == source@,
        rule.destination_pattern@ == "spiffe://*/ns/*/sa/*"@,
        rule.decision == Decision::Deny("blocklisted source"),
        rule.description@ == description@,
{
    PolicyRule {
        source_pattern: source.to_owned(),
        destination_pattern: "spiffe://*/ns/*/sa/*".to_owned(),
        decision: Decision::Deny("blocklisted source"),
        description: description.to_owned(),
    }
}

/// What a rule allows that lets the replicas of a workload, which share one identity, talk to each
/// other.
pub open spec fn is_replica_rule(rule: PolicyRule, uri: Seq<char>) -> bool {
    &&& rule.source_pattern@ == uri
    &&& rule.destination_pattern@ == uri
    &&& rule.decision == Decision::Allow
    &&& rule.description@ == "allow replicas of this workload identity"@
}

/// The policy of a workload where none is configured: only peers with its own identity are
/// allowed. With `allow_all` everything is, for benchmarks.
pub fn replica_policy(identity: &SpiffeId, allow_all: bool) -> (engine: PolicyEngine)
    ensures
        engine.well_formed(),
        engine@.namespaces =~= Map::empty(),
        engine@.global.len() == 1,
        is_replica_rule(engine@.global[0], identity::identity_uri(identity@)),
        engine@.default == if allow_all {
            Decision::Allow
        } else {
            Decision::Deny("no matching policy")
        },
{
    let mut engine: PolicyEngine = PolicyEngine::new();
    let uri: String = identity.to_uri();
    let mut rules: Vec<PolicyRule> = Vec::new();
    rules.push(allow(uri.as_str(), uri.as_str(), "allow replicas of this workload identity"));
    engine.set_global_policies(rules);
    if allow_all {
        engine.set_default_decision(Decision::Allow);
    }
    engine
}

} // verus!
