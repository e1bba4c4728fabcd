//! What holds of policies taken together.

use vstd::prelude::*;

use crate::common::glob;
use crate::common::identity;
use crate::common::identity::{SpiffeId, SpiffeParts};
use crate::common::laws;
use crate::policy;
use crate::policy::patterns;
use crate::policy::{Decision, Policies, PolicyEngine, PolicyRule};

verus! {

/// Without a rule that applies, the default decides.
pub proof fn law_default_decides_without_a_rule(
    policies: Policies,
    source: SpiffeParts,
    destination: SpiffeParts,
)
    requires
        forall|i: int|
            0 <= i < policies.rules_for(destination.namespace).len() ==> !policy::rule_applies(
                #[trigger] policies.rules_for(destination.namespace)[i],
                source,
                destination,
            ),
        forall|i: int|
            0 <= i < policies.global.len() ==> !policy::rule_applies(
                #[trigger] policies.global[i],
                source,
                destination,
            ),
    ensures
        policies.decide(source, destination) == policies.default,
{
    lemma_no_rule_applies(policies.rules_for(destination.namespace), source, destination);
    lemma_no_rule_applies(policies.global, source, destination);
}

proof fn lemma_no_rule_applies(
    rules: Seq<PolicyRule>,
    source: SpiffeParts,
    destination: SpiffeParts,
)
    requires
        forall|i: int|
            0 <= i < rules.len() ==> !policy::rule_applies(
                #[trigger] rules[i],
                source,
                destination,
            ),
    ensures
        policy::first_decision(rules, source, destination) is None,
    decreases rules.len(),
{
    if rules.len() > 0 {
        let rest = rules.skip(1);
        assert forall|i: int| 0 <= i < rest.len() implies !policy::rule_applies(
            #[trigger] rest[i],
            source,
            destination,
        ) by {
            assert(rest[i] == rules[i + 1]);
        }
        lemma_no_rule_applies(rest, source, destination);
    }
}

/// The first rule that applies decides, whatever stands behind it.
pub proof fn law_first_match_wins(
    rules: Seq<PolicyRule>,
    at: int,
    source: SpiffeParts,
    destination: SpiffeParts,
)
    requires
        0 <= at < rules.len(),
        policy::rule_applies(rules[at], source, destination),
        forall|i: int|
            0 <= i < at ==> !policy::rule_applies(#[trigger] rules[i], source, destination),
    ensures
        policy::first_decision(rules, source, destination) == Some(rules[at].decision),
    decreases at,
{
    if at > 0 {
        let rest = rules.skip(1);
        assert forall|i: int| 0 <= i < at - 1 implies !policy::rule_applies(
            #[trigger] rest[i],
            source,
            destination,
        ) by {
            assert(rest[i] == rules[i + 1]);
        }
        law_first_match_wins(rest, at - 1, source, destination);
    }
}

/// A rule added behind others decides only what they leave open.
pub proof fn law_added_rule_comes_last(
    rules: Seq<PolicyRule>,
    rule: PolicyRule,
    source: SpiffeParts,
    destination: SpiffeParts,
)
    ensures
        policy::first_decision(rules.push(rule), source, destination)
            == match policy::first_decision(rules, source, destination) {
            Some(decision) => Some(decision),
            None => if policy::rule_applies(rule, source, destination) {
                Some(rule.decision)
            } else {
                None
            },
        },
    decreases rules.len(),
{
    let longer = rules.push(rule);
    if rules.len() == 0 {
        assert(policy::first_decision(longer.skip(1), source, destination) is None);
    } else {
        assert(longer[0] == rules[0]);
        assert(longer.skip(1) =~= rules.skip(1).push(rule));
        law_added_rule_comes_last(rules.skip(1), rule, source, destination);
    }
}

/// The rules of the destination namespace come before the rules for all traffic.
pub proof fn law_namespace_rules_come_first(
    policies: Policies,
    global: Seq<PolicyRule>,
    source: SpiffeParts,
    destination: SpiffeParts,
)
    requires
        policy::first_decision(
            policies.rules_for(destination.namespace),
            source,
            destination,
        ) is Some,
    ensures
        (Policies { global, ..policies }).decide(source, destination) == policies.decide(
            source,
            destination,
        ),
{
}

/// The rules of one namespace do not touch traffic into another.
pub proof fn law_other_namespaces_are_untouched(
    policies: Policies,
    namespace: Seq<char>,
    rules: Seq<PolicyRule>,
    source: SpiffeParts,
    destination: SpiffeParts,
)
    requires
        destination.namespace != namespace,
    ensures
        (Policies {
            namespaces: policies.namespaces.insert(namespace, rules),
            ..policies
        }).decide(source, destination) == policies.decide(source, destination),
{
}

/// A rule of `patterns::deny` denies a matching source every destination that the rules before
/// it leave open.
pub proof fn law_deny_blocks_every_destination(
    policies: Policies,
    at: int,
    source: SpiffeParts,
    destination: SpiffeParts,
)
    requires
        0 <= at < policies.global.len(),
        policies.global[at].destination_pattern@ == "spiffe://*/ns/*/sa/*"@,
        policies.global[at].decision == Decision::Deny("blocklisted source"),
        identity::matches_text(source, policies.global[at].source_pattern@),
        forall|i: int|
            0 <= i < at ==> !policy::rule_applies(
                #[trigger] policies.global[i],
                source,
                destination,
            ),
        policy::first_decision(
            policies.rules_for(destination.namespace),
            source,
            destination,
        ) is None,
    ensures
        policies.decide(source, destination) == Decision::Deny("blocklisted source"),
{
    laws::law_any_pattern_matches_every_identity(destination);
    law_first_match_wins(policies.global, at, source, destination);
}

/// A rule of `patterns::allow_same_namespace` applies exactly where both sides are of its trust
/// domain and namespace.
pub proof fn law_allow_same_namespace_is_exact(
    rule: PolicyRule,
    trust_domain: Seq<char>,
    namespace: Seq<char>,
    source: SpiffeParts,
    destination: SpiffeParts,
)
    requires
        rule.source_pattern@ == patterns::namespace_pattern(trust_domain, namespace),
        rule.destination_pattern@ == patterns::namespace_pattern(trust_domain, namespace),
        identity::valid_identity(
            SpiffeParts { trust_domain, namespace, service_account: "*"@ },
        ),
        glob::literal(namespace, 0, namespace.len() as int),
    ensures
        policy::rule_applies(rule, source, destination) <==> {
            &&& source.trust_domain == trust_domain
            &&& source.namespace == namespace
            &&& destination.trust_domain == trust_domain
            &&& destination.namespace == namespace
        },
{
    laws::law_namespace_pattern(trust_domain, namespace, source);
    laws::law_namespace_pattern(trust_domain, namespace, destination);
    reveal_strlit("/sa/");
    reveal_strlit("*");
    reveal_strlit("/sa/*");
    assert(patterns::namespace_pattern(trust_domain, namespace) =~= "spiffe://"@ + trust_domain
        + "/ns/"@ + namespace + "/sa/"@ + "*"@);
}

/// The replica policy of a workload allows exactly the connections among its replicas, where its
/// identity holds no wildcard.
pub proof fn law_replica_policy_is_exact(
    policies: Policies,
    id: SpiffeParts,
    source: SpiffeParts,
    destination: SpiffeParts,
)
    requires
        policies.namespaces =~= Map::empty(),
        policies.global.len() == 1,
        patterns::is_replica_rule(policies.global[0], identity::identity_uri(id)),
        policies.default == Decision::Deny("no matching policy"),
        identity::valid_identity(id),
        glob::literal(id.namespace, 0, id.namespace.len() as int),
        glob::literal(id.service_account, 0, id.service_account.len() as int),
    ensures
        policies.decide(source, destination) == Decision::Allow <==> source == id && destination
            == id,
{
    laws::law_literal_pattern_matches_one_identity(id, source);
    laws::law_literal_pattern_matches_one_identity(id, destination);
    if source == id && destination == id {
        law_first_match_wins(policies.global, 0, source, destination);
    } else {
        law_default_decides_without_a_rule(policies, source, destination);
    }
}

/// A rule of the destination namespace that speaks of a connection, with none before it that does,
/// decides. What the other rules and the default say does not matter.
pub proof fn law_namespace_rule_decides(
    engine: PolicyEngine,
    source: SpiffeId,
    destination: SpiffeId,
    at: int,
    decision: Decision,
)
    requires
        call_ensures(PolicyEngine::evaluate, (&engine, &source, &destination), decision),
        engine@.namespaces.contains_key(destination@.namespace),
        0 <= at < engine@.namespaces[destination@.namespace].len(),
        identity::matches_text(
            source@,
            engine@.namespaces[destination@.namespace][at].source_pattern@,
        ),
        identity::matches_text(
            destination@,
            engine@.namespaces[destination@.namespace][at].destination_pattern@,
        ),
        forall|i: int|
            0 <= i < at ==> {
                let rule = #[trigger] engine@.namespaces[destination@.namespace][i];
                !(identity::matches_text(source@, rule.source_pattern@) && identity::matches_text(
                    destination@,
                    rule.destination_pattern@,
                ))
            },
    ensures
        decision == engine@.namespaces[destination@.namespace][at].decision,
{
    let rules = engine@.namespaces[destination@.namespace];
    assert(engine@.rules_for(destination@.namespace) == rules);
    law_first_match_wins(rules, at, source@, destination@);
}

/// A rule for all traffic that speaks of a connection, with none before it that does and none of
/// the destination namespace, decides, whatever the default is.
pub proof fn law_global_rule_decides(
    engine: PolicyEngine,
    source: SpiffeId,
    destination: SpiffeId,
    at: int,
    decision: Decision,
)
    requires
        call_ensures(PolicyEngine::evaluate, (&engine, &source, &destination), decision),
        engine@.namespaces.contains_key(destination@.namespace) ==> forall|i: int|
            0 <= i < engine@.namespaces[destination@.namespace].len() ==> {
                let rule = #[trigger] engine@.namespaces[destination@.namespace][i];
                !(identity::matches_text(source@, rule.source_pattern@) && identity::matches_text(
                    destination@,
                    rule.destination_pattern@,
                ))
            },
        0 <= at < engine@.global.len(),
        identity::matches_text(source@, engine@.global[at].source_pattern@),
        identity::matches_text(destination@, engine@.global[at].destination_pattern@),
        forall|i: int|
            0 <= i < at ==> {
                let rule = #[trigger] engine@.global[i];
                !(identity::matches_text(source@, rule.source_pattern@) && identity::matches_text(
                    destination@,
                    rule.destination_pattern@,
                ))
            },
    ensures
        decision == engine@.global[at].decision,
{
    lemma_no_rule_applies(engine@.rules_for(destination@.namespace), source@, destination@);
    law_first_match_wins(engine@.global, at, source@, destination@);
}

/// The default decides a connection that no rule speaks of, and only such a one.
pub proof fn law_default_is_the_last_resort(
    engine: PolicyEngine,
    source: SpiffeId,
    destination: SpiffeId,
    decision: Decision,
)
    requires
        call_ensures(PolicyEngine::evaluate, (&engine, &source, &destination), decision),
        engine@.namespaces.contains_key(destination@.namespace) ==> forall|i: int|
            0 <= i < engine@.namespaces[destination@.namespace].len() ==> {
                let rule = #[trigger] engine@.namespaces[destination@.namespace][i];
                !(identity::matches_text(source@, rule.source_pattern@) && identity::matches_text(
                    destination@,
                    rule.destination_pattern@,
                ))
            },
        forall|i: int|
            0 <= i < engine@.global.len() ==> {
                let rule = #[trigger] engine@.global[i];
                !(identity::matches_text(source@, rule.source_pattern@) && identity::matches_text(
                    destination@,
                    rule.destination_pattern@,
                ))
            },
    ensures
        decision == engine@.default,
{
    law_default_decides_without_a_rule(engine@, source@, destination@);
}

/// A new engine denies every connection.
pub proof fn law_new_engine_denies(
    engine: PolicyEngine,
    source: SpiffeId,
    destination: SpiffeId,
    decision: Decision,
)
    requires
        call_ensures(PolicyEngine::new, (), engine) || call_ensures(
            <PolicyEngine as Default>::default,
            (),
            engine,
        ),
        call_ensures(PolicyEngine::evaluate, (&engine, &source, &destination), decision),
    ensures
        decision == Decision::Deny("no matching policy"),
{
}

/// A rule that is added for a namespace stands behind those that the namespace has. Nothing else
/// changes.
pub proof fn law_rules_are_added_where_they_belong(
    engine: &mut PolicyEngine,
    namespace: &str,
    rule: PolicyRule,
)
    requires
        call_ensures(PolicyEngine::add_namespace_rule, (engine, namespace, rule), ()),
    ensures
        final(engine)@.namespaces.contains_key(namespace@),
        final(engine)@.namespaces[namespace@].len() == if old(engine)@.namespaces.contains_key(
            namespace@,
        ) {
            old(engine)@.namespaces[namespace@].len() + 1
        } else {
            1
        },
        final(engine)@.namespaces[namespace@].last() == rule,
        old(engine)@.namespaces.contains_key(namespace@)
            ==> final(engine)@.namespaces[namespace@].drop_last()
            == old(engine)@.namespaces[namespace@],
        forall|other: Seq<char>|
            other != namespace@ ==> {
                &&& #[trigger] final(engine)@.namespaces.contains_key(other)
                    == old(engine)@.namespaces.contains_key(other)
                &&& old(engine)@.namespaces.contains_key(other)
                    ==> final(engine)@.namespaces[other] == old(engine)@.namespaces[other]
            },
        final(engine)@.global == old(engine)@.global,
        final(engine)@.default == old(engine)@.default,
{
    if old(engine)@.namespaces.contains_key(namespace@) {
        assert(final(engine)@.namespaces[namespace@].drop_last() =~= old(engine)@.namespaces[namespace@]);
    }
}

/// The rules for all traffic are replaced as a whole, in their order. Nothing else changes.
pub proof fn law_global_rules_are_replaced(engine: &mut PolicyEngine, rules: Vec<PolicyRule>)
    requires
        call_ensures(PolicyEngine::set_global_policies, (engine, rules), ()),
    ensures
        final(engine)@.global == rules@,
        final(engine)@.namespaces == old(engine)@.namespaces,
        final(engine)@.default == old(engine)@.default,
{
}

/// The default is replaced, and nothing else changes.
pub proof fn law_default_is_replaced(engine: &mut PolicyEngine, decision: Decision)
    requires
        call_ensures(PolicyEngine::set_default_decision, (engine, decision), ()),
    ensures
        final(engine)@.default == decision,
        final(engine)@.namespaces == old(engine)@.namespaces,
        final(engine)@.global == old(engine)@.global,
{
}

/// A rule made to allow speaks of the sources and destinations that it was made for, and allows
/// them.
pub proof fn law_allow_speaks_of_what_it_was_made_for(
    from: &str,
    to: &str,
    description: &str,
    rule: PolicyRule,
    source: SpiffeParts,
    destination: SpiffeParts,
)
    requires
        call_ensures(patterns::allow, (from, to, description), rule),
    ensures
        policy::rule_applies(rule, source, destination) <==> identity::matches_text(source, from@)
            && identity::matches_text(destination, to@),
        rule.decision == Decision::Allow,
        rule.description@ == description@,
{
}

/// A rule made to deny speaks of what it was made for and of every destination, and denies it.
pub proof fn law_deny_speaks_of_every_destination(
    from: &str,
    description: &str,
    rule: PolicyRule,
    source: SpiffeParts,
    destination: SpiffeParts,
)
    requires
        call_ensures(patterns::deny, (from, description), rule),
    ensures
        policy::rule_applies(rule, source, destination) <==> identity::matches_text(source, from@),
        rule.decision == Decision::Deny("blocklisted source"),
        rule.description@ == description@,
{
    laws::law_any_pattern_matches_every_identity(destination);
}

/// A rule made for a namespace allows exactly what stays within it.
pub proof fn law_namespace_rule_stays_within(
    trust_domain: &str,
    namespace: &str,
    rule: PolicyRule,
    source: SpiffeParts,
    destination: SpiffeParts,
)
    requires
        call_ensures(patterns::allow_same_namespace, (trust_domain, namespace), rule),
        identity::valid_identity(
            SpiffeParts {
                trust_domain: trust_domain@,
                namespace: namespace@,
                service_account: "*"@,
            },
        ),
        glob::literal(namespace@, 0, namespace@.len() as int),
    ensures
        policy::rule_applies(rule, source, destination) <==> {
            &&& source.trust_domain == trust_domain@
            &&& source.namespace == namespace@
            &&& destination.trust_domain == trust_domain@
            &&& destination.namespace == namespace@
        },
        rule.decision == Decision::Allow,
        rule.description@ == "Allow all traffic within namespace "@ + namespace@,
{
    law_allow_same_namespace_is_exact(
        rule,
        trust_domain@,
        namespace@,
        source,
        destination,
    );
}

/// A workload whose policy is that of its replicas talks to its replicas and to nobody else; with
/// everything allowed, to everybody.
pub proof fn law_replicas_talk_among_themselves(
    id: SpiffeId,
    allow_all: bool,
    engine: PolicyEngine,
    source: SpiffeId,
    destination: SpiffeId,
    decision: Decision,
)
    requires
        call_ensures(patterns::replica_policy, (&id, allow_all), engine),
        call_ensures(PolicyEngine::evaluate, (&engine, &source, &destination), decision),
        identity::valid_identity(id@),
        glob::literal(id@.namespace, 0, id@.namespace.len() as int),
        glob::literal(id@.service_account, 0, id@.service_account.len() as int),
    ensures
        decision == Decision::Allow <==> allow_all || source@ == id@ && destination@ == id@,
        decision != Decision::Allow ==> decision == Decision::Deny("no matching policy"),
        engine@.global[0].description@ == "allow replicas of this workload identity"@,
{
    laws::law_literal_pattern_matches_one_identity(id@, source@);
    laws::law_literal_pattern_matches_one_identity(id@, destination@);
    if source@ == id@ && destination@ == id@ {
        law_first_match_wins(engine@.global, 0, source@, destination@);
    } else {
        law_default_decides_without_a_rule(engine@, source@, destination@);
    }
}

} // verus!
