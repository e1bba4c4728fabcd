//! Authorization policy: who may talk to whom.

use std::sync::Arc;

use arc_swap::ArcSwap;
use dashmap::DashMap;
use vstd::prelude::*;

use crate::common::identity;
use crate::common::identity::{SpiffeId, SpiffeParts};
use crate::index;

pub mod laws;
pub mod patterns;

verus! {

/// The decision on a connection once all policies were consulted.
#[derive(Debug, Clone, Copy, PartialEq, Eq)]
pub enum Decision {
    Allow,
    Deny(&'static str),
}

/// A rule that matches a source identity against a destination identity.
///
/// Patterns are SPIFFE IDs with wildcards:
/// - `spiffe://trust/ns/*/sa/*` matches any service in any namespace
/// - `spiffe://trust/ns/default/*` matches any service in the default namespace
/// - `spiffe://*/ns/*/sa/*` matches every service of every trust domain
///
/// The last is the only pattern that reaches beyond one trust domain: beside a narrower namespace
/// or service account, a `*` is a trust domain by that name. In a rule that allows, the last lets
/// callers of foreign trust domains in.
#[derive(Debug)]
pub struct PolicyRule {
    /// Pattern for the source (caller).
    pub source_pattern: String,
    /// Pattern for the destination (callee).
    pub destination_pattern: String,
    /// Whether matching traffic is allowed or denied.
    pub decision: Decision,
    /// For observability.
    pub description: String,
}

impl Clone for PolicyRule {
    fn clone(&self) -> (copy: Self)
        ensures
            copy == *self,
    {
        PolicyRule {
            source_pattern: self.source_pattern.clone(),
            destination_pattern: self.destination_pattern.clone(),
            decision: self.decision,
            description: self.description.clone(),
        }
    }
}

/// Whether a rule speaks of a connection from `source` to `destination`.
pub open spec fn rule_applies(
    rule: PolicyRule,
    source: SpiffeParts,
    destination: SpiffeParts,
) -> bool {
    &&& identity::matches_text(source, rule.source_pattern@)
    &&& identity::matches_text(destination, rule.destination_pattern@)
}

/// The decision of the first rule that applies.
pub open spec fn first_decision(
    rules: Seq<PolicyRule>,
    source: SpiffeParts,
    destination: SpiffeParts,
) -> Option<Decision>
    decreases rules.len(),
{
    if rules.len() == 0 {
        None
    } else if rule_applies(rules[0], source, destination) {
        Some(rules[0].decision)
    } else {
        first_decision(rules.skip(1), source, destination)
    }
}

/// What an engine decides by: the rules of each namespace, the rules for all traffic, and the
/// decision where no rule applies.
pub struct Policies {
    pub namespaces: Map<Seq<char>, Seq<PolicyRule>>,
    pub global: Seq<PolicyRule>,
    pub default: Decision,
}

impl Policies {
    /// The rules of a namespace; none where nothing was added.
    pub open spec fn rules_for(self, namespace: Seq<char>) -> Seq<PolicyRule> {
        if self.namespaces.contains_key(namespace) {
            self.namespaces[namespace]
        } else {
            Seq::empty()
        }
    }

    /// The decision on a connection: the rules of the destination namespace, then the rules for
    /// all traffic, then the default. The first rule that applies wins.
    pub open spec fn decide(self, source: SpiffeParts, destination: SpiffeParts) -> Decision {
        match first_decision(self.rules_for(destination.namespace), source, destination) {
            Some(decision) => decision,
            None => match first_decision(self.global, source, destination) {
                Some(decision) => decision,
                None => self.default,
            },
        }
    }
}

/// The rules for all traffic, replaced as a whole.
#[verifier::external_body]
pub struct RuleList {
    rules: ArcSwap<Vec<PolicyRule>>,
}

/// The rules that a list holds.
pub uninterp spec fn listed(list: RuleList) -> Seq<PolicyRule>;

/// `ArcSwap::from_pointee` holds the value that it is given.
#[verifier::external_body]
fn list_new(rules: Vec<PolicyRule>) -> (list: RuleList)
    ensures
        listed(list) == rules@,
{
    RuleList { rules: ArcSwap::from_pointee(rules) }
}

/// `ArcSwap::load_full` gives the value that was stored last.
#[verifier::external_body]
fn list_load(list: &RuleList) -> (rules: Arc<Vec<PolicyRule>>)
    ensures
        rules@ == listed(*list),
{
    list.rules.load_full()
}

/// `ArcSwap::store` replaces the value.
#[verifier::external_body]
fn list_store(list: &mut RuleList, rules: Vec<PolicyRule>)
    ensures
        listed(*final(list)) == rules@,
{
    list.rules.store(Arc::new(rules));
}

/// The authorization policy engine.
///
/// Rules are kept by destination namespace; rules for all traffic come after them.
pub struct PolicyEngine {
    /// Which entry of `namespace_policies` a namespace has.
    namespace_slots: DashMap<String, usize>,
    namespace_policies: Vec<Vec<PolicyRule>>,
    global_policies: RuleList,
    default_decision: Decision,
}

impl View for PolicyEngine {
    type V = Policies;

    closed spec fn view(&self) -> Policies {
        Policies {
            namespaces: Map::new(
                |name: Seq<char>| index::slots(self.namespace_slots).contains_key(name),
                |name: Seq<char>|
                    self.namespace_policies@[index::slots(self.namespace_slots)[name] as int]@,
            ),
            global: listed(self.global_policies),
            default: self.default_decision,
        }
    }
}

impl PolicyEngine {
    /// Every namespace has an entry of its own.
    pub closed spec fn well_formed(&self) -> bool {
        let slots = index::slots(self.namespace_slots);
        &&& forall|name: Seq<char>| #[trigger]
            slots.contains_key(name) ==> slots[name] < self.namespace_policies@.len()
        &&& forall|a: Seq<char>, b: Seq<char>| #[trigger]
            slots.contains_key(a) && #[trigger] slots.contains_key(b) && a != b ==> slots[a]
                != slots[b]
    }

    /// An engine without rules, which denies everything.
    pub fn new() -> (engine: Self)
        ensures
            engine.well_formed(),
            engine@.namespaces =~= Map::empty(),
            engine@.global.len() == 0,
            engine@.default == Decision::Deny("no matching policy"),
    {
        PolicyEngine {
            namespace_slots: index::index_new(),
            namespace_policies: Vec::new(),
            global_policies: list_new(Vec::new()),
            default_decision: Decision::Deny("no matching policy"),
        }
    }

    /// Decides whether `source` may talk to `destination`.
    pub fn evaluate(&self, source: &SpiffeId, destination: &SpiffeId) -> (decision: Decision)
        requires
            self.well_formed(),
        ensures
            decision == self@.decide(source@, destination@),
    {
        if let Some(slot) = index::index_get(&self.namespace_slots, destination.namespace.as_str()) {
            if let Some(decision) = first_match(
                &self.namespace_policies[slot],
                source,
                destination,
            ) {
                return decision;
            }
        }
        let global: Arc<Vec<PolicyRule>> = list_load(&self.global_policies);
        match first_match(&global, source, destination) {
            Some(decision) => decision,
            None => self.default_decision,
        }
    }

    /// Adds a rule for one destination namespace, behind the rules that it has.
    pub fn add_namespace_rule(&mut self, namespace: &str, rule: PolicyRule)
        requires
            old(self).well_formed(),
        ensures
            final(self).well_formed(),
            final(self)@ == (Policies {
                namespaces: old(self)@.namespaces.insert(
                    namespace@,
                    old(self)@.rules_for(namespace@).push(rule),
                ),
                ..old(self)@
            }),
    {
        match index::index_get(&self.namespace_slots, namespace) {
            Some(slot) => {
                self.namespace_policies[slot].push(rule);
            },
            None => {
                let slot: usize = self.namespace_policies.len();
                let mut rules: Vec<PolicyRule> = Vec::new();
                rules.push(rule);
                self.namespace_policies.push(rules);
                index::index_insert(&mut self.namespace_slots, namespace, slot);
            },
        }
        assert(self@.namespaces =~= old(self)@.namespaces.insert(
            namespace@,
            old(self)@.rules_for(namespace@).push(rule),
        ));
    }

    /// Replaces the rules for all traffic.
    pub fn set_global_policies(&mut self, rules: Vec<PolicyRule>)
        requires
            old(self).well_formed(),
        ensures
            final(self).well_formed(),
            final(self)@ == (Policies { global: rules@, ..old(self)@ }),
    {
        list_store(&mut self.global_policies, rules);
        assert(self@.namespaces =~= old(self)@.namespaces);
    }

    /// Sets the decision for traffic that no rule speaks of.
    pub fn set_default_decision(&mut self, decision: Decision)
        requires
            old(self).well_formed(),
        ensures
            final(self).well_formed(),
            final(self)@ == (Policies { default: decision, ..old(self)@ }),
    {
        self.default_decision = decision;
        assert(self@.namespaces =~= old(self)@.namespaces);
    }
}

impl Default for PolicyEngine {
    fn default() -> (engine: Self)
        ensures
            engine.well_formed(),
            engine@.namespaces =~= Map::empty(),
            engine@.global.len() == 0,
            engine@.default == Decision::Deny("no matching policy"),
    {
        PolicyEngine::new()
    }
}

/// The decision of the first rule that applies.
fn first_match(rules: &Vec<PolicyRule>, source: &SpiffeId, destination: &SpiffeId) -> (decision:
    Option<Decision>)
    ensures
        decision == first_decision(rules@, source@, destination@),
{
    let mut i: usize = 0;
    assert(rules@.skip(0) =~= rules@);
    while i < rules.len()
        invariant
            i <= rules@.len(),
            first_decision(rules@, source@, destination@) == first_decision(
                rules@.skip(i as int),
                source@,
                destination@,
            ),
        decreases rules@.len() - i,
    {
        assert(rules@.skip(i as int)[0] == rules@[i as int]);
        assert(rules@.skip(i as int).skip(1) =~= rules@.skip(i + 1));
        if source.matches_pattern(rules[i].source_pattern.as_str()) && destination.matches_pattern(
            rules[i].destination_pattern.as_str(),
        ) {
            return Some(rules[i].decision);
        }
        i = i + 1;
    }
    None
}

} // verus!
