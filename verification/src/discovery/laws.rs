//! What holds of lookups taken together.

use vstd::prelude::*;

use crate::common::error::InterlinkError;
use crate::discovery::dns::{
    Endpoints, Lookups, Next, ResolveAction, ResolvedEndpoints, ServiceDiscovery,
};
use crate::net::SocketAddress;

verus! {

/// Something that happens to a discovery.
pub enum Step {
    /// Somebody wants a name.
    Want { name: Seq<char>, now: u64 },
    /// The lookup of a name ends.
    Complete { name: Seq<char>, addrs: Option<Seq<SocketAddress>>, now: u64 },
    /// The lookup of a name is given up.
    Abandon { name: Seq<char> },
    /// Every cached lookup is forgotten.
    Clear,
}

/// Whether a step ends the lookup of a name.
pub open spec fn ends(s: Step, name: Seq<char>) -> bool {
    match s {
        Step::Want { .. } => false,
        Step::Complete { name: done, .. } => done == name,
        Step::Abandon { name: done } => done == name,
        Step::Clear => false,
    }
}

/// Whether a step is about a name: somebody wants it, or its lookup ends.
pub open spec fn concerns(s: Step, name: Seq<char>) -> bool {
    s matches Step::Want { name: wanted, .. } && wanted == name || ends(s, name)
}

/// What is known after a step.
pub open spec fn step(lookups: Lookups, s: Step) -> Lookups {
    match s {
        Step::Want { name, now } => lookups.wanted(name, now),
        Step::Complete { name, addrs, now } => lookups.completed(name, addrs, now),
        Step::Abandon { name } => lookups.abandoned(name),
        Step::Clear => lookups.cleared(),
    }
}

/// What is known after a run of steps.
pub open spec fn run(lookups: Lookups, steps: Seq<Step>) -> Lookups
    decreases steps.len(),
{
    if steps.len() == 0 {
        lookups
    } else {
        run(step(lookups, steps[0]), steps.skip(1))
    }
}

/// Whether a step makes somebody look a name up.
pub open spec fn starts(lookups: Lookups, s: Step, name: Seq<char>) -> bool {
    s matches Step::Want { name: wanted, now } && wanted == name
        && lookups.next(name, now) is Lookup
}

/// How many lookups of a name a run of steps starts.
pub open spec fn started(lookups: Lookups, steps: Seq<Step>, name: Seq<char>) -> nat
    decreases steps.len(),
{
    if steps.len() == 0 {
        0
    } else {
        one_if(starts(lookups, steps[0], name)) + started(
            step(lookups, steps[0]),
            steps.skip(1),
            name,
        )
    }
}

/// How many lookups of a name a run of steps ends.
pub open spec fn ended(lookups: Lookups, steps: Seq<Step>, name: Seq<char>) -> nat
    decreases steps.len(),
{
    if steps.len() == 0 {
        0
    } else {
        one_if(ends(steps[0], name) && lookups.in_flight.contains(name)) + ended(
            step(lookups, steps[0]),
            steps.skip(1),
            name,
        )
    }
}

pub open spec fn one_if(condition: bool) -> nat {
    if condition {
        1
    } else {
        0
    }
}

/// Two lookups of one name never overlap: whatever happens, those that were under way or were
/// started, less those that ended, are the one that is in flight, or none.
pub proof fn law_lookups_of_a_name_never_overlap(
    lookups: Lookups,
    steps: Seq<Step>,
    name: Seq<char>,
)
    ensures
        one_if(lookups.in_flight.contains(name)) + started(lookups, steps, name) == ended(
            lookups,
            steps,
            name,
        ) + one_if(run(lookups, steps).in_flight.contains(name)),
    decreases steps.len(),
{
    if steps.len() > 0 {
        law_lookups_of_a_name_never_overlap(step(lookups, steps[0]), steps.skip(1), name);
    }
}

/// Callers who want a name at once, as many as there are, share one lookup. The first finds no
/// entry and looks the name up; every other waits, whatever else happens meanwhile. When the
/// lookup ends nobody is left waiting: with addresses, all get these and no identity, and
/// otherwise all find that it failed.
pub proof fn law_concurrent_callers_share_one_lookup(
    lookups: Lookups,
    name: Seq<char>,
    now: u64,
    steps: Seq<Step>,
    addrs: Option<Seq<SocketAddress>>,
    done: u64,
)
    requires
        !lookups.cache.contains_key(name),
        !lookups.in_flight.contains(name),
        forall|i: int| 0 <= i < steps.len() ==> !ends(#[trigger] steps[i], name),
    ensures
        lookups.next(name, now) is Lookup,
        started(lookups.wanted(name, now), steps, name) == 0,
        forall|i: int, at: u64|
            0 <= i <= steps.len() ==> #[trigger] run(
                lookups.wanted(name, now),
                steps.take(i),
            ).next(name, at) is Wait,
        !run(lookups.wanted(name, now), steps).completed(name, addrs, done).in_flight.contains(
            name,
        ),
        run(lookups.wanted(name, now), steps).completed(name, addrs, done).after_wait(name)
            == match addrs {
            Some(addrs) => Some(Endpoints { addrs, spiffe_id: None }),
            None => None,
        },
{
    let leading = lookups.wanted(name, now);
    lemma_none_started(leading, steps, name);
    assert forall|i: int, at: u64| 0 <= i <= steps.len() implies #[trigger] run(
        leading,
        steps.take(i),
    ).next(name, at) is Wait by {
        let first = steps.take(i);
        assert forall|j: int| 0 <= j < first.len() implies !ends(#[trigger] first[j], name) by {
            assert(first[j] == steps[j]);
        }
        lemma_stays_in_flight(leading, name, first);
        lemma_stays_unknown(leading, name, first);
    }
}

proof fn lemma_none_started(lookups: Lookups, steps: Seq<Step>, name: Seq<char>)
    requires
        lookups.in_flight.contains(name),
        forall|i: int| 0 <= i < steps.len() ==> !ends(#[trigger] steps[i], name),
    ensures
        started(lookups, steps, name) == 0,
    decreases steps.len(),
{
    if steps.len() > 0 {
        let rest = steps.skip(1);
        assert(!ends(steps[0], name));
        assert forall|i: int| 0 <= i < rest.len() implies !ends(#[trigger] rest[i], name) by {
            assert(rest[i] == steps[i + 1]);
        }
        lemma_none_started(step(lookups, steps[0]), rest, name);
    }
}

proof fn lemma_stays_unknown(lookups: Lookups, name: Seq<char>, steps: Seq<Step>)
    requires
        !lookups.cache.contains_key(name),
        forall|i: int| 0 <= i < steps.len() ==> !ends(#[trigger] steps[i], name),
    ensures
        !run(lookups, steps).cache.contains_key(name),
    decreases steps.len(),
{
    if steps.len() > 0 {
        let rest = steps.skip(1);
        assert(!ends(steps[0], name));
        assert forall|i: int| 0 <= i < rest.len() implies !ends(#[trigger] rest[i], name) by {
            assert(rest[i] == steps[i + 1]);
        }
        lemma_stays_unknown(step(lookups, steps[0]), name, rest);
    }
}

/// What a caller finds who wants a name after its last lookup, whatever happened to other names
/// since: a success is used, without a lookup, until its time to live has passed; then, and after
/// a failure, the name is looked up again. Once the cache was cleared it is looked up in any case.
pub proof fn law_cache_lifecycle(
    lookups: Lookups,
    name: Seq<char>,
    addrs: Option<Seq<SocketAddress>>,
    stored: u64,
    steps: Seq<Step>,
    now: u64,
)
    requires
        forall|i: int| 0 <= i < steps.len() ==> !concerns(#[trigger] steps[i], name),
    ensures
        (forall|i: int| 0 <= i < steps.len() ==> !(#[trigger] steps[i] is Clear)) ==> run(
            lookups.completed(name, addrs, stored),
            steps,
        ).next(name, now) == match addrs {
            Some(addrs) if now < stored + lookups.ttl => Next::Use(
                Endpoints { addrs, spiffe_id: None },
            ),
            _ => Next::Lookup,
        },
        (exists|i: int| 0 <= i < steps.len() && #[trigger] steps[i] is Clear) ==> run(
            lookups.completed(name, addrs, stored),
            steps,
        ).next(name, now) is Lookup,
{
    lemma_left_alone(lookups.completed(name, addrs, stored), name, steps);
}

proof fn lemma_left_alone(lookups: Lookups, name: Seq<char>, steps: Seq<Step>)
    requires
        forall|i: int| 0 <= i < steps.len() ==> !concerns(#[trigger] steps[i], name),
    ensures
        run(lookups, steps).in_flight.contains(name) == lookups.in_flight.contains(name),
        !lookups.cache.contains_key(name) ==> !run(lookups, steps).cache.contains_key(name),
        (forall|i: int| 0 <= i < steps.len() ==> !(#[trigger] steps[i] is Clear))
            && lookups.cache.contains_key(name) ==> {
            &&& run(lookups, steps).cache.contains_key(name)
            &&& run(lookups, steps).cache[name] == lookups.cache[name]
        },
        (exists|i: int| 0 <= i < steps.len() && #[trigger] steps[i] is Clear) ==> !run(
            lookups,
            steps,
        ).cache.contains_key(name),
    decreases steps.len(),
{
    if steps.len() > 0 {
        let rest = steps.skip(1);
        assert(!concerns(steps[0], name));
        assert forall|i: int| 0 <= i < rest.len() implies !concerns(#[trigger] rest[i], name) by {
            assert(rest[i] == steps[i + 1]);
        }
        lemma_left_alone(step(lookups, steps[0]), name, rest);
        if forall|i: int| 0 <= i < steps.len() ==> !(#[trigger] steps[i] is Clear) {
            assert forall|i: int| 0 <= i < rest.len() implies !(#[trigger] rest[i] is Clear) by {
                assert(rest[i] == steps[i + 1]);
            }
            assert(!(steps[0] is Clear));
        } else {
            let at = choose|i: int| 0 <= i < steps.len() && #[trigger] steps[i] is Clear;
            if at > 0 {
                assert(rest[at - 1] == steps[at]);
            }
        }
    }
}

/// While a name is being looked up, nobody else starts to look it up: whatever happens before the
/// lookup ends, a caller uses a fresh entry or waits.
pub proof fn law_one_lookup_per_name(
    lookups: Lookups,
    name: Seq<char>,
    now: u64,
    steps: Seq<Step>,
    later: u64,
)
    requires
        lookups.next(name, now) is Lookup,
        forall|i: int| 0 <= i < steps.len() ==> !ends(#[trigger] steps[i], name),
    ensures
        !(run(lookups.wanted(name, now), steps).next(name, later) is Lookup),
{
    lemma_stays_in_flight(lookups.wanted(name, now), name, steps);
}

proof fn lemma_stays_in_flight(lookups: Lookups, name: Seq<char>, steps: Seq<Step>)
    requires
        lookups.in_flight.contains(name),
        forall|i: int| 0 <= i < steps.len() ==> !ends(#[trigger] steps[i], name),
    ensures
        run(lookups, steps).in_flight.contains(name),
    decreases steps.len(),
{
    if steps.len() > 0 {
        let rest = steps.skip(1);
        assert(!ends(steps[0], name));
        assert forall|i: int| 0 <= i < rest.len() implies !ends(#[trigger] rest[i], name) by {
            assert(rest[i] == steps[i + 1]);
        }
        lemma_stays_in_flight(step(lookups, steps[0]), name, rest);
    }
}

/// A successful lookup is served from the cache until its time to live has passed, and not after.
pub proof fn law_fresh_until_expiry(
    lookups: Lookups,
    name: Seq<char>,
    addrs: Seq<SocketAddress>,
    now: u64,
    later: u64,
)
    ensures
        lookups.completed(name, Some(addrs), now).next(name, later) == if later < now
            + lookups.ttl {
            Next::Use(Endpoints { addrs, spiffe_id: None })
        } else {
            Next::Lookup
        },
{
}

/// A failed lookup is never served: the next caller looks the name up again.
pub proof fn law_failure_is_not_served(lookups: Lookups, name: Seq<char>, now: u64, later: u64)
    ensures
        lookups.completed(name, None, now).next(name, later) is Lookup,
        lookups.completed(name, None, now).after_wait(name) is None,
{
}

/// A lookup that was given up blocks nobody: the next caller who finds no fresh entry looks the
/// name up. Nothing is cached, and those who waited find what was there before.
pub proof fn law_abandoned_lookup_is_taken_over(lookups: Lookups, name: Seq<char>, later: u64)
    ensures
        lookups.abandoned(name).next(name, later) == match lookups.hit(name, later) {
            Some(endpoints) => Next::Use(endpoints),
            None => Next::Lookup,
        },
        lookups.abandoned(name).after_wait(name) == lookups.after_wait(name),
{
}

/// Those who waited get what the leader got.
pub proof fn law_waiters_share_the_outcome(
    lookups: Lookups,
    name: Seq<char>,
    addrs: Seq<SocketAddress>,
    now: u64,
)
    ensures
        lookups.completed(name, Some(addrs), now).after_wait(name) == Some(
            Endpoints { addrs, spiffe_id: None },
        ),
{
}

/// The lookup of one name leaves what is known of another alone.
pub proof fn law_names_are_independent(
    lookups: Lookups,
    name: Seq<char>,
    other: Seq<char>,
    addrs: Option<Seq<SocketAddress>>,
    now: u64,
    later: u64,
)
    requires
        name != other,
    ensures
        lookups.completed(name, addrs, now).next(other, later) == lookups.next(other, later),
        lookups.wanted(name, now).next(other, later) == lookups.next(other, later),
        lookups.abandoned(name).next(other, later) == lookups.next(other, later),
{
}

/// A discovery begins without entries and without lookups. Its entries stay fresh for as long as
/// it is told, and for 30 seconds where it is not.
pub proof fn law_discoveries_begin_empty(
    ttl: u64,
    set: ServiceDiscovery,
    new: ServiceDiscovery,
    default: ServiceDiscovery,
    name: Seq<char>,
)
    requires
        call_ensures(ServiceDiscovery::with_ttl, (ttl,), set),
        call_ensures(ServiceDiscovery::new, (), new),
        call_ensures(<ServiceDiscovery as Default>::default, (), default),
    ensures
        set.well_formed() && new.well_formed() && default.well_formed(),
        set@.ttl == ttl,
        new@.ttl == 30_000_000_000,
        default@.ttl == 30_000_000_000,
        !set@.cache.contains_key(name) && !new@.cache.contains_key(name)
            && !default@.cache.contains_key(name),
        !set@.in_flight.contains(name) && !new@.in_flight.contains(name)
            && !default@.in_flight.contains(name),
{
}

/// Whether a discovery has endpoints for a name that are still fresh.
pub open spec fn is_fresh(lookups: Lookups, name: Seq<char>, now: u64) -> bool {
    &&& lookups.cache.contains_key(name)
    &&& lookups.cache[name].expires_at > now
    &&& lookups.cache[name].endpoints is Some
}

/// Whether nothing changed but the lookups under way.
pub open spec fn cache_is_kept(before: Lookups, after: Lookups) -> bool {
    &&& after.ttl == before.ttl
    &&& forall|name: Seq<char>| #[trigger]
        after.cache.contains_key(name) == before.cache.contains_key(name)
    &&& forall|name: Seq<char>| #[trigger]
        after.cache.contains_key(name) ==> after.cache[name] == before.cache[name]
}

/// Whoever wants a name uses its fresh endpoints, or else waits for whoever looks it up, or else
/// looks it up.
pub proof fn law_names_are_resolved(
    discovery: &mut ServiceDiscovery,
    name: &str,
    now: u64,
    action: ResolveAction,
)
    requires
        old(discovery).well_formed(),
        call_ensures(ServiceDiscovery::resolve, (discovery, name, now), action),
    ensures
        final(discovery).well_formed(),
        action is Use <==> is_fresh(old(discovery)@, name@, now),
        action matches ResolveAction::Use(found) ==> Some(found@)
            == old(discovery)@.cache[name@].endpoints,
        action is Wait <==> !is_fresh(old(discovery)@, name@, now)
            && old(discovery)@.in_flight.contains(name@),
        action is Lookup <==> !is_fresh(old(discovery)@, name@, now)
            && !old(discovery)@.in_flight.contains(name@),
        cache_is_kept(old(discovery)@, final(discovery)@),
        forall|other: Seq<char>| #[trigger]
            final(discovery)@.in_flight.contains(other) <==> old(discovery)@.in_flight.contains(
                other,
            ) || other == name@ && !(action is Use),
{
}

/// A lookup that ends is under way no more. Its outcome is handed back, and kept for the time to
/// live: the addresses that were found, without an identity, or that it failed. Nothing changes for
/// other names.
pub proof fn law_lookups_are_completed(
    discovery: &mut ServiceDiscovery,
    name: &str,
    outcome: Result<Vec<SocketAddress>, InterlinkError>,
    now: u64,
    result: Result<ResolvedEndpoints, InterlinkError>,
)
    requires
        old(discovery).well_formed(),
        call_ensures(ServiceDiscovery::complete, (discovery, name, outcome, now), result),
    ensures
        final(discovery).well_formed(),
        final(discovery)@.ttl == old(discovery)@.ttl,
        final(discovery)@.cache.contains_key(name@),
        final(discovery)@.cache[name@].expires_at == now + old(discovery)@.ttl,
        outcome matches Ok(addrs) ==> {
            &&& result matches Ok(found)
            &&& found.addrs@ == addrs@
            &&& found.spiffe_id is None
            &&& final(discovery)@.cache[name@].endpoints == Some(found@)
        },
        outcome matches Err(error) ==> {
            &&& result == Err::<ResolvedEndpoints, InterlinkError>(error)
            &&& final(discovery)@.cache[name@].endpoints is None
        },
        forall|other: Seq<char>|
            other != name@ ==> {
                &&& #[trigger] final(discovery)@.cache.contains_key(other)
                    == old(discovery)@.cache.contains_key(other)
                &&& final(discovery)@.cache.contains_key(other) ==> final(discovery)@.cache[other]
                    == old(discovery)@.cache[other]
            },
        forall|other: Seq<char>| #[trigger]
            final(discovery)@.in_flight.contains(other) <==> old(discovery)@.in_flight.contains(
                other,
            ) && other != name@,
{
}

/// A lookup that is given up is under way no more, and nothing else changes.
pub proof fn law_lookups_are_abandoned(discovery: &mut ServiceDiscovery, name: &str)
    requires
        old(discovery).well_formed(),
        call_ensures(ServiceDiscovery::abandon, (discovery, name), ()),
    ensures
        final(discovery).well_formed(),
        cache_is_kept(old(discovery)@, final(discovery)@),
        forall|other: Seq<char>| #[trigger]
            final(discovery)@.in_flight.contains(other) <==> old(discovery)@.in_flight.contains(
                other,
            ) && other != name@,
{
}

/// Whoever waited finds the endpoints that were kept, fresh or not, or that the lookup failed.
pub proof fn law_waiting_ends_with_what_was_kept(
    discovery: ServiceDiscovery,
    name: &str,
    result: Result<ResolvedEndpoints, InterlinkError>,
)
    requires
        discovery.well_formed(),
        call_ensures(ServiceDiscovery::after_wait, (&discovery, name), result),
    ensures
        result is Ok <==> discovery@.cache.contains_key(name@)
            && discovery@.cache[name@].endpoints is Some,
        result matches Ok(found) ==> Some(found@) == discovery@.cache[name@].endpoints,
        result matches Err(error) ==> (error matches InterlinkError::DnsResolution(m) && m@
            == "lookup failed"@),
{
}

/// A cleared discovery has no entry. The lookups under way go on.
pub proof fn law_caches_are_cleared(discovery: &mut ServiceDiscovery, name: Seq<char>)
    requires
        old(discovery).well_formed(),
        call_ensures(ServiceDiscovery::clear_cache, (discovery,), ()),
    ensures
        final(discovery).well_formed(),
        !final(discovery)@.cache.contains_key(name),
        final(discovery)@.in_flight.contains(name) == old(discovery)@.in_flight.contains(name),
        final(discovery)@.ttl == old(discovery)@.ttl,
{
}

} // verus!
