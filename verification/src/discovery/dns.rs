//! A cache of lookups with one lookup in flight per name.
//!
//! | State of a name | What a reader does | What follows |
//! |---|---|---|
//! | no entry | becomes the leader and looks the name up | an entry |
//! | fresh entry (expires later than now) | takes the cached endpoints | expiry |
//! | expired entry | becomes the leader and looks the name up | an entry |
//! | in flight | waits for the leader | an entry, or no leader where it gave up |

use dashmap::DashMap;
use vstd::prelude::*;

use crate::common::error::InterlinkError;
use crate::common::identity::{SpiffeId, SpiffeParts};
use crate::index;
use crate::net::SocketAddress;

verus! {

/// How long a cached lookup stays fresh: 30 seconds, in nanoseconds.
pub const DNS_CACHE_TTL: u64 = 30_000_000_000;

/// What a name stands for.
#[derive(Debug)]
pub struct ResolvedEndpoints {
    pub addrs: Vec<SocketAddress>,
    pub spiffe_id: Option<SpiffeId>,
}

/// The addresses and the identity behind a name.
pub struct Endpoints {
    pub addrs: Seq<SocketAddress>,
    pub spiffe_id: Option<SpiffeParts>,
}

impl View for ResolvedEndpoints {
    type V = Endpoints;

    open spec fn view(&self) -> Endpoints {
        Endpoints {
            addrs: self.addrs@,
            spiffe_id: match self.spiffe_id {
                Some(id) => Some(id@),
                None => None,
            },
        }
    }
}

impl Clone for ResolvedEndpoints {
    fn clone(&self) -> (copy: Self)
        ensures
            copy@ == self@,
    {
        let mut addrs: Vec<SocketAddress> = Vec::new();
        let mut i: usize = 0;
        while i < self.addrs.len()
            invariant
                i <= self.addrs@.len(),
                addrs@ == self.addrs@.take(i as int),
            decreases self.addrs@.len() - i,
        {
            addrs.push(self.addrs[i]);
            i = i + 1;
            assert(self.addrs@.take(i as int) =~= self.addrs@.take(i - 1).push(self.addrs@[i - 1]));
        }
        assert(addrs@ =~= self.addrs@);
        ResolvedEndpoints {
            addrs,
            spiffe_id: match &self.spiffe_id {
                Some(id) => Some(id.clone()),
                None => None,
            },
        }
    }
}

/// A cached lookup; a failed one has no endpoints.
struct CacheEntry {
    endpoints: Option<ResolvedEndpoints>,
    expires_at: u128,
}

/// A cached lookup as a value.
pub struct Cached {
    pub endpoints: Option<Endpoints>,
    pub expires_at: int,
}

impl View for CacheEntry {
    type V = Cached;

    closed spec fn view(&self) -> Cached {
        Cached {
            endpoints: match self.endpoints {
                Some(endpoints) => Some(endpoints@),
                None => None,
            },
            expires_at: self.expires_at as int,
        }
    }
}

/// What a service discovery knows: its cached lookups, and the names that are being looked up.
pub struct Lookups {
    pub cache: Map<Seq<char>, Cached>,
    pub in_flight: Set<Seq<char>>,
    pub ttl: u64,
}

impl Lookups {
    /// The endpoints of a fresh entry.
    pub open spec fn hit(self, name: Seq<char>, now: u64) -> Option<Endpoints> {
        if self.cache.contains_key(name) && self.cache[name].expires_at > now {
            self.cache[name].endpoints
        } else {
            None
        }
    }
}

/// What a caller who wants a name resolved does next, as a value.
pub enum Next {
    Use(Endpoints),
    Lookup,
    Wait,
}

impl Lookups {
    /// What a caller does who wants a name at the time `now`.
    pub open spec fn next(self, name: Seq<char>, now: u64) -> Next {
        match self.hit(name, now) {
            Some(endpoints) => Next::Use(endpoints),
            None => if self.in_flight.contains(name) {
                Next::Wait
            } else {
                Next::Lookup
            },
        }
    }

    /// What is known once a caller wanted a name.
    pub open spec fn wanted(self, name: Seq<char>, now: u64) -> Lookups {
        match self.hit(name, now) {
            Some(_) => self,
            None => Lookups { in_flight: self.in_flight.insert(name), ..self },
        }
    }

    /// What is known once the lookup of a name ended, with addresses or without.
    pub open spec fn completed(
        self,
        name: Seq<char>,
        addrs: Option<Seq<SocketAddress>>,
        now: u64,
    ) -> Lookups {
        Lookups {
            cache: self.cache.insert(
                name,
                Cached {
                    endpoints: match addrs {
                        Some(addrs) => Some(Endpoints { addrs, spiffe_id: None }),
                        None => None,
                    },
                    expires_at: now + self.ttl,
                },
            ),
            in_flight: self.in_flight.remove(name),
            ttl: self.ttl,
        }
    }

    /// What is known once the leader gave the lookup of a name up.
    pub open spec fn abandoned(self, name: Seq<char>) -> Lookups {
        Lookups { in_flight: self.in_flight.remove(name), ..self }
    }

    /// What is known once every cached lookup was forgotten.
    pub open spec fn cleared(self) -> Lookups {
        Lookups { cache: Map::empty(), ..self }
    }

    /// What a caller finds who waited for the leader: the cached endpoints, fresh or not.
    pub open spec fn after_wait(self, name: Seq<char>) -> Option<Endpoints> {
        if self.cache.contains_key(name) {
            self.cache[name].endpoints
        } else {
            None
        }
    }
}

/// What a caller who wants a name resolved does next.
#[derive(Debug)]
pub enum ResolveAction {
    /// Nothing: these are the endpoints.
    Use(ResolvedEndpoints),
    /// Look the name up and report the outcome with `complete`, or give up with `abandon`.
    Lookup,
    /// Wait until the name is no longer in flight, and call `after_wait`.
    Wait,
}

/// DNS-based service discovery: at most one lookup per name at a time, and a refresh by the first
/// caller who finds an entry expired.
pub struct ServiceDiscovery {
    /// Which cache entry a name has.
    cache_slots: DashMap<String, usize>,
    cache: Vec<CacheEntry>,
    /// The names that are being looked up.
    in_flight: DashMap<String, usize>,
    ttl: u64,
}

impl View for ServiceDiscovery {
    type V = Lookups;

    closed spec fn view(&self) -> Lookups {
        Lookups {
            cache: Map::new(
                |name: Seq<char>| index::slots(self.cache_slots).contains_key(name),
                |name: Seq<char>| self.cache@[index::slots(self.cache_slots)[name] as int]@,
            ),
            in_flight: index::slots(self.in_flight).dom(),
            ttl: self.ttl,
        }
    }
}

impl ServiceDiscovery {
    /// Every cached name has an entry of its own.
    pub closed spec fn well_formed(&self) -> bool {
        let slots = index::slots(self.cache_slots);
        &&& forall|name: Seq<char>| #[trigger]
            slots.contains_key(name) ==> slots[name] < self.cache@.len()
        &&& forall|a: Seq<char>, b: Seq<char>| #[trigger]
            slots.contains_key(a) && #[trigger] slots.contains_key(b) && a != b ==> slots[a]
                != slots[b]
    }

    /// A discovery with the default time to live.
    pub fn new() -> (discovery: Self)
        ensures
            discovery.well_formed(),
            discovery@.cache =~= Map::empty(),
            discovery@.in_flight =~= Set::empty(),
            discovery@.ttl == DNS_CACHE_TTL,
    {
        ServiceDiscovery::with_ttl(DNS_CACHE_TTL)
    }

    /// A discovery whose entries stay fresh for `ttl` nanoseconds.
    pub fn with_ttl(ttl: u64) -> (discovery: Self)
        ensures
            discovery.well_formed(),
            discovery@.cache =~= Map::empty(),
            discovery@.in_flight =~= Set::empty(),
            discovery@.ttl == ttl,
    {
        ServiceDiscovery {
            cache_slots: index::index_new(),
            cache: Vec::new(),
            in_flight: index::index_new(),
            ttl,
        }
    }

    /// Begins to resolve a name at the time `now`: a fresh entry is used; without one the caller
    /// becomes the leader, unless another is.
    pub fn resolve(&mut self, name: &str, now: u64) -> (action: ResolveAction)
        requires
            old(self).well_formed(),
        ensures
            final(self).well_formed(),
            final(self)@ == old(self)@.wanted(name@, now),
            match old(self)@.next(name@, now) {
                Next::Use(endpoints) => action matches ResolveAction::Use(found) && found@
                    == endpoints,
                Next::Lookup => action is Lookup,
                Next::Wait => action is Wait,
            },
    {
        if let Some(slot) = index::index_get(&self.cache_slots, name) {
            if self.cache[slot].expires_at > now as u128 {
                if let Some(endpoints) = &self.cache[slot].endpoints {
                    return ResolveAction::Use(endpoints.clone());
                }
            }
        }
        match index::index_get(&self.in_flight, name) {
            Some(_) => {
                assert(self@.in_flight =~= old(self)@.in_flight.insert(name@));
                ResolveAction::Wait
            },
            None => {
                index::index_insert(&mut self.in_flight, name, 0);
                assert(self@.in_flight =~= old(self)@.in_flight.insert(name@));
                assert(self@.cache =~= old(self)@.cache);
                ResolveAction::Lookup
            },
        }
    }

    /// Ends the lookup of a name: its outcome is cached for the time to live and handed back.
    pub fn complete(
        &mut self,
        name: &str,
        outcome: Result<Vec<SocketAddress>, InterlinkError>,
        now: u64,
    ) -> (result: Result<ResolvedEndpoints, InterlinkError>)
        requires
            old(self).well_formed(),
        ensures
            final(self).well_formed(),
            final(self)@ == old(self)@.completed(
                name@,
                match outcome {
                    Ok(addrs) => Some(addrs@),
                    Err(_) => None,
                },
                now,
            ),
            match outcome {
                Ok(addrs) => result matches Ok(found) && found@ == (Endpoints {
                    addrs: addrs@,
                    spiffe_id: None,
                }),
                Err(error) => result matches Err(e) && e == error,
            },
    {
        let result: Result<ResolvedEndpoints, InterlinkError> = match outcome {
            Ok(addrs) => Ok(ResolvedEndpoints { addrs, spiffe_id: None }),
            Err(error) => Err(error),
        };
        let entry: CacheEntry = CacheEntry {
            endpoints: match &result {
                Ok(endpoints) => Some(endpoints.clone()),
                Err(_) => None,
            },
            expires_at: now as u128 + self.ttl as u128,
        };
        let ghost cached = entry@;
        match index::index_get(&self.cache_slots, name) {
            Some(slot) => {
                self.cache[slot] = entry;
            },
            None => {
                let slot: usize = self.cache.len();
                self.cache.push(entry);
                index::index_insert(&mut self.cache_slots, name, slot);
            },
        }
        index::index_remove(&mut self.in_flight, name);
        assert(self@.cache =~= old(self)@.cache.insert(name@, cached));
        assert(self@.in_flight =~= old(self)@.in_flight.remove(name@));
        result
    }

    /// Gives the lookup of a name up: the next caller who finds no fresh entry becomes the leader.
    pub fn abandon(&mut self, name: &str)
        requires
            old(self).well_formed(),
        ensures
            final(self).well_formed(),
            final(self)@ == old(self)@.abandoned(name@),
    {
        index::index_remove(&mut self.in_flight, name);
        assert(self@.cache =~= old(self)@.cache);
        assert(self@.in_flight =~= old(self)@.in_flight.remove(name@));
    }

    /// What a caller who waited for the leader gets: the cached endpoints, fresh or not.
    pub fn after_wait(&self, name: &str) -> (result: Result<ResolvedEndpoints, InterlinkError>)
        requires
            self.well_formed(),
        ensures
            match self@.after_wait(name@) {
                Some(endpoints) => result matches Ok(found) && found@ == endpoints,
                None => result matches Err(InterlinkError::DnsResolution(m)) && m@
                    == "lookup failed"@,
            },
    {
        if let Some(slot) = index::index_get(&self.cache_slots, name) {
            if let Some(endpoints) = &self.cache[slot].endpoints {
                return Ok(endpoints.clone());
            }
        }
        Err(InterlinkError::DnsResolution("lookup failed".to_owned()))
    }

    /// Forgets every cached lookup.
    pub fn clear_cache(&mut self)
        requires
            old(self).well_formed(),
        ensures
            final(self).well_formed(),
            final(self)@ == old(self)@.cleared(),
    {
        self.cache_slots = index::index_new();
        self.cache = Vec::new();
        assert(self@.cache =~= Map::empty());
        assert(self@.in_flight =~= old(self)@.in_flight);
    }
}

impl Default for ServiceDiscovery {
    fn default() -> (discovery: Self)
        ensures
            discovery.well_formed(),
            discovery@.cache =~= Map::empty(),
            discovery@.in_flight =~= Set::empty(),
            discovery@.ttl == DNS_CACHE_TTL,
    {
        ServiceDiscovery::new()
    }
}

} // verus!
