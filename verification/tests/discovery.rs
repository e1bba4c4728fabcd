use interlink::common::error::InterlinkError;
use interlink::discovery::dns::{ResolveAction, ServiceDiscovery, DNS_CACHE_TTL};
use interlink::net::{IpAddress, SocketAddress};

fn address(last: u8, port: u16) -> SocketAddress {
    SocketAddress::new(IpAddress::V4(u32::from_be_bytes([127, 0, 0, last])), port)
}

#[test]
fn callers_share_one_lookup() {
    let mut sd = ServiceDiscovery::with_ttl(30);
    let mut lookups = 0;
    let mut waiters = 0;
    for _ in 0..10 {
        match sd.resolve("test.example.", 5) {
            ResolveAction::Lookup => lookups += 1,
            ResolveAction::Wait => waiters += 1,
            ResolveAction::Use(found) => panic!("{found:?}"),
        }
    }
    assert_eq!((lookups, waiters), (1, 9));
    let found = sd.complete("test.example.", Ok(vec![address(1, 8080)]), 5).unwrap();
    assert_eq!(found.addrs, [address(1, 8080)]);
    assert_eq!(found.spiffe_id, None);
    for _ in 0..9 {
        assert_eq!(sd.after_wait("test.example.").unwrap().addrs, [address(1, 8080)]);
    }
}

#[test]
fn an_entry_is_used_until_it_expires() {
    let mut sd = ServiceDiscovery::with_ttl(30);
    assert!(matches!(sd.resolve("a", 0), ResolveAction::Lookup));
    sd.complete("a", Ok(vec![address(1, 0)]), 10).unwrap();
    match sd.resolve("a", 39) {
        ResolveAction::Use(found) => assert_eq!(found.clone().addrs, [address(1, 0)]),
        other => panic!("{other:?}"),
    }
    assert!(matches!(sd.resolve("a", 40), ResolveAction::Lookup));
    // Whoever waits for the refresh gets what is there.
    assert!(matches!(sd.resolve("a", 41), ResolveAction::Wait));
    sd.complete("a", Ok(vec![address(2, 0)]), 41).unwrap();
    assert_eq!(sd.after_wait("a").unwrap().addrs, [address(2, 0)]);
}

#[test]
fn the_last_outcome_decides_until_the_cache_is_cleared() {
    let mut sd = ServiceDiscovery::with_ttl(30);
    assert!(matches!(sd.resolve("a", 0), ResolveAction::Lookup));
    sd.complete("a", Ok(vec![address(1, 0)]), 0).unwrap();
    // What happens to another name does not matter.
    assert!(matches!(sd.resolve("b", 1), ResolveAction::Lookup));
    let failure = InterlinkError::DnsResolution("fake failure".into());
    sd.complete("b", Err(failure), 1).unwrap_err();
    match sd.resolve("a", 29) {
        ResolveAction::Use(found) => assert_eq!(found.addrs, [address(1, 0)]),
        other => panic!("{other:?}"),
    }
    assert!(matches!(sd.resolve("b", 2), ResolveAction::Lookup));
    assert!(matches!(sd.resolve("a", 30), ResolveAction::Lookup));
    sd.complete("a", Ok(vec![address(2, 0)]), 30).unwrap();
    sd.clear_cache();
    assert!(matches!(sd.resolve("a", 31), ResolveAction::Lookup));
}

#[test]
fn an_entry_may_outlive_the_clock() {
    let mut sd = ServiceDiscovery::with_ttl(u64::MAX);
    assert!(matches!(sd.resolve("a", u64::MAX), ResolveAction::Lookup));
    sd.complete("a", Ok(vec![address(1, 0)]), u64::MAX).unwrap();
    assert!(matches!(sd.resolve("a", u64::MAX), ResolveAction::Use(_)));
}

#[test]
fn an_abandoned_lookup_is_taken_over() {
    let mut sd = ServiceDiscovery::with_ttl(30);
    assert!(matches!(sd.resolve("a", 0), ResolveAction::Lookup));
    assert!(matches!(sd.resolve("b", 0), ResolveAction::Lookup));
    sd.abandon("a");
    assert_eq!(
        sd.after_wait("a").unwrap_err().message(),
        "DNS resolution failed: lookup failed"
    );
    assert!(matches!(sd.resolve("a", 1), ResolveAction::Lookup));
    assert!(matches!(sd.resolve("b", 1), ResolveAction::Wait));
    // What was cached before stays.
    sd.complete("a", Ok(vec![address(1, 0)]), 1).unwrap();
    assert!(matches!(sd.resolve("a", 31), ResolveAction::Lookup));
    sd.abandon("a");
    assert_eq!(sd.after_wait("a").unwrap().addrs, [address(1, 0)]);
}

#[test]
fn a_failure_is_reported_and_not_served() {
    let mut sd = ServiceDiscovery::with_ttl(30);
    assert!(matches!(sd.resolve("nonexistent.invalid.", 0), ResolveAction::Lookup));
    assert!(matches!(sd.resolve("nonexistent.invalid.", 0), ResolveAction::Wait));
    let failure = InterlinkError::DnsResolution("fake failure".into());
    let result = sd.complete("nonexistent.invalid.", Err(failure.clone()), 0);
    assert_eq!(result.unwrap_err(), failure);
    assert_eq!(
        sd.after_wait("nonexistent.invalid.").unwrap_err().message(),
        "DNS resolution failed: lookup failed"
    );
    assert!(matches!(sd.resolve("nonexistent.invalid.", 1), ResolveAction::Lookup));
}

#[test]
fn names_do_not_disturb_each_other() {
    let mut sd = ServiceDiscovery::default();
    assert!(matches!(sd.resolve("a", 0), ResolveAction::Lookup));
    assert!(matches!(sd.resolve("b", 0), ResolveAction::Lookup));
    sd.complete("a", Ok(vec![address(1, 1)]), 0).unwrap();
    assert!(matches!(sd.resolve("b", 0), ResolveAction::Wait));
    sd.complete("b", Ok(vec![]), 0).unwrap();
    assert!(matches!(sd.resolve("a", DNS_CACHE_TTL - 1), ResolveAction::Use(_)));
    assert!(matches!(sd.resolve("a", DNS_CACHE_TTL), ResolveAction::Lookup));
}

#[test]
fn a_cleared_cache_looks_up_anew() {
    let mut sd = ServiceDiscovery::new();
    assert!(matches!(sd.resolve("a", 0), ResolveAction::Lookup));
    sd.complete("a", Ok(vec![address(1, 1)]), 0).unwrap();
    assert!(matches!(sd.resolve("b", 0), ResolveAction::Lookup));
    sd.clear_cache();
    assert!(sd.after_wait("a").is_err());
    assert!(matches!(sd.resolve("a", 0), ResolveAction::Lookup));
    // What is in flight stays in flight.
    assert!(matches!(sd.resolve("b", 0), ResolveAction::Wait));
}
