//! What holds of the targets of connections, of the limits of a proxy, of its start and stop, and
//! of the connections that it keeps.

use vstd::prelude::*;
use vstd::utf8::encode_utf8;

use crate::common::error::InterlinkError;
use crate::common::identity::SpiffeId;
use crate::common::reading_laws;
use crate::discovery::dns::ResolvedEndpoints;
use crate::metrics::InterlinkMetrics;
use crate::metrics::laws as metric_laws;
use crate::net::{IpAddress, SocketAddress};
use crate::number;
use crate::number::NumberFault;
use crate::proxy;
use crate::proxy::config;
use crate::proxy::config::ProxyConfig;
use crate::proxy::lifecycle;
use crate::proxy::lifecycle::{
    AcceptorAction, AcceptorEvent, ConnectionLimit, Drain, Startup,
};
use crate::proxy::mux;
use crate::proxy::original_dst;
use crate::proxy::original_dst::{RawV4, RawV6};
use crate::proxy::pool;
use crate::proxy::pool::{ConnectionPool, Pooled};
use crate::proxy::{Resolution, UpstreamTarget};
use crate::text;

verus! {

proof fn lemma_last_of(head: Seq<char>, tail: Seq<char>, c: char)
    requires
        reading_laws::lacks(tail, c),
    ensures
        text::last_of(head.push(c) + tail, c) == head.len(),
        text::last_of(tail, c) == -1,
    decreases tail.len(),
{
    let whole = head.push(c) + tail;
    if tail.len() == 0 {
        assert(whole =~= head.push(c));
    } else {
        let shorter = tail.drop_last();
        assert(whole.drop_last() =~= head.push(c) + shorter);
        assert(whole.last() == tail[tail.len() - 1]);
        assert forall|i: int| 0 <= i < shorter.len() implies #[trigger] shorter[i] != c by {
            assert(shorter[i] == tail[i]);
        }
        lemma_last_of(head, shorter, c);
    }
}

/// Whether a target is a host with a port or without.
pub open spec fn is_host(target: Option<UpstreamTarget>, host: Seq<char>, p: Option<u16>) -> bool {
    target matches Some(UpstreamTarget::Host { name, port }) && name@ == host && port == p
}

/// A configured target is the socket address that it reads as, or else a host. Behind the last `:`
/// of a host stands its port, where that is a port number; otherwise the whole is the host. Where
/// nothing is configured there is no target.
pub proof fn law_configured_targets(
    value: Option<String>,
    socket: Option<SocketAddress>,
    target: Option<UpstreamTarget>,
)
    requires
        call_ensures(UpstreamTarget::from_config, (value, socket), target),
    ensures
        value is None || value->0@.len() == 0 ==> target is None,
        value is Some && value->0@.len() > 0 && socket is Some ==> target == Some(
            UpstreamTarget::Socket(socket->0),
        ),
        value is Some && value->0@.len() > 0 && socket is None && reading_laws::lacks(
            value->0@,
            ':',
        ) ==> is_host(target, value->0@, None),
        value is Some && socket is None ==> forall|name: Seq<char>, port: Seq<char>|
            value->0@ == #[trigger] (name.push(':') + port) && reading_laws::lacks(port, ':')
                ==> match number::number_value(port, 65535) {
                Ok(n) => is_host(target, name, Some(n as u16)),
                Err(_) => is_host(target, value->0@, None),
            },
{
    if let Some(v) = value {
        if reading_laws::lacks(v@, ':') {
            lemma_last_of(Seq::empty(), v@, ':');
        }
        assert forall|name: Seq<char>, port: Seq<char>|
            v@ == #[trigger] (name.push(':') + port) && reading_laws::lacks(port, ':')
                && socket is None implies match number::number_value(port, 65535) {
            Ok(n) => is_host(target, name, Some(n as u16)),
            Err(_) => is_host(target, v@, None),
        } by {
            lemma_last_of(name, port, ':');
            assert(v@.skip(name.len() as int + 1) =~= port);
            assert(v@.take(name.len() as int) =~= name);
        }
    }
}

/// A redirected connection goes where it was meant to go, unless that is our own port.
pub proof fn law_redirected_connections(
    original: Option<SocketAddress>,
    port: u16,
    target: Option<UpstreamTarget>,
)
    requires
        call_ensures(proxy::redirected, (original, port), target),
    ensures
        target matches Some(t) ==> original is Some && t == UpstreamTarget::Socket(original->0)
            && original->0.port != port,
        original is Some && original->0.port != port ==> target is Some,
{
}

/// An address is the target that it is; a host is looked up by its name, where names are looked up.
pub proof fn law_targets_are_resolved(
    target: UpstreamTarget,
    has_discovery: bool,
    resolution: Resolution,
)
    requires
        call_ensures(proxy::resolve_upstream, (&target, has_discovery), resolution),
    ensures
        target matches UpstreamTarget::Socket(address) ==> resolution == Resolution::Address(
            address,
        ),
        (target matches UpstreamTarget::Host { name, port } ==> {
            &&& has_discovery ==> (resolution matches Resolution::Lookup(n) && n@ == name@)
            &&& !has_discovery && port is None ==> (resolution matches Resolution::Impossible(
                InterlinkError::DnsResolution(m),
            ) && m@ == "cannot resolve hostname '"@ + name@ + "' without discovery"@)
            &&& !has_discovery && port is Some ==> (resolution matches Resolution::Impossible(
                InterlinkError::DnsResolution(m),
            ) && m@ == "cannot resolve hostname '"@ + (name@ + ":"@ + number::decimal(
                port->0 as nat,
            )) + "' without discovery"@)
        }),
{
}

/// A host is connected to at the first address that was found for it, at its own port or else at
/// the port that was found. A lookup that failed, or found nothing, fails the connection.
pub proof fn law_hosts_are_connected_to_at_the_first_address(
    target: UpstreamTarget,
    found: Result<ResolvedEndpoints, InterlinkError>,
    result: Result<SocketAddress, InterlinkError>,
)
    requires
        call_ensures(proxy::finish_resolution, (&target, found), result),
    ensures
        target matches UpstreamTarget::Socket(address) ==> result == Ok::<
            SocketAddress,
            InterlinkError,
        >(address),
        (target matches UpstreamTarget::Host { name, port } ==> {
            &&& found matches Err(error) ==> result == Err::<SocketAddress, InterlinkError>(error)
            &&& found matches Ok(endpoints) ==> {
                &&& endpoints.addrs@.len() == 0 ==> (result matches Err(
                    InterlinkError::DnsResolution(m),
                ) && m@ == "no endpoints for "@ + match port {
                    Some(port) => name@ + ":"@ + number::decimal(port as nat),
                    None => name@,
                })
                &&& endpoints.addrs@.len() > 0 ==> {
                    &&& result matches Ok(address)
                    &&& address.ip == endpoints.addrs@[0].ip
                    &&& port matches Some(port) ==> address.port == port
                    &&& port is None ==> address.port == endpoints.addrs@[0].port
                    &&& address.flowinfo == 0
                    &&& address.scope_id == 0
                }
            }
        }),
{
}

/// An address is what it was made of.
pub proof fn law_addresses(ip: IpAddress, port: u16, address: SocketAddress)
    requires
        call_ensures(SocketAddress::new, (ip, port), address),
    ensures
        address.ip == ip,
        address.port == port,
        address.flowinfo == 0,
        address.scope_id == 0,
{
}

/// Whether a setting writes a number.
pub open spec fn writes_number(setting: Option<&str>, n: nat) -> bool {
    setting matches Some(s) && number::number_value(s@, usize::MAX as nat) == Ok::<
        nat,
        NumberFault,
    >(n)
}

/// Whether a setting writes no number that fits.
pub open spec fn writes_none(setting: Option<&str>) -> bool {
    setting matches Some(s) ==> number::number_value(s@, usize::MAX as nat) is Err
}

/// A relay buffers as many bytes as are set, from 4096 to 1048576, and 65536 where nothing is set.
pub proof fn law_buffer_sizes(setting: Option<&str>, size: usize)
    requires
        call_ensures(proxy::copy_buf_size, (setting,), size),
    ensures
        4096 <= size <= 1048576,
        forall|n: nat| #[trigger]
            writes_number(setting, n) ==> {
                &&& n <= 4096 ==> size == 4096
                &&& 4096 <= n <= 1048576 ==> size == n
                &&& n >= 1048576 ==> size == 1048576
            },
        writes_none(setting) ==> size == 65536,
{
}

/// A listener has as many acceptors as are set, from 1 to 16. Where nothing is set it has one per
/// core, at most four, and two where the number of cores is unknown.
pub proof fn law_numbers_of_acceptors(setting: Option<&str>, cores: Option<usize>, n: usize)
    requires
        call_ensures(proxy::num_acceptors, (setting, cores), n),
    ensures
        forall|k: nat| #[trigger]
            writes_number(setting, k) ==> {
                &&& k <= 1 ==> n == 1
                &&& 1 <= k <= 16 ==> n == k
                &&& k >= 16 ==> n == 16
            },
        writes_none(setting) ==> {
            &&& cores matches Some(c) ==> (c <= 4 ==> n == c) && (c >= 4 ==> n == 4)
            &&& cores is None ==> n == 2
        },
{
}

/// A proxy is who it is configured to be, or else the service account `proxy` of the namespace
/// `default` of its trust domain.
pub proof fn law_local_identities(
    configured: Option<String>,
    uri: &str,
    read: Result<SpiffeId, InterlinkError>,
    trust_domain: &str,
    id: SpiffeId,
)
    requires
        call_ensures(proxy::local_identity, (&configured, trust_domain), id),
        configured matches Some(s) ==> s@ == uri@,
        call_ensures(SpiffeId::from_uri, (uri,), read),
    ensures
        configured is Some && read is Ok ==> id@ == read->Ok_0@,
        configured is None || read is Err ==> {
            &&& id.trust_domain@ == trust_domain@
            &&& id.namespace@ == "default"@
            &&& id.service_account@ == "proxy"@
        },
{
}

/// The outcome of a relay is handed back as it is. A relay that came to its end counts as a
/// connection with its bytes and its duration, one that did not as a failed one.
pub proof fn law_relays_are_recorded<E>(
    m: &mut InterlinkMetrics,
    outcome: Result<(u64, u64), E>,
    nanos: u64,
    same: Result<(u64, u64), E>,
)
    requires
        call_ensures(proxy::record_relay_result::<E>, (m, outcome, nanos), same),
    ensures
        same == outcome,
        outcome matches Ok(bytes) ==> {
            &&& bytes.0 + bytes.1 <= u64::MAX ==> metric_laws::changed(
                *old(m),
                *final(m),
                (metric_laws::Change {
                    connections_total: 1,
                    bytes_total: (bytes.0 + bytes.1) as u64,
                    connections_active: -1,
                    ..metric_laws::unchanged()
                }),
            )
            &&& metric_laws::observed(
                old(m).connection_duration,
                final(m).connection_duration,
                nanos,
            )
            &&& final(m).handshake_duration == old(m).handshake_duration
        },
        outcome is Err ==> {
            &&& metric_laws::changed(
                *old(m),
                *final(m),
                (metric_laws::Change {
                    connections_total: 1,
                    connection_errors_total: 1,
                    connections_active: -1,
                    ..metric_laws::unchanged()
                }),
            )
            &&& metric_laws::no_duration(*old(m), *final(m))
        },
{
}

/// A handshake agreed on a tunnel if and only if it agreed on the protocol `il/mux/1`.
pub proof fn law_tunnels_are_agreed_on_by_name(alpn: Option<Vec<u8>>, agreed: bool)
    requires
        call_ensures(mux::is_mux, (&alpn,), agreed),
    ensures
        agreed <==> (alpn matches Some(protocol) && protocol@ == encode_utf8("il/mux/1"@)),
{
}

/// A proxy that nothing configures is of the trust domain `cluster.local`, has no identity and no
/// upstream of its own, serves 1024 connections and offers tunnels.
pub proof fn law_default_proxy(config: ProxyConfig, mux: bool)
    requires
        call_ensures(<ProxyConfig as Default>::default, (), config),
        call_ensures(config::default_mux_true, (), mux),
    ensures
        config.trust_domain@ == "cluster.local"@,
        config.identity is None,
        config.default_upstream is None,
        config.max_connections == Some(1024usize),
        config.mux,
        mux,
{
}

/// A proxy listens on every port but 0.
pub proof fn law_port_zero_switches_off(port: u16, wanted: bool)
    requires
        call_ensures(lifecycle::wants_listeners, (port,), wanted),
    ensures
        wanted <==> port != 0,
{
}

proof fn lemma_successes(bound: Seq<bool>)
    ensures
        lifecycle::successes(bound) == bound.filter(|b: bool| b).len(),
        lifecycle::successes(bound) <= bound.len(),
        lifecycle::successes(bound) == 0 <==> !bound.contains(true),
    decreases bound.len(),
{
    reveal(Seq::filter);
    if bound.len() > 0 {
        let shorter = bound.drop_last();
        lemma_successes(shorter);
        if bound.last() {
            assert(bound[bound.len() - 1]);
        } else if bound.contains(true) {
            let i = choose|i: int| 0 <= i < bound.len() && bound[i];
            assert(shorter[i]);
        } else if shorter.contains(true) {
            let i = choose|i: int| 0 <= i < shorter.len() && shorter[i];
            assert(bound[i]);
        }
    }
}

/// A proxy on a port other than 0 starts with every acceptor that could bind the port, if there is
/// one.
pub proof fn law_startup(port: u16, bound: Vec<bool>, start: Startup)
    requires
        call_ensures(lifecycle::startup, (port, &bound), start),
    ensures
        start is Disabled <==> port == 0,
        start is NotStarted <==> port != 0 && !bound@.contains(true),
        start matches Startup::Listening(n) ==> n == bound@.filter(|b: bool| b).len(),
{
    lemma_successes(bound@);
    assert(bound@.len() == bound.len());
}

/// An acceptor handles what it accepts, goes on after an error, and stops when the proxy does.
pub proof fn law_acceptors(event: AcceptorEvent, action: AcceptorAction)
    requires
        call_ensures(lifecycle::acceptor_step, (event,), action),
    ensures
        action is Handle <==> event is Accepted,
        action is Listen <==> event is Failed,
        action is Stop <==> event is Shutdown,
{
}

/// A limit begins without connections.
pub proof fn law_limits_begin_empty(limit: usize, connections: ConnectionLimit)
    requires
        call_ensures(ConnectionLimit::new, (limit,), connections),
    ensures
        connections.active == 0,
        connections.limit == limit,
{
}

/// A connection enters if and only if fewer than the limit are active; then it is one more, and
/// otherwise it is counted as rejected.
pub proof fn law_connections_enter_below_the_limit(
    connections: &mut ConnectionLimit,
    m: &mut InterlinkMetrics,
    entered: bool,
)
    requires
        call_ensures(ConnectionLimit::enter, (connections, m), entered),
    ensures
        entered <==> old(connections).active < old(connections).limit,
        final(connections).limit == old(connections).limit,
        entered ==> final(connections).active == old(connections).active + 1 && *final(m)
            == *old(m),
        !entered ==> final(connections).active == old(connections).active
            && metric_laws::no_duration(*old(m), *final(m)) && metric_laws::changed(
            *old(m),
            *final(m),
            (metric_laws::Change { saturation_rejections_total: 1, ..metric_laws::unchanged() }),
        ),
{
}

/// A connection that leaves is one fewer.
pub proof fn law_connections_leave(connections: &mut ConnectionLimit)
    requires
        old(connections).active > 0,
        call_ensures(ConnectionLimit::leave, (connections,), ()),
    ensures
        final(connections).limit == old(connections).limit,
        final(connections).active + 1 == old(connections).active,
{
}

/// A proxy that stops waits 30 seconds for its connections, and looks after them every 100
/// milliseconds until they are gone or the time is over.
pub proof fn law_proxies_drain(
    begun: u64,
    deadline: u64,
    active: usize,
    now: u64,
    drain: Drain,
)
    requires
        begun + 30_000 <= u64::MAX,
        call_ensures(lifecycle::drain_deadline, (begun,), deadline),
        call_ensures(lifecycle::drain_step, (active, now, deadline), drain),
    ensures
        drain is Complete <==> active == 0,
        drain is Expired <==> active > 0 && now >= begun + 30_000,
        drain matches Drain::Expired(left) ==> left == active,
        drain matches Drain::Wait(millis) ==> millis == 100,
{
}

/// The destination that the system reports is read in network order, byte by byte. The IPv4
/// destination comes first.
pub proof fn law_original_destinations(
    v4: Option<RawV4>,
    v6: Option<RawV6>,
    destination: Option<SocketAddress>,
)
    requires
        call_ensures(original_dst::get_original_dst, (v4, v6), destination),
    ensures
        destination is Some <==> v4 is Some || v6 is Some,
        destination matches Some(d) ==> d.flowinfo == 0 && d.scope_id == 0,
        v4 matches Some(raw) ==> {
            &&& destination matches Some(d)
            &&& d.port == raw.port@[0] * 0x100 + raw.port@[1]
            &&& d.ip matches IpAddress::V4(bits)
            &&& bits == raw.address@[0] * 0x100_0000 + raw.address@[1] * 0x1_0000
                + raw.address@[2] * 0x100 + raw.address@[3]
        },
        v4 is None ==> (v6 matches Some(raw) ==> {
            &&& destination matches Some(d)
            &&& d.port == raw.port@[0] * 0x100 + raw.port@[1]
            &&& d.ip matches IpAddress::V6(bits)
            &&& bits == quarter(raw.address@, 0) * 0x1_0000_0000_0000_0000_0000_0000
                + quarter(raw.address@, 4) * 0x1_0000_0000_0000_0000 + quarter(raw.address@, 8)
                * 0x1_0000_0000 + quarter(raw.address@, 12)
        }),
{
    if let Some(raw) = v4 {
        lemma_two_bytes(raw.port@);
        lemma_four_more(raw.address@);
        assert(raw.address@.take(0) =~= Seq::<u8>::empty());
    } else if let Some(raw) = v6 {
        let a = raw.address@;
        lemma_two_bytes(raw.port@);
        lemma_four_more(a.take(4));
        lemma_four_more(a.take(8));
        lemma_four_more(a.take(12));
        lemma_four_more(a);
        assert(a.take(4).take(0) =~= Seq::<u8>::empty());
        assert(a.take(8).take(4) =~= a.take(4));
        assert(a.take(12).take(8) =~= a.take(8));
    }
}

/// The number that four bytes write in network order.
pub open spec fn quarter(bytes: Seq<u8>, at: int) -> int {
    bytes[at] * 0x100_0000 + bytes[at + 1] * 0x1_0000 + bytes[at + 2] * 0x100 + bytes[at + 3]
}

proof fn lemma_two_bytes(bytes: Seq<u8>)
    requires
        bytes.len() == 2,
    ensures
        original_dst::network_order(bytes) == bytes[0] * 0x100 + bytes[1],
        original_dst::network_order(bytes) <= 0xffff,
{
    reveal_with_fuel(original_dst::network_order, 3);
    let one = bytes.drop_last();
    assert(one.drop_last() =~= Seq::<u8>::empty());
    assert(one.last() == bytes[0]);
}

proof fn lemma_four_more(bytes: Seq<u8>)
    requires
        bytes.len() >= 4,
    ensures
        original_dst::network_order(bytes) == original_dst::network_order(
            bytes.take(bytes.len() - 4),
        ) * 0x1_0000_0000 + quarter(bytes, bytes.len() - 4),
        original_dst::network_order(Seq::empty()) == 0,
{
    reveal_with_fuel(original_dst::network_order, 5);
    let three = bytes.drop_last();
    let two = three.drop_last();
    let one = two.drop_last();
    assert(one.drop_last() =~= bytes.take(bytes.len() - 4));
    assert(three.last() == bytes[bytes.len() - 2]);
    assert(two.last() == bytes[bytes.len() - 3]);
    assert(one.last() == bytes[bytes.len() - 4]);
}

/// A new pool keeps no connection.
pub proof fn law_pools_begin_empty<T>(kept: ConnectionPool<T>, upstream: Seq<char>)
    requires
        call_ensures(ConnectionPool::<T>::new, (), kept),
    ensures
        kept.well_formed(),
        kept.idle(upstream).len() == 0,
{
}

proof fn lemma_last_fresh<T>(idle: Seq<Pooled<T>>, now: u64)
    ensures
        -1 <= pool::last_fresh(idle, now) < idle.len(),
        forall|i: int|
            pool::last_fresh(idle, now) < i < idle.len() ==> now >= (#[trigger] idle[i]).added_at
                + 30_000_000_000,
        pool::last_fresh(idle, now) >= 0 ==> now < idle[pool::last_fresh(idle, now)].added_at
            + 30_000_000_000,
    decreases idle.len(),
{
    if idle.len() > 0 {
        lemma_last_fresh(idle.drop_last(), now);
        assert forall|i: int|
            pool::last_fresh(idle, now) < i < idle.len() implies now >= (
        #[trigger] idle[i]).added_at + 30_000_000_000 by {
            if i < idle.len() - 1 {
                assert(idle.drop_last()[i] == idle[i]);
            } else {
                assert(idle.last() == idle[i]);
            }
        }
    }
}

/// Whether a connection is the one to reuse: it has been idle for less than 30 seconds, and all
/// that became idle after it have not.
pub open spec fn is_reused<T>(idle: Seq<Pooled<T>>, now: u64, i: int) -> bool {
    &&& 0 <= i < idle.len()
    &&& now < idle[i].added_at + 30_000_000_000
    &&& forall|j: int| i < j < idle.len() ==> now >= (#[trigger] idle[j]).added_at + 30_000_000_000
}

/// The connection is reused that became idle last, if that was less than 30 seconds ago. Those
/// before it stay, and so do the connections to other upstreams.
pub proof fn law_fresh_connections_are_reused<T>(
    kept: &mut ConnectionPool<T>,
    upstream: &str,
    now: u64,
    stream: Option<T>,
)
    requires
        old(kept).well_formed(),
        call_ensures(ConnectionPool::<T>::checkout, (kept, upstream, now), stream),
    ensures
        final(kept).well_formed(),
        stream is Some <==> exists|i: int|
            0 <= i < old(kept).idle(upstream@).len() && now < (#[trigger] old(kept).idle(
                upstream@,
            )[i]).added_at + 30_000_000_000,
        forall|i: int| #[trigger]
            is_reused(old(kept).idle(upstream@), now, i) ==> stream == Some(
                old(kept).idle(upstream@)[i].stream,
            ) && final(kept).idle(upstream@) == old(kept).idle(upstream@).take(i),
        stream is None ==> final(kept).idle(upstream@).len() == 0,
        forall|other: Seq<char>|
            other != upstream@ ==> #[trigger] final(kept).idle(other) == old(kept).idle(other),
{
    let idle = old(kept).idle(upstream@);
    let last = pool::last_fresh(idle, now);
    lemma_last_fresh(idle, now);
    if last >= 0 {
        assert(is_reused(idle, now, last));
    }
    assert forall|i: int| #[trigger] is_reused(idle, now, i) implies i == last by {
        if last > i {
            assert(now >= idle[last].added_at + 30_000_000_000);
        }
    }
}

/// A connection that is given back is kept behind the others, unless eight are kept for its
/// upstream. The connections to other upstreams stay.
pub proof fn law_connections_are_kept_up_to_eight<T>(
    kept: &mut ConnectionPool<T>,
    upstream: &str,
    stream: T,
    now: u64,
)
    requires
        old(kept).well_formed(),
        call_ensures(ConnectionPool::<T>::checkin, (kept, upstream, stream, now), ()),
    ensures
        final(kept).well_formed(),
        old(kept).idle(upstream@).len() >= 8 ==> final(kept).idle(upstream@) == old(kept).idle(
            upstream@,
        ),
        old(kept).idle(upstream@).len() < 8 ==> {
            &&& final(kept).idle(upstream@).len() == old(kept).idle(upstream@).len() + 1
            &&& final(kept).idle(upstream@).drop_last() == old(kept).idle(upstream@)
            &&& final(kept).idle(upstream@).last().stream == stream
            &&& final(kept).idle(upstream@).last().added_at == now
        },
        forall|other: Seq<char>|
            other != upstream@ ==> #[trigger] final(kept).idle(other) == old(kept).idle(other),
{
    let idle = old(kept).idle(upstream@);
    assert(idle.push(Pooled { stream, added_at: now }).drop_last() =~= idle);
}

} // verus!
