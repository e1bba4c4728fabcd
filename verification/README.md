# interlink

A sidecar proxy for a service mesh. It authenticates workloads by the SPIFFE ID in their X.509
certificates, authorizes every connection by policy (deny unless a rule allows), and carries
proxy-to-proxy traffic over mTLS, many connections to one multiplexed tunnel.

What the proxy decides is a library whose functions carry contracts that Verus proves. Sockets,
files, the clock and TLS records are handled by the program around it.

- `src/`: the library
  - `common/`: identities and patterns, configuration, errors, constants
  - `policy/`: who may talk to whom
  - `identity/`: where a workload's identity comes from, and a certificate authority
  - `x509.rs`: the identity in a certificate
  - `proxy/`: both proxies as state machines, credentials, peer verification, tunnels
  - `discovery/`: cached name lookups, one in flight per name
  - `protocol/`: recognition of application protocols
  - `admin/`, `metrics/`: health, readiness, reload; counters
  - `text.rs`, `bytes.rs`, `number.rs`, `net.rs`, `index.rs`: what the others share
- `tests/`: the library's tests
- `app/`: `interlinkd`, the program

Laws that span several functions stand in the `laws.rs` files, or next to what they are about, as
proof functions whose names begin with `law_`.

Functions and types marked `external_body`, and the `assume_specification` in `text.rs`, are
believed, not proved: they hold the calls into other crates. The comment above each says what is
believed of the call.
