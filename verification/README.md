# dns_resolve

The decisions of a DNS layer for an HTTP client, verified with Verus.

- `src/name.rs`: host names that are handed to a resolver.
- `src/addr.rs`: network addresses as plain values.
- `src/target.rs`: what a URI says about where to connect, and how the
  addresses of an answer get their ports.
- `src/resolver.rs`: putting the question for a name or for a URI.
- `src/overrides.rs`: names whose addresses are fixed in advance.
- `src/tracking.rs`: the addresses that each host had at its last resolution,
  and the connections that they make obsolete.
- `src/laws.rs`: what holds of the library as a whole.

The library does no I/O and takes no lock. Its functions say what to ask and
take the answer as an argument. `app/` holds the asynchronous resolvers: they
await the answers and share the table of addresses behind a lock.
