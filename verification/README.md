# karl

Hosts run compute requests for clients; a controller finds hosts over
mDNS; a dashboard lists them. This crate is the verified core of that
system:

- `src/host.rs` — a host's identity and paths, and its request token: a
  compute request is admitted only with the active token, which it uses up;
  the host renews the token after a request and on heartbeats.
- `src/package.rs`, `src/path.rs` — preparing a package: resolving imports,
  mapping them into the package root, and finding the binary to run.
- `src/packet.rs` — routing an incoming packet by its header type.
- `src/request.rs` — the requests a client sends.
- `src/controller.rs` — the set of discovered hosts, listed in order.
- `src/dashboard.rs` — the dashboard's data and its host listing.
- `src/service.rs`, `src/text.rs` — reading the service's settings, and
  decimal text.

`app/` holds the I/O around it: serde copies of the wire types, the
dashboard's HTTP routes, mDNS discovery, unpacking packages, the heartbeat
loop and the command line.
