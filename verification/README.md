# aur_tester

A sandbox for building AUR packages: the package is cloned, the hosts named
by the URLs of its `PKGBUILD` (plus a few package hosts) become the allowed
domains, the build runs in a Docker container, and a packet sniffer on the
Docker bridge attributes every TCP connection of the container to the domain
a DNS answer named for its destination. A connection to a domain that is not
allowed, or to an address no DNS answer named, stops the build and is listed
in the final report.

Layout:

- `src/` — the verified library (Verus):
  - `domains.rs` — a set of domain names without repetitions;
  - `pkgbuild.rs` — the allowed domains of a `PKGBUILD` (URL hosts are
    captured with the `regex` crate);
  - `packet.rs` — decoding of Ethernet frames (`etherparse`) and DNS
    answers (`dns_parser`) into plain values, and IPv4 text;
  - `sniffer.rs` — the sniffer's DNS cache and its verdict on each frame;
  - `supervisor.rs` — what to do on each event of a build;
  - `aur.rs` — AUR RPC and git URLs, and the paths of a build.
- `app/` — the program: command line, AUR HTTP query, git and Docker,
  packet capture, and the event loop.
- `tests/` — tests of the library on concrete values.
