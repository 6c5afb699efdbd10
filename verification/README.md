# networker-tester

The measurement logic of a network tester, written in Verus: every function
in `src/` carries a contract that Verus proves.

- `src/` — the library: path-MTU search, traceroute state, ICMP echo framing
  and checksums, DNS CNAME chains, proxy selection and request routing,
  page-load planning and tallies, the DevTools network-event drain of the
  browser probe, throughput attribution and ramp control, certificate
  fields and SPKI pins, and the text helpers they share. URLs are held as
  their serialized text; the `url`, `x509-parser`, `sha2` and `base64`
  crates are called through small trusted wrappers whose contracts name
  what they return.
- `tests/` — tests of the library.
- `app/` — a command-line front end: sockets, processes, files and the
  floating-point arithmetic that the library leaves to its caller.
