# process_ownership

Ownership evidence for natively spawned processes, and the bookkeeping of
owned-termination operations, verified with Verus.

- `src/token.rs`: the opaque ownership token handed out when a process is spawned.
- `src/identity.rs`: native process identities, the verdict of comparing a recorded
  identity with the current one, the parser of Linux `/proc/<pid>/stat` lines, and the
  assembly of identities from what the operating system reported.
- `src/registry.rs`: the registry of owned-termination operations (reserve, accept,
  refuse, complete, status queries, retention and capacity), specified over an abstract
  state, with the laws it keeps.
- `src/protocol.rs`: the protocol types, and their redacted debug texts.
- `src/path.rs`: paths compared component by component, as `std::path::Path` compares them.
- `src/keyed.rs`, `src/text.rs`, `src/debug_text.rs`: a string-keyed store viewed as a
  map, character-level text helpers, and debug-text layout.
- `app/`: what Verus does not see: the registry shared behind a tokio mutex, the
  serialisable wire forms of the protocol types, and the reads of `/proc` and the
  Windows API calls that capture process identities.
