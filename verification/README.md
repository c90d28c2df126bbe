# weaver

Weaver is a small fact bus. A core process keeps a space of facts about
entities, an append-only trace of everything that happened, and an
authority map that lets exactly one connection write each fact family of
an entity. Services talk to it over a Unix socket with length-prefixed
CBOR frames. `weaver-buffers` is such a service: it opens files, publishes
their `buffer/*` facts and polls them for changes; edit batches are
validated and applied atomically against its in-memory copy.

## Layout

- `src/` — the library, verified with Verus. Every operation carries a
  `requires`/`ensures` contract over mathematical models (maps of facts,
  sequences of trace entries, byte sequences of buffers).
  - `types/`, `provenance.rs` — identifiers, facts, events, bus messages.
  - `fact_space/` — the fact store and its snapshots.
  - `trace/` — the trace and its lookups.
  - `behavior/` — the dispatcher: ingest, authority, ownership, release.
  - `bus/` — framing, handshake, per-message handling of the listener.
  - `inspect/` — fact inspection.
  - `buffers/` — buffer state, line index, edit validation and
    application, the publisher's decisions.
  - `cli/` — parsing, configuration precedence, error taxonomy, output
    text of the `weaver` command.
  - `text.rs`, `keyed.rs` — verified string building and parsing, keyed
    sequences.
- `tests/` — executable tests of the library.
- `app/` — the programs: sockets, files, timers, signals, serde shapes
  and command-line parsing around the library.
