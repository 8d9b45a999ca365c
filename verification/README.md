# velocitas_fix

A FIX protocol engine whose logic is verified with Verus: the message parser and
serializer, checksums, the session state machine, the connection acceptor, repeating
groups, FIXT.1.1 version negotiation, the dictionary compiler, the journal, the cluster
replication state, the monitoring dashboard, metrics rendering and the decisions of the
per-connection engine. Each public function states what it returns or changes in its
contract, and the laws that tie functions together (what the parser reads back of what
the serializer writes, what a journal read gives back of an append, what a snapshot
restores, the order in which a buffer pool hands out slots) are proof functions.

Layout:

- `src/` — the verified library, one module per part of the engine. Calls into
  `memmap2` (the journal's memory map) and into std where vstd gives no specification
  (clocks, I/O error kinds, number formatting) stand behind small trusted wrappers whose
  doc comments say what they assume.
- `tests/` — the test suites, run against the compiled library.
- `app/` — what waits on the world: sockets, files, threads, the in-process Aeron bus,
  latency histograms (`hdrhistogram`), the run loop that drives a `FixEngine` and calls
  the application's callbacks, and the demo and benchmark programs.
