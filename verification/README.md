# monmon

Monitors with Hoare semantics, verified with Verus where the logic allows it.

- `src/monitor_state.rs` — the state machine of a monitor server: who holds the
  monitor, who waits to enter, which signalers wait to resume, who waits on each
  condition, and whom each request wakes. Its laws (consistency of every reachable
  state, replies that match the queues, conservation of clients, Hoare hand-off
  on signal, Mesa broadcast, priority of parked signalers) are proved there.
- `src/message.rs`, `src/wire.rs` — the 16-byte frames clients send, built on
  bincode's variable-length integers, with a proof that decoding inverts encoding.
- `src/semaphore.rs`, `src/condition_variables.rs`, `src/semaphore_monitor.rs`,
  `src/futex_monitor.rs` — monitors over shared atomics and futexes. Each
  blocking step is a single attempt, verified free of panics and overflow but with
  no contract on what it reads or returns, since the values it works on change
  under other threads; the retry loop that repeats it until it succeeds lives in
  `app/`.
- `src/synchronised.rs` — the work of the `synchronised` attribute on the text of
  its argument and of the function it marks: parsing both with `syn`, choosing the
  monitor (the argument, or else the first `&impl Monitor` parameter), and writing
  the function with its body between `enter()` and `leave()`. Only the token-stream
  entry point of a procedural-macro crate is left outside; this layout builds no
  such crate.
- `src/shared_monitor.rs` — a monitor whose kind is chosen at run time.
- `src/dbg`, `src/debug` — configuration and shared counters of the race
  demonstrations.
- `app/` — the monitor trait and its blocking loops, the socket server and client,
  and the demonstration program that races threads under each scheme.
