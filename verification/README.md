# astra_core

An activity-sensing service. Simulated (or real) keyboard and mouse sensors
emit events; a pattern engine recognises repeated window titles, high
backspace rates, typing bursts and window instability over sliding time
windows; a behavior engine tallies recent events into rates; an intent
engine scores what the user is doing and switches its verdict with a dwell
time.

Layout:

- `src/` — the verified library (Verus). Time is read from monotonic clocks
  as nanoseconds since the clock's creation; each rule also has a variant
  taking the time as an argument, which carries the exact contract.
  - `state.rs` — service counters, the heartbeat and mode-rotation steps.
  - `clock.rs` — the clocks (`std` and `tokio` instants), whose readings
    never go back.
  - `stamped.rs` — time-stamped entries: recent entries, dropping a stale
    prefix, time order, and their lemmas.
  - `sensors/` — sensor events, the simulated keyboard and mouse rounds
    (random draws through `rand`), and the device-poll decision.
  - `patterns/` — the pattern rules and their laws.
  - `behavior/` — event conversion, the sliding window and event tallies.
  - `intent/` — pattern weights, activity tracking and the switch decision.
- `app/` — the program: tokio tasks and channels, device and window I/O,
  logging, and the floating-point parts (rates, smoothing, intent scores).
- `tests/` — tests of the library.
