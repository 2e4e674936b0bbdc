# ffi_callback

Accumulators that add `i32` numbers in batches and hand the total of every
complete batch to a callback.

- `src/engine.rs`: the mathematical model (`Tally`, `step`, `run`) and the
  proved laws about batches, totals and the limit.
- `src/accumulator.rs`: `AccumulatorSys` and `accumulator::Accumulator`, one
  callback borrowed for the accumulator's lifetime.
- `src/limited.rs`: `LimitedAccumulatorSys` and `Accumulator` (re-exported at
  the root), with a result callback and a limit callback.
- `src/ws.rs`: the per-session state of the websocket server.
- `app/`: the warp server (I/O, JSON, async plumbing).
