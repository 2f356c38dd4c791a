# grove

The verified core of Grove, a macro-based actor framework: services whose
reads go through a shared lock and whose writes are serialized through a
command channel, with typed events, background tasks and channel metrics.

- `src/` is the library, verified with Verus: command metrics and the depth
  sample ring, the sampling rule, the cancellation token and its waker
  registry, the naming and sorting rules for generated service code, the
  macros' front ends (the parsed input read into plain values and the
  grammar of the `#[grove(...)]` words), the main loop's steps, and the state
  logic of the demo services.
- `app/` is the ordinary Rust around it: tokio task completion, the typed
  event emitter, the executor adapter for the cancellation future, the
  spawner traits and their smol adapter, the floating-point statistics, and
  the code templates behind the macros.
- `tests/` exercise the library.
