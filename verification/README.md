# crows

The verified core of Crows, a distributed load and stress testing runner
whose scenarios are WebAssembly modules.

`src/` is the library, checked by Verus:

- `time`: durations with nanosecond precision.
- `config`: executor configuration and how it is split between workers.
- `executors`: pacing of the constant arrival rate executor.
- `runtime`: the pool of scenario instances (reserve, check out, check in).
- `coordinator`: uploaded scenarios, run planning and worker selection.
- `services`: messages and errors exchanged between the components.
- `bindings`, `host`: the HTTP types of scenario modules and their host, and
  the packed word a host call answers with.
- `http_client`: where a request connects, and the per-connection transfer
  measurements.
- `output`, `summary`, `printers`: worker output cut into lines, progress
  per worker, and the exact parts of the end-of-run summary.
- `cli`, `text`: `KEY=VALUE` settings and text helpers.

`app/` holds what the library leaves out: serialisable copies of the types,
terminal output, floating-point figures, the scenario-side host imports and
the asynchronous executor loop.
