# SAM

SAM is the authoritative System Application Manager: applications register
with it over local IPC, report their health and mode in heartbeats, and take
part in a two-phase protocol (prepare, ready, commit, committed) through
which SAM changes the system mode.

## Layout

- `src/` is the library, verified with Verus. Each public function states
  its result in `ensures` over a mathematical model (sets and maps of
  application names, sequences of characters, the abstract phase of the
  transition protocol), and the laws of the protocol are public proof
  functions named `law_*`.
  - `types`, `messages`: the protocol's vocabulary and messages.
  - `participants`, `table`: sets and tables keyed by application name.
  - `registry`, `health`, `state`: the registry and health aggregation.
  - `mode`: the transition protocol as a state machine.
  - `service`: the shared service state that connections act on.
  - `transport`: endpoints, frame length prefixes and transport errors.
  - `runtime`: the decisions an application's runtime makes on SAM's
    messages.
  - `demo`, `auto_demo`: the demonstration applications' policy and SAM's
    automatic demonstration.
  - `text`: decimal and quoted text, and the order of names.
- `tests/` runs the library on concrete values.
- `app/` is the executable: sockets, async tasks, the console, logging and
  the wire encoding. It leaves every decision to the library.

Times inside the library are milliseconds on a monotonic clock, supplied by
the caller.
