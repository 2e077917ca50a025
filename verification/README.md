# checkpoint-ts

An interactive checkpoint debugger for TypeScript and JavaScript. It
instruments a program's function calls, runs it under Bun, pauses at each
checkpoint and lets the user continue, skip a call with a return value of
their choosing, or edit its arguments, while a terminal dashboard shows the
call timeline, the logs and a profile of the run.

The crate is written in Verus. Its logic lives in `src/` and is proved
against the contracts stated there; `app/` is the program around it.

## Layout

- `src/` — the verified library:
  - `ipc` — the four message rings in one shared memory region, modelled
    byte for byte: sending, receiving, setting up a region;
  - `dashboard`, `panels`, `tui`, `profiler`, `history` — the dashboard's
    state machine (pauses, completions, skips, edits, logs, scrolling), what
    each panel shows, what each key does, the profile table's order and
    number formats;
  - `instrument` — which calls are wrapped, how, and in what context;
  - `transform`, `cache`, `project`, `entry`, `runtime` — planning the
    transformation of a project, the transform cache, finding the project
    root and the entry file, starting the runtime;
  - `rpc` — the Discord rich-presence payloads and frames;
  - `workbench` — a second front end over a sample session;
  - `text`, `json`, `clock` — small text helpers and the outside calls for
    JSON parsing and the clock.
- `tests/` — tests of the library on concrete values.
- `app/` — `main`, file and process I/O, the terminal drawing, the swc-based
  syntax tree rewriting, and the statistics kept in floating point.

## What is proved

Every public function in `src/` has a contract that fixes its result or the
new state. Laws stated and proved as proof functions include:

- the rings deliver messages in the order sent, none lost and none twice
  (`law_ring_order`, `law_burst_round_trip`, `law_first_in_first_out`), hold
  at most 15 messages (`law_ring_capacity`) and do not disturb each other
  (`law_rings_independent`);
- request ids count up from 1 (`law_request_ids_count_up`);
- paused checkpoints are answered oldest first
  (`law_oldest_checkpoint_answered_first`), the log panel keeps its capacity
  (`law_log_panel_bounded`), scrolling stays on a page;
- method chains, `new Foo().bar()`, curried calls and IIFEs are never
  instrumented (`law_chains_are_not_instrumented`);
- a cache read returns the last write (`law_cache_read_your_write`);
- going back undoes navigation, and Ctrl-C quits from anywhere;
- a Discord frame decodes to what it was encoded from
  (`law_frame_round_trip`).

Calls into outside crates (sha2, chrono, serde_json, `std::path`) sit behind
small trusted wrappers whose contracts state what those crates document.
