# stg script core

The script layer of a deterministic bullet-hell engine, verified with Verus.

- `pool`, `checksum`, `math`, `enemy`, `bullets`, `events`, `boss`, `consts`:
  generation-checked pools, FNV-1a state checksums, fixed-point values, the
  packed enemy numbers and the records the script layer exchanges with the
  world.
- `ecl::image`: the loaded script image (subs, entries, marks) and its
  load-time validation, code included (`code_valid`: every instruction
  decodes, with legal operands and targets).
- `ecl::task`, `ecl::shooter`: the task pool (lowest free slot first,
  detaching children on kill) and the per-task shooter slots.
- `ecl::vm`: the interpreter (`exec`, described step by step by `is_run`),
  its pure semantics (`run_spec`) and the per-frame scheduler (`gate`,
  `run_slot`, `run_tasks`).
- `ecl::syscall`: the frozen syscall table and its handlers.
- `ecl::binding`: starting the main script and entries from the host.
- `world`: the part of the world state the script layer owns (frame,
  diagnostics, players) and `Simulation`, the interface through which it
  reaches the rest of the simulation.

Laws that span several operations are public proof functions named
`law_*` (pool handles, task slots, the interpreter's sandbox).
