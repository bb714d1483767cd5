# apue

Programs of the process-control, process-relationship, signal and thread
chapters of *Advanced Programming in the UNIX Environment*, with their logic
in a library whose functions carry contracts proved by Verus.

- `src/` — the library: signal sets as bit vectors, a table of many timers
  served by one alarm, decoding of wait statuses, naming the signals of a
  mask, reference-counted objects and the hash tables that hold them, a job
  queue, a message queue, and the small decisions of the programs.
- `tests/` — tests of the library on concrete values.
- Platforms: Linux and macOS; the contracts on libc's constants and wait
  status macros are stated for those two.
- `app/` — the programs themselves, one subcommand each (`app f06-exit-status`),
  which make the system calls and print what the library decides.
