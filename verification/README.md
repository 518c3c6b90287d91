# rt — time executor

`rt` runs commands and reports how long they took and how much memory they
used. Usage: `rt [global keys] [--] [local keys] -c="command" ...`; keys
before `--` apply to every command, keys after it to the next `-c` command,
and a command's own key wins over a global one.

Layout:

- `src/` — the verified library (Verus): reading the command line
  (`args`, `text`, `number`), resolving keys (`keys`), planning a run and
  its report (`command`, `measure`, `report`), and the properties of the whole
  (`laws`).
- `app/main.rs` — the program: starts the processes, samples their memory
  with `sysinfo` (on every platform), does the floating-point arithmetic and
  writes out the numbers of the report, and prints.
- `tests/` — tests of the library.
