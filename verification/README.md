# project_blaze

Core logic of a coordination system for medical-care robots, verified with
Verus, and a command-line program around it.

- `src/` is the verified library:
  - `task_queue`: FIFO task queue that can be closed; blocking pops report
    when the caller must wait.
  - `zones`: exclusive ownership of numbered zones by robots.
  - `health_monitor`: heartbeat times and offline detection on a monotonic
    clock whose readings never go back; every clock-reading operation has an `_at` twin that takes the time.
  - `zone_metrics`: occupancy counters and the violation flag of a run.
  - `sim`: run parameters, defaults and per-robot decisions of the demo,
    benchmark and stress runs.
  - `cli`, `text`: command-line parsing (number lists, flags, positional
    arguments, usage text).
  - `log_format`: padding and colour of debug log lines.
- `app/` is the program: threads, mutexes and condition variables around the
  library's state, timing, CPU usage through `libc`, and printing.
- `tests/` exercises the library.
