# shared_scheduler

A verified priority scheduler for coroutines whose scheduling state is shared between a
kernel and its user processes.

- `src/` is the library, verified with Verus:
  - `bitmap`: priority bitmaps;
  - `coroutine`: coroutine ids, kinds and records;
  - `runtime`: the executor of one process — per-thread ready sets for each priority,
    pending sets, and the bitmaps and priorities that summarise them, with the invariant
    that the process priority is the highest priority ready in the process and each
    thread's priority the highest priority ready on that thread;
  - `fifo_runtime`: an executor variant with one first-in first-out queue per thread and
    priority, and the step that ends each run of a coroutine;
  - `sharedscheduler`: the shared priority arrays from which the kernel picks the next
    process and thread, and the steps of a polling loop;
  - `manager`: the kernel's ready queue of tasks and its process table;
  - `syscall`: system-call numbers and arguments, and the coroutine id word;
  - `http`, `hexdump`: request classification, response framing and hex dumps for the
    demo web server;
  - `least`: the least element of an ordered set.
- `app/` holds what touches the machine: polling futures, the executor lock, the traps into
  the kernel, the heap set-up, the web server's socket I/O, and the demo programs.
- `tests/` exercises the library on concrete values.
