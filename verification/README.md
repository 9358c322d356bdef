# neon_rtos2

A small real-time kernel for Cortex-M3 and RISC-V microcontrollers, written
as a Verus library: every kernel service is a function on an explicit kernel
state with a contract that Verus proves.

## Layout

- `src/kernel` — the task table (`task`), the schedulers with their ready
  queues and bitmap (`scheduler`), the tick counter and the software timers
  (`time`). `Kernel` is the whole kernel state; every service takes it.
- `src/sync` — events and task wake-ups, kernel mutexes, signals, waiter lists.
- `src/ipc` — bounded message queues (`queue`) and handle-addressed queues
  with typed messages (`channel`); `src/ipc_elegant.rs` holds the fixed-id
  typed channels.
- `src/runtime` — the async executor's bookkeeping and the step functions of
  the small futures and of the async signal.
- `src/drivers`, `src/hal` — driver and port traits, the STM32F1 DMA UART
  state machine, the register bitfield, and the port computations (first
  stack frame, MPU and PMP values, context switch).
- `src/log` — the level filter and the log writer.
- `app/` — what runs around the library on the target: the one kernel
  instance, interrupt handlers, register writes, the heap, log devices, the
  futures and wakers, and the waiting loops of blocking calls.
- `tests/` — the test suite.

Blocking services are split: the library makes one attempt and, when the
caller must wait, blocks the current task and says so; the caller then
switches tasks and tries again.
