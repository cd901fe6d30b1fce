# debounce_fltk

Debouncing, throttling and timeout timers for tokio and fltk programs.

- `src/` is the verified core: the state each tool keeps and the decision it
  makes at every period end or clock reading, each step with a contract over
  a mathematical model, plus laws proved over whole sequences of events.
  - `debounce.rs`: pending requests, latest parameter and skip flag of a
    debouncer.
  - `throttle.rs`: the same for a throttler, whose task runs only at period
    starts, keeps its parameter, and answers whether work stays pending.
  - `throttle_gate.rs`: the table behind `throttle_check`.
  - `timeout.rs`: the timeout timer as a state machine (`TimeoutType`).
- `app/` runs the machines: the clock, the locks, the tokio loops, the timer
  thread and the hand-over to the fltk UI thread (`TokioDebounce`,
  `TimeoutTask`, `throttle_check(task_id, limit)`).
- `tests/` drives the machines through simulated timelines (requests every
  100 ms against a 300 ms period, touches every 100 ms against a 300 ms
  timeout, and so on) and checks the number of runs and their parameters.
