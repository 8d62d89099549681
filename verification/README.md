# rust_lib

Verified core of the firmware of a step-sequencer synthesizer controller.

- `src/` (Verus): the quadrature decoder of the rotary encoder, the
  sequencer state and how encoder detents and info requests change it, the
  charlieplexed LED scan, wrapping tick-counter time (instants, offsets,
  durations and their order), the software timer table (scheduling,
  cancelling, next wake-up, firing), the token count of semaphores, task
  name buffers, a set-once cell, and a store that feeds events to a state
  and shows every new state to a listener. Each public function carries a
  contract; the `lemma_*` proof functions state the laws that tie the
  functions together.
- `app/`: the host build around it: threads, mail queues, mutexes, the
  clock, blocking semaphores, the timer task loop, the main event loop,
  simulated pins and the debug output.
- `tests/`: scenarios for each module.
