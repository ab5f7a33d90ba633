# task_scheduler

An event-driven task scheduler with verified contracts.

- `src/event.rs`: events, event types, and handler lists.
- `src/task.rs`: task state (lifecycle state, retry counters, string
  properties), the traits concrete tasks implement, and a task factory.
- `src/scheduler.rs`: the scheduler; the most recently queued event is
  dispatched first, to every registered task that accepts it.
- `src/logger.rs`: log levels, a shared logger that keeps records to be
  written, and a task that turns log events into records.
- `src/printer.rs`, `src/messaging.rs`, `src/demo.rs`: the tasks and rules
  of the two demonstrations; a message task decides what it logs and which
  message it sends, and hands the message back to be queued.
- `src/text.rs`: string helpers.
- `app/`: the command-line program; it writes the logger's records and runs
  the message-passing demonstration, holding the queue the message tasks
  share with the scheduler and pushing the messages they hand back.
