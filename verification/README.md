# auto_agent

The automatic mode of a coding agent. An orchestrator model splits a task into a plan,
workers on models of the user's choice execute it one after the other, and the user
approves the plan and decides what happens when a worker fails.

* `src/` is the library. Everything in it is verified with Verus against the contracts
  on its functions; what holds of several functions together is stated in the `law_*`
  proof functions.
  * `auto/` holds the plan, its JSON forms, the orchestrator's prompt and replies, the
    worker, and the executor, a state machine that drives a run to its end.
  * `agent_bridge/` holds the store of sessions, messages and runs, the settings, and
    the turns that start, resume and end a run.
  * `prompt.rs` builds the system prompt; `json.rs`, `sqlite.rs`, `text.rs` and `clock.rs`
    are the ground the rest stands on, and hold most of what is taken from outside
    unproved.
* `tests/` runs the library on examples.
* `app/` is what the library leaves to its surroundings: SQLite, HTTP, image files, the
  clock, and the tasks on which runs and workers are executed.
