# kevin_orchestrator

The decision core of an orchestrator for coding agents, written and proved in
Verus. A run goes from understanding a goal through questions, a plan, its tasks
and their integration to an evaluation; this crate decides every step of it, and
states in its contracts what it decides.

- `src/` is the library. It does no I/O: it takes events, answers and the outcome
  of outside work as plain values, and gives back commands, actions and rows.
  - `run_actor/`: the saga of one run, its views, jobs and recovery
  - `scheduler`, `task_runner`: what may start, and how one attempt goes
  - `projections/`: the read models as folds over events, with replay laws
  - `roles/`: prompt contexts, selection of questions, the structured turn
  - `services`, `ports`, `convert`, `testing` and the domain's values
- `tests/` runs it.
- `app/` is the engine around it: tokio tasks, the event store, Postgres.

Public proof functions whose names begin with `law_` state what holds of the
library as a whole. Calls into `serde_json`, `rust_decimal`, `uuid` and `chrono`
stand behind small functions in `json`, `money`, `ids` and `projections/query`,
whose contracts are trusted.
