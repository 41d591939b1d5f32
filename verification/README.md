# goal_loop

Goal-driven loops for coding agents, verified with Verus.

A user states a goal in a sentence. The loop has it broken down into plan items,
has each item carried out by a sub-agent, verifies what came of it, and stops when
every item has passed, when a budget is used up, or when the user says so.

- `src/` decides. It holds the state machine of the loop (`loop_state`), the
  controller that follows it (`controller`), the budget, the reading of planners'
  replies (`prompts`), what checks take and what their outcomes mean (`verdicts`,
  `search`), and what is shown (`side_panel`, `cli`). Each function states what it
  returns; `loop_laws` states what holds of every loop: it keeps to its state
  machine, runs no shell command without leave, keeps passed work, respects its
  caps, tells its outcome, and ends.
- `app/` acts. It talks to planners, sub-agents and verifiers, runs commands, reads
  files, prints, and reads and writes JSON.
- `tests/` runs the library on concrete values.
