# govrix_budget

Token budgets for AI agents, verified with Verus.

- `src/policy.rs` — a tracker with a global token cap and per-agent token
  caps that checks and records each request in one step (global stage first,
  then the agent stage), and the stateless daily check.
- `src/proxy/budget.rs` — the daily tracker of the proxy: per-agent and
  global daily caps, alerts from 90% of a cap on, saturating usage that
  starts again from zero on a new UTC day.
- `src/proxy/handlers.rs` — what the budget and project endpoints decide
  around their store calls (identifier parsing, status of each outcome, the
  window of a cost summary).
- `src/agent_map.rs` — the map from agent ids used by both trackers.
- `src/text.rs` — decimal rendering of counts in messages.

Costs in US dollars are floating-point amounts; they are compared and
accumulated in `app/`, which hands the outcome of each cost comparison to the
verified trackers. `app/` also holds the serde forms of the configuration and
request types and the HTTP handlers, which call the project's store crate.
