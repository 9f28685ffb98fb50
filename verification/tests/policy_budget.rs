use govrix_budget::policy::{check_budget, BudgetConfig, BudgetLimit, BudgetResult, BudgetTracker};

// ── BudgetTracker ────────────────────────────────────────────────────────────
// Costs are compared outside the tracker; these requests carry no cost
// breach (`None`, `false`), as no cost cap is set.

/// No limits set → every call is allowed regardless of usage.
#[test]
fn tracker_no_limits_always_within_budget() {
    let mut tracker = BudgetTracker::new();
    assert_eq!(
        tracker.check_and_record("agent-a", 1_000_000, None, false),
        BudgetResult::WithinBudget
    );
}

/// Global token limit: first call fits, second call exceeds.
#[test]
fn tracker_global_token_limit_exceeded() {
    let mut tracker = BudgetTracker::new();
    tracker.set_global_limit(BudgetLimit { max_tokens: Some(1_000) });

    assert_eq!(
        tracker.check_and_record("agent-a", 500, None, false),
        BudgetResult::WithinBudget
    );
    let result = tracker.check_and_record("agent-a", 600, None, false);
    assert!(
        matches!(result, BudgetResult::Exceeded { .. }),
        "expected Exceeded, got {result:?}"
    );
}

/// Agent-specific token limit exceeded while global is fine.
#[test]
fn tracker_agent_token_limit_exceeded() {
    let mut tracker = BudgetTracker::new();
    tracker.set_agent_limit("agent-x".to_string(), BudgetLimit { max_tokens: Some(200) });

    assert_eq!(
        tracker.check_and_record("agent-x", 100, None, false),
        BudgetResult::WithinBudget
    );
    let result = tracker.check_and_record("agent-x", 150, None, false);
    assert!(
        matches!(result, BudgetResult::Exceeded { .. }),
        "expected Exceeded, got {result:?}"
    );
}

/// Agent with no configured limit is never blocked, even when another agent
/// has a limit set.
#[test]
fn tracker_unlimited_agent_never_blocked() {
    let mut tracker = BudgetTracker::new();
    tracker.set_agent_limit("limited".to_string(), BudgetLimit { max_tokens: Some(50) });

    assert_eq!(
        tracker.check_and_record("unlimited", 1_000_000, None, false),
        BudgetResult::WithinBudget
    );
}

#[test]
fn tracker_accumulates_tokens_per_agent() {
    let mut tracker = BudgetTracker::new();
    tracker.check_and_record("agent-a", 100, None, false);
    tracker.check_and_record("agent-a", 200, None, false);
    assert_eq!(tracker.get_agent_usage("agent-a"), 300);
}

#[test]
fn tracker_reset_clears_tokens() {
    let mut tracker = BudgetTracker::new();
    tracker.set_global_limit(BudgetLimit { max_tokens: Some(600) });
    tracker.check_and_record("agent-a", 500, None, false);
    tracker.reset();
    assert_eq!(tracker.get_agent_usage("agent-a"), 0);
    // The cap stays, and the global usage started again from zero.
    assert_eq!(tracker.check_and_record("agent-a", 600, None, false), BudgetResult::WithinBudget);
    assert!(matches!(
        tracker.check_and_record("agent-a", 1, None, false),
        BudgetResult::Exceeded { .. }
    ));
}

#[test]
fn tracker_agents_tracked_independently() {
    let mut tracker = BudgetTracker::new();
    tracker.check_and_record("agent-1", 100, None, false);
    tracker.check_and_record("agent-2", 999, None, false);
    assert_eq!(tracker.get_agent_usage("agent-1"), 100);
    assert_eq!(tracker.get_agent_usage("agent-2"), 999);
    assert_eq!(tracker.get_agent_usage("agent-3"), 0);
}

#[test]
fn tracker_global_reason_names_the_numbers() {
    let mut tracker = BudgetTracker::new();
    tracker.set_global_limit(BudgetLimit { max_tokens: Some(1_000) });
    tracker.check_and_record("agent-a", 500, None, false);
    assert_eq!(
        tracker.check_and_record("agent-a", 600, None, false),
        BudgetResult::Exceeded {
            reason: "global token budget exceeded: 500 + 600 > 1000".to_string()
        }
    );
}

#[test]
fn tracker_agent_reasons_name_the_agent() {
    let mut tracker = BudgetTracker::new();
    tracker.set_agent_limit("agent-x".to_string(), BudgetLimit { max_tokens: Some(10) });
    assert_eq!(
        tracker.check_and_record("agent-x", 11, None, false),
        BudgetResult::Exceeded { reason: "agent agent-x token budget exceeded".to_string() }
    );
    assert_eq!(
        tracker.check_and_record("agent-x", 1, None, true),
        BudgetResult::Exceeded { reason: "agent agent-x cost budget exceeded".to_string() }
    );
    // Refused at the agent stage: nothing was recorded for the agent.
    assert_eq!(tracker.get_agent_usage("agent-x"), 0);
}

#[test]
fn tracker_global_cost_breach_refuses_only_under_a_global_limit() {
    let mut tracker = BudgetTracker::new();
    // No global limit: a cost breach reason is not considered.
    assert_eq!(
        tracker.check_and_record("agent-a", 5, Some("over".to_string()), false),
        BudgetResult::WithinBudget
    );
    tracker.set_global_limit(BudgetLimit { max_tokens: None });
    assert_eq!(
        tracker.check_and_record("agent-a", 5, Some("global cost budget exceeded".to_string()), false),
        BudgetResult::Exceeded { reason: "global cost budget exceeded".to_string() }
    );
    // Refused at the global stage: nothing was recorded.
    assert_eq!(tracker.get_agent_usage("agent-a"), 5);
}

#[test]
fn tracker_agent_cost_breach_needs_an_agent_limit() {
    let mut tracker = BudgetTracker::new();
    assert_eq!(tracker.check_and_record("agent-a", 5, None, true), BudgetResult::WithinBudget);
}

#[test]
fn tracker_global_usage_recorded_before_agent_check() {
    let mut tracker = BudgetTracker::new();
    tracker.set_global_limit(BudgetLimit { max_tokens: Some(100) });
    tracker.set_agent_limit("agent-x".to_string(), BudgetLimit { max_tokens: Some(10) });
    // Refused by the agent's cap, but the 60 tokens count globally.
    assert!(matches!(
        tracker.check_and_record("agent-x", 60, None, false),
        BudgetResult::Exceeded { .. }
    ));
    assert_eq!(tracker.get_agent_usage("agent-x"), 0);
    assert_eq!(
        tracker.check_and_record("agent-y", 41, None, false),
        BudgetResult::Exceeded {
            reason: "global token budget exceeded: 60 + 41 > 100".to_string()
        }
    );
}

#[test]
fn tracker_halves_compose() {
    let mut tracker = BudgetTracker::new();
    tracker.set_global_limit(BudgetLimit { max_tokens: Some(100) });
    assert_eq!(tracker.check_and_record_global(40, None), None);
    assert_eq!(tracker.check_and_record_agent("agent-a", 40, false), BudgetResult::WithinBudget);
    assert_eq!(tracker.get_agent_usage("agent-a"), 40);
    assert!(tracker.check_and_record_global(61, None).is_some());
}

#[test]
fn tracker_default_is_empty() {
    let mut tracker = BudgetTracker::default();
    assert_eq!(tracker.get_agent_usage("x"), 0);
    assert_eq!(tracker.check_and_record("x", u64::MAX, None, false), BudgetResult::WithinBudget);
    assert_eq!(tracker.get_agent_usage("x"), u64::MAX);
}

// ── check_budget ─────────────────────────────────────────────────────────────

fn cfg(token_limit: Option<u64>) -> BudgetConfig {
    BudgetConfig { daily_token_limit: token_limit }
}

#[test]
fn no_limits_always_within_budget() {
    let c = cfg(None);
    assert!(check_budget(&c, 1_000_000));
}

#[test]
fn within_token_limit() {
    let c = cfg(Some(10_000));
    assert!(check_budget(&c, 5_000));
}

#[test]
fn at_token_limit_not_exceeded() {
    let c = cfg(Some(10_000));
    assert!(check_budget(&c, 10_000));
}

#[test]
fn token_limit_exceeded() {
    let c = cfg(Some(10_000));
    assert!(!check_budget(&c, 10_001));
}

/// The token half: 1001 tokens pass the 1000-token cap, whatever the cost.
#[test]
fn cost_ok_tokens_exceeded() {
    let c = cfg(Some(1_000));
    assert!(!check_budget(&c, 1_001));
}

#[test]
fn tracker_global_cost_refusal_needs_no_token_room() {
    let mut tracker = BudgetTracker::new();
    tracker.set_global_limit(BudgetLimit { max_tokens: None });
    tracker.check_and_record("a", u64::MAX, None, false);
    // Refused on cost: nothing is added, so the full global usage is fine.
    assert_eq!(
        tracker.check_and_record("a", 1, Some("cost".to_string()), false),
        BudgetResult::Exceeded { reason: "cost".to_string() }
    );
    assert_eq!(tracker.get_global_usage(), u64::MAX);
}

#[test]
fn check_budget_edges() {
    assert!(check_budget(&cfg(Some(0)), 0));
    assert!(!check_budget(&cfg(Some(0)), 1));
    assert!(check_budget(&cfg(Some(u64::MAX)), u64::MAX));
    assert!(check_budget(&BudgetConfig::default(), u64::MAX));
}

#[test]
fn tracker_agent_usage_never_exceeds_global_usage() {
    let mut tracker = BudgetTracker::new();
    tracker.set_agent_limit("small".to_string(), BudgetLimit { max_tokens: Some(5) });
    assert_eq!(tracker.get_global_usage(), 0);
    tracker.check_and_record("small", 10, None, false);
    tracker.check_and_record("big", 7, None, false);
    tracker.check_and_record("small", 4, None, false);
    assert_eq!(tracker.get_global_usage(), 21);
    assert_eq!(tracker.get_agent_usage("small"), 4);
    assert_eq!(tracker.get_agent_usage("big"), 7);
    assert!(tracker.get_agent_usage("small") + tracker.get_agent_usage("big") <= tracker.get_global_usage());
}
