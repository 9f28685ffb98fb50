use govrix_budget::agent_map::AgentMap;
use govrix_budget::proxy::budget::{
    check_token_limit, tokens_as_bigint, AgentBudget, BudgetLimit, BudgetPolicy, BudgetTracker,
    DailyUsage,
};
use govrix_budget::proxy::types::{AlertSeverity, PolicyAction};
use govrix_budget::text::decimal_string;

// Costs are checked outside the tracker: these checks pass no cost outcome
// (`None`), as no cost cap is set.

fn make_agent_policy(agent_id: &str, daily_tokens: Option<u64>) -> BudgetPolicy {
    let mut policy = BudgetPolicy::default();
    policy.agent_limits.insert(
        agent_id.to_string(),
        AgentBudget { agent_id: agent_id.to_string(), daily_token_limit: daily_tokens },
    );
    policy
}

// ── check_budget: Allow ───────────────────────────────────────────────────

#[test]
fn allow_when_under_token_limit() {
    let policy = make_agent_policy("agent-1", Some(1_000_000));
    let tracker = BudgetTracker::new(policy);
    let action = tracker.check_budget("agent-1", 500_000, None, None);
    assert_eq!(action, PolicyAction::Allow);
}

#[test]
fn allow_when_no_policy_for_agent() {
    let tracker = BudgetTracker::unlimited();
    let action = tracker.check_budget("unknown-agent", 999_999_999, None, None);
    assert_eq!(action, PolicyAction::Allow);
}

// ── check_budget: Block ───────────────────────────────────────────────────

#[test]
fn block_when_over_token_limit() {
    let policy = make_agent_policy("agent-1", Some(100));
    let mut tracker = BudgetTracker::new(policy);
    tracker.record_usage("agent-1", 90);
    let action = tracker.check_budget("agent-1", 20, None, None); // 90 + 20 > 100
    assert!(matches!(action, PolicyAction::Block { .. }));
}

// ── check_budget: Alert at 90% ────────────────────────────────────────────

#[test]
fn alert_when_approaching_token_limit() {
    let policy = make_agent_policy("agent-1", Some(1_000));
    let mut tracker = BudgetTracker::new(policy);
    tracker.record_usage("agent-1", 850);
    let action = tracker.check_budget("agent-1", 100, None, None); // 950/1000 = 95%
    assert!(matches!(
        action,
        PolicyAction::Alert {
            severity: AlertSeverity::High,
            ..
        }
    ));
}

// ── record_usage ──────────────────────────────────────────────────────────

#[test]
fn record_usage_multiple_agents() {
    let mut tracker = BudgetTracker::unlimited();
    tracker.record_usage("agent-1", 100);
    tracker.record_usage("agent-2", 200);
    assert_eq!(tracker.current_usage("agent-1").tokens, 100);
    assert_eq!(tracker.current_usage("agent-2").tokens, 200);
}

// ── Global limits ─────────────────────────────────────────────────────────

#[test]
fn block_on_global_token_limit() {
    let policy = BudgetPolicy {
        global_limit: Some(BudgetLimit { daily_token_limit: Some(500) }),
        ..Default::default()
    };
    let mut tracker = BudgetTracker::new(policy);
    tracker.record_usage("agent-1", 300);
    tracker.record_usage("agent-2", 150); // global total: 450
    // Next request would push global total to 450 + 60 = over limit
    let action = tracker.check_budget("agent-3", 60, None, None);
    assert!(matches!(action, PolicyAction::Block { .. }));
}

#[test]
fn allow_when_global_limit_not_reached() {
    let policy = BudgetPolicy {
        global_limit: Some(BudgetLimit { daily_token_limit: Some(1_000_000) }),
        ..Default::default()
    };
    let tracker = BudgetTracker::new(policy);
    let action = tracker.check_budget("agent-1", 100, None, None);
    assert_eq!(action, PolicyAction::Allow);
}

// ── Token overflow safety ─────────────────────────────────────────────────

#[test]
fn record_usage_saturates_at_max() {
    let mut tracker = BudgetTracker::unlimited();
    tracker.record_usage("agent-1", u64::MAX);
    tracker.record_usage("agent-1", 1); // saturating_add → no overflow
    let usage = tracker.current_usage("agent-1");
    assert_eq!(usage.tokens, u64::MAX);
}

// ── token cast safety ─────────────────────────────────────────────────────

#[test]
fn token_cast_saturates_at_i64_max() {
    let tokens: u64 = u64::MAX;
    let tokens_i64 = tokens_as_bigint(tokens);
    assert_eq!(tokens_i64, i64::MAX);
}

#[test]
fn token_cast_passes_through_normal_values() {
    let tokens: u64 = 42_000;
    let tokens_i64 = tokens_as_bigint(tokens);
    assert_eq!(tokens_i64, 42_000i64);
}

#[test]
fn token_cast_edges() {
    assert_eq!(tokens_as_bigint(i64::MAX as u64), i64::MAX);
    assert_eq!(tokens_as_bigint(i64::MAX as u64 + 1), i64::MAX);
    assert_eq!(tokens_as_bigint(0), 0);
}

// ── More of the tracker ───────────────────────────────────────────────────

#[test]
fn record_usage_accumulates_tokens() {
    let mut tracker = BudgetTracker::unlimited();
    tracker.record_usage("agent-1", 100);
    tracker.record_usage("agent-1", 200);
    assert_eq!(tracker.current_usage("agent-1").tokens, 300);
}

#[test]
fn current_usage_is_zero_for_unknown_agent() {
    let tracker = BudgetTracker::unlimited();
    assert_eq!(tracker.current_usage("nobody"), DailyUsage { tokens: 0 });
    assert_eq!(DailyUsage::default(), DailyUsage { tokens: 0 });
}

#[test]
fn daily_usage_entry_sets_tokens_visible_via_current_usage() {
    let mut tracker = BudgetTracker::unlimited();
    let rows: Vec<(String, i64)> = vec![("agent-1".to_string(), 1000), ("agent-2".to_string(), 500)];
    for (agent_id, tokens) in rows {
        let usage = tracker.daily_usage_entry(&agent_id);
        usage.tokens = usage.tokens.saturating_add(tokens as u64);
    }
    assert_eq!(tracker.current_usage("agent-1").tokens, 1000);
    assert_eq!(tracker.current_usage("agent-2").tokens, 500);
    assert_eq!(tracker.tracked_agents(), vec!["agent-1".to_string(), "agent-2".to_string()]);
}

#[test]
fn tracked_agents_lists_each_agent_once_in_first_seen_order() {
    let mut tracker = BudgetTracker::unlimited();
    assert!(tracker.tracked_agents().is_empty());
    tracker.record_usage("b", 1);
    tracker.record_usage("a", 1);
    tracker.record_usage("b", 1);
    assert_eq!(tracker.tracked_agents(), vec!["b".to_string(), "a".to_string()]);
}

#[test]
fn new_day_starts_usage_from_zero() {
    let mut tracker = BudgetTracker::new_on_day(BudgetPolicy::default(), 10);
    tracker.record_usage_on_day(10, "agent-1", 100);
    tracker.record_usage_on_day(10, "agent-2", 50);
    // Same day, or an earlier one: usage accumulates.
    tracker.record_usage_on_day(9, "agent-1", 1);
    assert_eq!(tracker.current_usage("agent-1").tokens, 101);
    // A later day: usage starts again from nothing.
    tracker.record_usage_on_day(11, "agent-1", 7);
    assert_eq!(tracker.current_usage("agent-1").tokens, 7);
    assert_eq!(tracker.current_usage("agent-2").tokens, 0);
    assert_eq!(tracker.tracked_agents(), vec!["agent-1".to_string()]);
}

#[test]
fn agent_limit_checked_before_global_limit() {
    let mut policy = make_agent_policy("agent-1", Some(100));
    policy.global_limit = Some(BudgetLimit { daily_token_limit: Some(100) });
    let tracker = BudgetTracker::new_on_day(policy, 0);
    assert_eq!(
        tracker.check_budget("agent-1", 101, None, None),
        PolicyAction::Block {
            reason: "Agent 'agent-1' would exceed daily token limit (0 + 101 > 100)".to_string()
        }
    );
    assert_eq!(
        tracker.check_budget("agent-2", 101, None, None),
        PolicyAction::Block {
            reason: "Agent 'global' would exceed global daily token limit (0 + 101 > 100)".to_string()
        }
    );
}

#[test]
fn cost_outcomes_follow_token_checks() {
    let policy = make_agent_policy("agent-1", Some(1_000));
    let tracker = BudgetTracker::new_on_day(policy, 0);
    let cost_block = PolicyAction::Block { reason: "cost".to_string() };
    // Within the token cap: the agent's cost outcome decides.
    assert_eq!(tracker.check_budget("agent-1", 10, Some(cost_block.clone()), None), cost_block);
    // Over the token cap: the token block wins.
    assert!(matches!(
        tracker.check_budget("agent-1", 2_000, Some(cost_block.clone()), None),
        PolicyAction::Block { reason } if reason != "cost"
    ));
    // No entry for the agent: its cost outcome is not considered.
    assert_eq!(tracker.check_budget("agent-2", 10, Some(cost_block.clone()), None), PolicyAction::Allow);
    // No global limit: the global cost outcome is not considered.
    assert_eq!(tracker.check_budget("agent-2", 10, None, Some(cost_block.clone())), PolicyAction::Allow);
    let global_only = BudgetPolicy {
        global_limit: Some(BudgetLimit { daily_token_limit: None }),
        ..Default::default()
    };
    let tracker = BudgetTracker::new_on_day(global_only, 0);
    assert_eq!(tracker.check_budget("agent-2", 10, None, Some(cost_block.clone())), cost_block);
}

// ── check_token_limit ─────────────────────────────────────────────────────

#[test]
fn token_limit_block_alert_and_quiet() {
    assert_eq!(
        check_token_limit(90, 20, 100, "agent-1", "daily token limit"),
        Some(PolicyAction::Block {
            reason: "Agent 'agent-1' would exceed daily token limit (90 + 20 > 100)".to_string()
        })
    );
    assert_eq!(
        check_token_limit(850, 100, 1_000, "agent-1", "daily token limit"),
        Some(PolicyAction::Alert {
            message: "Agent 'agent-1' is approaching daily token limit (950/1000 tokens used)"
                .to_string(),
            severity: AlertSeverity::High,
        })
    );
    // Exactly 90% is not yet an alert; one more token is.
    assert_eq!(check_token_limit(900, 0, 1_000, "a", "l"), None);
    assert!(matches!(check_token_limit(901, 0, 1_000, "a", "l"), Some(PolicyAction::Alert { .. })));
    // Exactly at the limit is an alert, not a block.
    assert!(matches!(check_token_limit(1_000, 0, 1_000, "a", "l"), Some(PolicyAction::Alert { .. })));
    assert_eq!(check_token_limit(0, 0, 0, "a", "l"), None);
}

#[test]
fn token_limit_projection_saturates() {
    assert_eq!(
        check_token_limit(u64::MAX, 5, u64::MAX, "a", "l"),
        Some(PolicyAction::Alert {
            message: format!("Agent 'a' is approaching l ({}/{} tokens used)", u64::MAX, u64::MAX),
            severity: AlertSeverity::High,
        })
    );
    assert!(matches!(
        check_token_limit(u64::MAX, 5, u64::MAX - 1, "a", "l"),
        Some(PolicyAction::Block { .. })
    ));
}

#[test]
fn agent_map_insert_replaces_in_place() {
    let mut m: AgentMap<u64> = AgentMap::new();
    m.insert("x".to_string(), 1);
    m.insert("y".to_string(), 2);
    m.insert("x".to_string(), 3);
    assert_eq!(m.len(), 2);
    assert_eq!(m.get("x"), Some(&3));
    assert_eq!(m.get("z"), None);
    assert_eq!(m.keys(), vec!["x".to_string(), "y".to_string()]);
}

#[test]
fn record_usage_on_day_reports_a_new_day() {
    let mut tracker = BudgetTracker::new_on_day(BudgetPolicy::default(), 100);
    assert!(!tracker.record_usage_on_day(100, "a", 1));
    assert!(!tracker.record_usage_on_day(99, "a", 1));
    assert!(tracker.record_usage_on_day(101, "a", 1));
    assert!(!tracker.record_usage_on_day(101, "a", 1));
    assert_eq!(tracker.current_usage("a").tokens, 2);
}

#[test]
fn asking_for_more_never_softens_a_block() {
    for more in [11u64, 12, 1_000, u64::MAX] {
        assert!(matches!(
            check_token_limit(90, more, 100, "a", "l"),
            Some(PolicyAction::Block { .. })
        ));
    }
}

#[test]
fn global_block_outranks_agent_alert() {
    let mut policy = make_agent_policy("agent-1", Some(1_000));
    policy.global_limit = Some(BudgetLimit { daily_token_limit: Some(500) });
    let mut tracker = BudgetTracker::new_on_day(policy, 0);
    tracker.record_usage_on_day(0, "agent-1", 400);
    // 950 of the agent's 1000 would be an alert, but 950 passes the global
    // cap of 500: the most restrictive outcome, the block, applies.
    assert_eq!(
        tracker.check_budget("agent-1", 550, None, None),
        PolicyAction::Block {
            reason: "Agent 'global' would exceed global daily token limit (400 + 550 > 500)".to_string()
        }
    );
    let mut tracker = tracker;
    tracker.record_usage_on_day(0, "agent-2", 0);
    // Within both caps, but past 90% of the global one: the global alert.
    assert!(matches!(
        tracker.check_budget("agent-1", 60, None, None),
        PolicyAction::Alert { message, .. } if message.starts_with("Agent 'global'")
    ));
}

#[test]
fn agent_alert_comes_before_global_alert_and_cost_block_outranks_alerts() {
    let mut policy = make_agent_policy("agent-1", Some(1_000));
    policy.global_limit = Some(BudgetLimit { daily_token_limit: Some(1_000) });
    let tracker = BudgetTracker::new_on_day(policy, 0);
    // Both caps alert at 950: the agent's alert comes first.
    assert!(matches!(
        tracker.check_budget("agent-1", 950, None, None),
        PolicyAction::Alert { message, .. } if message.starts_with("Agent 'agent-1'")
    ));
    // A global cost block outranks both token alerts.
    let cost_block = PolicyAction::Block { reason: "global cost".to_string() };
    assert_eq!(tracker.check_budget("agent-1", 950, None, Some(cost_block.clone())), cost_block);
}

#[test]
fn decimal_text_of_counts() {
    assert_eq!(decimal_string(0), "0");
    assert_eq!(decimal_string(7), "7");
    assert_eq!(decimal_string(10), "10");
    assert_eq!(decimal_string(1_000_200), "1000200");
    assert_eq!(decimal_string(u64::MAX), u64::MAX.to_string());
}

#[test]
fn tracked_agents_are_those_recorded_since_the_last_reset() {
    let mut tracker = BudgetTracker::new_on_day(BudgetPolicy::default(), 1);
    tracker.record_usage_on_day(1, "a", 0);
    tracker.daily_usage_entry("b");
    assert_eq!(tracker.tracked_agents(), vec!["a".to_string(), "b".to_string()]);
    tracker.record_usage_on_day(2, "c", 3);
    assert_eq!(tracker.tracked_agents(), vec!["c".to_string()]);
}

#[test]
fn global_total_saturates_instead_of_overflowing() {
    let policy = BudgetPolicy {
        global_limit: Some(BudgetLimit { daily_token_limit: Some(u64::MAX) }),
        ..Default::default()
    };
    let mut tracker = BudgetTracker::new_on_day(policy, 0);
    tracker.record_usage_on_day(0, "a", u64::MAX);
    tracker.record_usage_on_day(0, "b", u64::MAX);
    // The day's total saturates at u64::MAX: exactly at the cap, an alert.
    assert!(matches!(tracker.check_budget("c", 0, None, None), PolicyAction::Alert { .. }));
}
