//! Daily budget tracking: token caps per agent and across all agents,
//! checked before each request, with alerts from 90% of a cap on. Usage is
//! recorded after each request and starts again from zero on a new UTC day.
//!
//! Costs in US dollars are floating-point amounts and are tracked beside this
//! module: the outcome of each cost check is handed in.
use vstd::prelude::*;
use crate::agent_map::{
    lemma_upsert_keys, AgentMap, lookup, upsert_pairs, key_seq, views_of, keys_distinct, index_of, lemma_lookup_upsert,
};
use crate::text::{decimal, decimal_string};
use crate::proxy::types::{AlertSeverity, PolicyAction, Verdict, opt_verdict};
use chrono::Datelike;

verus! {

/// Largest value of a signed 64-bit database column.
pub const BIGINT_MAX: u64 = 0x7fff_ffff_ffff_ffffu64;

/// Converts a token count to the signed 64-bit integer that the
/// `budget_daily` table stores, saturating at `i64::MAX`.
pub fn tokens_as_bigint(tokens: u64) -> (r: i64)
    ensures
        r as int == if tokens <= BIGINT_MAX {
            tokens as int
        } else {
            i64::MAX as int
        },
{
    if tokens <= BIGINT_MAX {
        tokens as i64
    } else {
        i64::MAX
    }
}

/// The day count (`Datelike::num_days_from_ce`) of 1970-01-01 UTC, the Unix
/// epoch.
pub const UNIX_EPOCH_DAY: i32 = 719163i32;

/// `chrono::Utc::now`, taken to the current UTC date and counted in days
/// (`Datelike::num_days_from_ce`, which orders days as dates are ordered).
/// It reads the clock, so all that is claimed of the result is what
/// `Utc::now` guarantees on every reading: it fails unless the clock is at
/// or after the Unix epoch, so the day is that of 1970-01-01 or later.
#[verifier::external_body]
fn utc_today() -> (day: i32)
    ensures
        day >= UNIX_EPOCH_DAY,
{
    chrono::Utc::now().date_naive().num_days_from_ce()
}

/// Token cap across all agents per day.
#[derive(Debug, Clone, Copy, PartialEq, Eq, Structural)]
pub struct BudgetLimit {
    /// Maximum tokens across all agents per day.
    pub daily_token_limit: Option<u64>,
}

/// Token cap of one agent.
#[derive(Debug, Clone)]
pub struct AgentBudget {
    /// The agent this budget applies to.
    pub agent_id: String,
    /// Maximum tokens this agent may consume per day.
    pub daily_token_limit: Option<u64>,
}

/// Per-agent caps, keyed by agent id, and the cap on all agents together.
#[derive(Debug, Clone)]
pub struct BudgetPolicy {
    pub agent_limits: AgentMap<AgentBudget>,
    pub global_limit: Option<BudgetLimit>,
}

impl Default for BudgetPolicy {
    /// No caps at all.
    fn default() -> (p: Self)
        ensures
            p.agent_limits.wf(),
            p.agent_limits@ == Map::<Seq<char>, AgentBudget>::empty(),
            p.global_limit is None,
    {
        let p = BudgetPolicy { agent_limits: AgentMap::new(), global_limit: None };
        proof {
            assert(p.agent_limits@ =~= Map::<Seq<char>, AgentBudget>::empty());
        }
        p
    }
}

/// Usage of one agent today.
#[derive(Debug, Clone, Copy, PartialEq, Eq, Structural)]
pub struct DailyUsage {
    /// Total tokens consumed today.
    pub tokens: u64,
}

impl Default for DailyUsage {
    fn default() -> (u: Self)
        ensures
            u.tokens == 0,
    {
        DailyUsage { tokens: 0 }
    }
}

/// The sum of the token counts in `usage`.
pub open spec fn total_tokens(usage: Seq<(Seq<char>, DailyUsage)>) -> nat
    decreases usage.len(),
{
    if usage.len() == 0 {
        0
    } else {
        total_tokens(usage.drop_last()) + usage.last().1.tokens as nat
    }
}

/// What a tracker holds: the policy, today's usage per agent in the order in
/// which the agents were first seen, and the day of the last reset.
pub struct DailyState {
    pub agent_limits: Map<Seq<char>, AgentBudget>,
    pub global_limit: Option<BudgetLimit>,
    pub usage: Seq<(Seq<char>, DailyUsage)>,
    pub last_reset: i32,
}

impl DailyState {
    /// Tokens `agent` used today (zero if unseen).
    pub open spec fn tokens_of(self, agent: Seq<char>) -> nat {
        match lookup(self.usage, agent) {
            Some(u) => u.tokens as nat,
            None => 0,
        }
    }

    /// Tokens all agents used today.
    pub open spec fn total(self) -> nat {
        total_tokens(self.usage)
    }

    /// Tokens all agents used today, saturating at `u64::MAX`.
    pub open spec fn capped_total(self) -> nat {
        cap_u64(self.total())
    }

    /// The global token cap, if one is set.
    pub open spec fn global_token_cap(self) -> Option<u64> {
        match self.global_limit {
            Some(g) => g.daily_token_limit,
            None => None,
        }
    }
}

/// `n`, saturating at `u64::MAX`.
pub open spec fn cap_u64(n: nat) -> nat {
    if n > u64::MAX {
        u64::MAX as nat
    } else {
        n
    }
}

/// `current + estimated`, saturating at `u64::MAX`.
pub open spec fn projected(current: nat, estimated: nat) -> nat {
    if current + estimated > u64::MAX {
        u64::MAX as nat
    } else {
        current + estimated
    }
}

/// `projected` is more than 90% of `limit`.
pub open spec fn above_alert_line(projected: nat, limit: nat) -> bool {
    projected * 10 > limit * 9
}

/// Reason of a block on a token cap.
pub open spec fn block_reason(agent: Seq<char>, label: Seq<char>, current: nat, estimated: nat, limit: nat) -> Seq<char> {
    "Agent '"@ + agent + "' would exceed "@ + label + " ("@ + decimal(current) + " + "@ + decimal(
        estimated,
    ) + " > "@ + decimal(limit) + ")"@
}

/// Message of an alert on a token cap.
pub open spec fn alert_message(agent: Seq<char>, label: Seq<char>, projected: nat, limit: nat) -> Seq<char> {
    "Agent '"@ + agent + "' is approaching "@ + label + " ("@ + decimal(projected) + "/"@ + decimal(
        limit,
    ) + " tokens used)"@
}

/// The outcome of checking `estimated` more tokens on top of `current`
/// against `limit`: a block when the projected total passes the limit, a
/// high-severity alert when it passes 90% of it, else nothing.
pub open spec fn token_limit_verdict(
    current: nat,
    estimated: nat,
    limit: nat,
    agent: Seq<char>,
    label: Seq<char>,
) -> Option<Verdict> {
    let p: nat = projected(current, estimated);
    if p > limit {
        Some(Verdict::Block { reason: block_reason(agent, label, current, estimated, limit) })
    } else if above_alert_line(p, limit) {
        Some(
            Verdict::Alert {
                message: alert_message(agent, label, p, limit),
                severity: AlertSeverity::High,
            },
        )
    } else {
        None
    }
}

/// Checks a token limit; returns an action if it is exceeded or approached.
pub fn check_token_limit(
    current: u64,
    estimated: u64,
    limit: u64,
    agent_id: &str,
    label: &str,
) -> (r: Option<PolicyAction>)
    ensures
        opt_verdict(r) == token_limit_verdict(
            current as nat,
            estimated as nat,
            limit as nat,
            agent_id@,
            label@,
        ),
{
    let projected: u64 = current.saturating_add(estimated);
    if projected > limit {
        let mut reason = String::from_str("Agent '");
        reason.append(agent_id);
        reason.append("' would exceed ");
        reason.append(label);
        reason.append(" (");
        let current_text = decimal_string(current);
        reason.append(current_text.as_str());
        reason.append(" + ");
        let estimated_text = decimal_string(estimated);
        reason.append(estimated_text.as_str());
        reason.append(" > ");
        let limit_text = decimal_string(limit);
        reason.append(limit_text.as_str());
        reason.append(")");
        return Some(PolicyAction::Block { reason });
    }
    // Warn at 90% utilisation.

    if (projected as u128) * 10 > (limit as u128) * 9 {
        let mut message = String::from_str("Agent '");
        message.append(agent_id);
        message.append("' is approaching ");
        message.append(label);
        message.append(" (");
        let projected_text = decimal_string(projected);
        message.append(projected_text.as_str());
        message.append("/");
        let limit_text = decimal_string(limit);
        message.append(limit_text.as_str());
        message.append(" tokens used)");
        return Some(PolicyAction::Alert { message, severity: AlertSeverity::High });
    }
    None
}

/// The check of the agent's own token cap, for an agent with an entry in
/// the policy that sets one.
pub open spec fn agent_token_check(s: DailyState, agent: Seq<char>, estimated: u64) -> Option<Verdict> {
    if s.agent_limits.contains_key(agent) {
        match s.agent_limits[agent].daily_token_limit {
            Some(limit) => token_limit_verdict(
                s.tokens_of(agent),
                estimated as nat,
                limit as nat,
                agent,
                "daily token limit"@,
            ),
            None => None,
        }
    } else {
        None
    }
}

/// The agent's cost outcome, which counts only for an agent with an entry in
/// the policy.
pub open spec fn agent_cost_check(s: DailyState, agent: Seq<char>, agent_cost: Option<Verdict>) -> Option<Verdict> {
    if s.agent_limits.contains_key(agent) {
        agent_cost
    } else {
        None
    }
}

/// The check of the global token cap against the tokens of all agents (their
/// sum saturating at `u64::MAX`), when a global limit sets one.
pub open spec fn global_token_check(s: DailyState, estimated: u64) -> Option<Verdict> {
    match s.global_token_cap() {
        Some(limit) => token_limit_verdict(
            s.capped_total(),
            estimated as nat,
            limit as nat,
            "global"@,
            "global daily token limit"@,
        ),
        None => None,
    }
}

/// The global cost outcome, which counts only when a global limit is set.
pub open spec fn global_cost_check(s: DailyState, global_cost: Option<Verdict>) -> Option<Verdict> {
    if s.global_limit is Some {
        global_cost
    } else {
        None
    }
}

/// An outcome that blocks.
pub open spec fn blocks(v: Option<Verdict>) -> bool {
    v matches Some(Verdict::Block { .. })
}

/// An outcome that alerts.
pub open spec fn alerts(v: Option<Verdict>) -> bool {
    v matches Some(Verdict::Alert { .. })
}

/// The answer to a check, the most restrictive of the four checks: the
/// first block (agent tokens, agent cost, global tokens, global cost), else
/// the first alert in the same order, else `Allow`.
pub open spec fn budget_verdict(
    s: DailyState,
    agent: Seq<char>,
    estimated: u64,
    agent_cost: Option<Verdict>,
    global_cost: Option<Verdict>,
) -> Verdict {
    let at = agent_token_check(s, agent, estimated);
    let ac = agent_cost_check(s, agent, agent_cost);
    let gt = global_token_check(s, estimated);
    let gc = global_cost_check(s, global_cost);
    if blocks(at) {
        at->0
    } else if blocks(ac) {
        ac->0
    } else if blocks(gt) {
        gt->0
    } else if blocks(gc) {
        gc->0
    } else if alerts(at) {
        at->0
    } else if alerts(ac) {
        ac->0
    } else if alerts(gt) {
        gt->0
    } else if alerts(gc) {
        gc->0
    } else {
        Verdict::Allow
    }
}

/// The state once a day check has run on `today`: on a later day than the
/// last reset, usage starts again from nothing.
pub open spec fn after_day_check(s: DailyState, today: i32) -> DailyState {
    if today > s.last_reset {
        DailyState { usage: Seq::empty(), last_reset: today, ..s }
    } else {
        s
    }
}

/// `a + b`, saturating at `u64::MAX`.
pub open spec fn saturating_sum(a: nat, b: nat) -> u64 {
    if a + b > u64::MAX {
        u64::MAX
    } else {
        (a + b) as u64
    }
}

/// The state after recording `tokens` for `agent` on day `today`.
pub open spec fn record_step(s: DailyState, today: i32, agent: Seq<char>, tokens: u64) -> DailyState {
    let s1 = after_day_check(s, today);
    DailyState {
        usage: upsert_pairs(
            s1.usage,
            agent,
            DailyUsage { tokens: saturating_sum(s1.tokens_of(agent), tokens as nat) },
        ),
        ..s1
    }
}

/// Changing one agent's entry changes the total by the change of that entry.
pub proof fn lemma_total_tokens_update(usage: Seq<(Seq<char>, DailyUsage)>, i: int, entry: (Seq<char>, DailyUsage))
    requires
        0 <= i < usage.len(),
    ensures
        total_tokens(usage.update(i, entry)) + usage[i].1.tokens == total_tokens(usage) + entry.1.tokens,
    decreases usage.len(),
{
    let q = usage.update(i, entry);
    if i == usage.len() - 1 {
        assert(q.drop_last() =~= usage.drop_last());
    } else {
        lemma_total_tokens_update(usage.drop_last(), i, entry);
        assert(q.drop_last() =~= usage.drop_last().update(i, entry));
    }
}

/// An agent that has no limit of its own is allowed whatever it asks for
/// while no global limit is set: budgets fail open.
pub proof fn lemma_unlimited_agent_allowed(
    s: DailyState,
    agent: Seq<char>,
    estimated: u64,
    agent_cost: Option<Verdict>,
    global_cost: Option<Verdict>,
)
    requires
        !s.agent_limits.contains_key(agent),
        s.global_limit is None,
    ensures
        budget_verdict(s, agent, estimated, agent_cost, global_cost) == Verdict::Allow,
{
}

/// Per-agent and global limits together, the most restrictive applies: the
/// answer blocks exactly when some check blocks, else alerts exactly when
/// some check alerts, else allows.
pub proof fn lemma_most_restrictive_applies(
    s: DailyState,
    agent: Seq<char>,
    estimated: u64,
    agent_cost: Option<Verdict>,
    global_cost: Option<Verdict>,
)
    ensures
        (budget_verdict(s, agent, estimated, agent_cost, global_cost) is Block) <==> (blocks(
            agent_token_check(s, agent, estimated),
        ) || blocks(agent_cost_check(s, agent, agent_cost)) || blocks(global_token_check(s, estimated))
            || blocks(global_cost_check(s, global_cost))),
        (budget_verdict(s, agent, estimated, agent_cost, global_cost) is Alert) <==> (!(budget_verdict(
            s,
            agent,
            estimated,
            agent_cost,
            global_cost,
        ) is Block) && (alerts(agent_token_check(s, agent, estimated)) || alerts(
            agent_cost_check(s, agent, agent_cost),
        ) || alerts(global_token_check(s, estimated)) || alerts(global_cost_check(s, global_cost)))),
        (budget_verdict(s, agent, estimated, agent_cost, global_cost) is Allow) <==> !(blocks(
            agent_token_check(s, agent, estimated),
        ) || blocks(agent_cost_check(s, agent, agent_cost)) || blocks(global_token_check(s, estimated))
            || blocks(global_cost_check(s, global_cost)) || alerts(agent_token_check(s, agent, estimated))
            || alerts(agent_cost_check(s, agent, agent_cost)) || alerts(global_token_check(s, estimated))
            || alerts(global_cost_check(s, global_cost))),
{
}

/// A token check blocks exactly when the projected total passes the limit,
/// and alerts only below that.
pub proof fn lemma_block_iff_over_limit(current: nat, estimated: nat, limit: nat, agent: Seq<char>, label: Seq<char>)
    ensures
        (token_limit_verdict(current, estimated, limit, agent, label) matches Some(Verdict::Block { .. }))
            <==> projected(current, estimated) > limit,
        (token_limit_verdict(current, estimated, limit, agent, label) matches Some(Verdict::Alert { .. }))
            ==> projected(current, estimated) <= limit,
        token_limit_verdict(current, estimated, limit, agent, label) is None ==> projected(current, estimated) * 10
            <= limit * 9,
{
}

/// Asking for more never turns a block into something milder.
pub proof fn lemma_block_monotone(
    current: nat,
    estimated: nat,
    more: nat,
    limit: nat,
    agent: Seq<char>,
    label: Seq<char>,
)
    requires
        estimated <= more,
        token_limit_verdict(current, estimated, limit, agent, label) matches Some(Verdict::Block { .. }),
    ensures
        token_limit_verdict(current, more, limit, agent, label) matches Some(Verdict::Block { .. }),
{
}

/// Recording adds the tokens to the agent's usage for the day, saturating,
/// leaves every other agent's usage and the policy as they were, and grows
/// the total by exactly what the agent's usage grew.
pub proof fn lemma_record_effect(s: DailyState, today: i32, agent: Seq<char>, other: Seq<char>, tokens: u64)
    requires
        keys_distinct(s.usage),
        other != agent,
    ensures
        record_step(s, today, agent, tokens).tokens_of(agent) == saturating_sum(
            after_day_check(s, today).tokens_of(agent),
            tokens as nat,
        ),
        record_step(s, today, agent, tokens).tokens_of(other) == after_day_check(s, today).tokens_of(other),
        record_step(s, today, agent, tokens).total() + after_day_check(s, today).tokens_of(agent)
            == after_day_check(s, today).total() + record_step(s, today, agent, tokens).tokens_of(agent),
        record_step(s, today, agent, tokens).agent_limits == s.agent_limits,
        record_step(s, today, agent, tokens).global_limit == s.global_limit,
        keys_distinct(record_step(s, today, agent, tokens).usage),
{
    let s1 = after_day_check(s, today);
    let v = DailyUsage { tokens: saturating_sum(s1.tokens_of(agent), tokens as nat) };
    let q = upsert_pairs(s1.usage, agent, v);
    assert(keys_distinct(s1.usage));
    lemma_lookup_upsert(s1.usage, agent, v, agent);
    lemma_lookup_upsert(s1.usage, agent, v, other);
    crate::agent_map::lemma_upsert(s1.usage, agent, v);
    if lookup(s1.usage, agent) is Some {
        let i: int = index_of(s1.usage, agent);
        assert(0 <= i < s1.usage.len() && s1.usage[i].0 == agent);
        crate::agent_map::lemma_lookup_at(s1.usage, i);
        lemma_total_tokens_update(s1.usage, i, (agent, v));
    } else {
        assert(q.drop_last() =~= s1.usage);
    }
}

/// On a later day than the last reset, recording starts from nothing: the
/// agent has just the recorded tokens and every other agent has none.
pub proof fn lemma_new_day_starts_fresh(s: DailyState, today: i32, agent: Seq<char>, other: Seq<char>, tokens: u64)
    requires
        today > s.last_reset,
        other != agent,
    ensures
        record_step(s, today, agent, tokens).tokens_of(agent) == tokens,
        record_step(s, today, agent, tokens).tokens_of(other) == 0,
        record_step(s, today, agent, tokens).last_reset == today,
{
    let s1 = after_day_check(s, today);
    assert(s1.usage.len() == 0);
    assert(keys_distinct(s1.usage));
    let v = DailyUsage { tokens: saturating_sum(s1.tokens_of(agent), tokens as nat) };
    lemma_lookup_upsert(s1.usage, agent, v, agent);
    lemma_lookup_upsert(s1.usage, agent, v, other);
}

/// The outcome blocks.
fn is_block(a: &Option<PolicyAction>) -> (r: bool)
    ensures
        r == blocks(opt_verdict(*a)),
{
    match a {
        Some(PolicyAction::Block { .. }) => true,
        _ => false,
    }
}

/// The outcome alerts.
fn is_alert(a: &Option<PolicyAction>) -> (r: bool)
    ensures
        r == alerts(opt_verdict(*a)),
{
    match a {
        Some(PolicyAction::Alert { .. }) => true,
        _ => false,
    }
}

/// The agents tracked after recording for `agent` are `agent` alone on a
/// later day than the last reset, else the agents tracked before and
/// `agent`; so the tracked agents are exactly those recorded since the last
/// reset.
pub proof fn lemma_tracked_after_record(s: DailyState, today: i32, agent: Seq<char>, tokens: u64)
    requires
        keys_distinct(s.usage),
    ensures
        forall|a: Seq<char>| #[trigger] key_seq(record_step(s, today, agent, tokens).usage).contains(a) <==> (a
            == agent || (today <= s.last_reset && key_seq(s.usage).contains(a))),
{
    let s1 = after_day_check(s, today);
    assert(keys_distinct(s1.usage));
    let v = DailyUsage { tokens: saturating_sum(s1.tokens_of(agent), tokens as nat) };
    lemma_upsert_keys(s1.usage, agent, v);
    if today > s.last_reset {
        assert forall|a: Seq<char>| !key_seq(s1.usage).contains(a) by {}
    }
}

/// Taking an agent's usage entry adds that agent to the tracked agents and
/// keeps every other one.
pub proof fn lemma_tracked_after_entry(s: DailyState, agent: Seq<char>, entry: DailyUsage)
    requires
        keys_distinct(s.usage),
    ensures
        forall|a: Seq<char>| #[trigger] key_seq(upsert_pairs(s.usage, agent, entry)).contains(a) <==> (a
            == agent || key_seq(s.usage).contains(a)),
{
    lemma_upsert_keys(s.usage, agent, entry);
}

/// With no global limit, the answer for an agent with its own token cap is
/// decided by that agent's usage alone: with `p` its usage plus the request
/// (saturating), the answer blocks exactly when `p` passes the cap, naming
/// the agent's own usage; allows exactly when `p` is at most 90% of the cap;
/// and otherwise is a high-severity alert.
pub proof fn lemma_agent_cap_uses_own_usage(s: DailyState, agent: Seq<char>, estimated: u64, limit: u64)
    requires
        s.global_limit is None,
        s.agent_limits.contains_key(agent),
        s.agent_limits[agent].daily_token_limit == Some(limit),
    ensures
        (budget_verdict(s, agent, estimated, None, None) is Block) <==> own_projection(s, agent, estimated)
            > limit,
        (budget_verdict(s, agent, estimated, None, None) is Allow) <==> own_projection(s, agent, estimated)
            * 10 <= limit * 9,
        budget_verdict(s, agent, estimated, None, None) is Alert ==> budget_verdict(
            s,
            agent,
            estimated,
            None,
            None,
        )->severity == AlertSeverity::High,
        budget_verdict(s, agent, estimated, None, None) is Block ==> budget_verdict(
            s,
            agent,
            estimated,
            None,
            None,
        )->reason == "Agent '"@ + agent + "' would exceed "@ + "daily token limit"@ + " ("@ + decimal(
            s.tokens_of(agent),
        )
            + " + "@ + decimal(estimated as nat) + " > "@ + decimal(limit as nat) + ")"@,
{
}

/// An agent's usage today plus `estimated`, saturating at `u64::MAX`.
pub open spec fn own_projection(s: DailyState, agent: Seq<char>, estimated: u64) -> int {
    if s.tokens_of(agent) + estimated > u64::MAX {
        u64::MAX as int
    } else {
        s.tokens_of(agent) + estimated
    }
}

/// With no global limit, recording usage for one agent on the same day
/// never changes the answer for another agent.
pub proof fn lemma_other_agents_usage_irrelevant(
    s: DailyState,
    today: i32,
    other: Seq<char>,
    tokens: u64,
    agent: Seq<char>,
    estimated: u64,
    agent_cost: Option<Verdict>,
    global_cost: Option<Verdict>,
)
    requires
        keys_distinct(s.usage),
        today <= s.last_reset,
        other != agent,
        s.global_limit is None,
    ensures
        budget_verdict(record_step(s, today, other, tokens), agent, estimated, agent_cost, global_cost)
            == budget_verdict(s, agent, estimated, agent_cost, global_cost),
{
    lemma_record_effect(s, today, other, agent, tokens);
}

/// Recording on a day no later than the last reset keeps the day's usage:
/// the agent's tokens grow by the recorded ones (saturating) from what they
/// were, restored usage included, and the day of the last reset stays.
pub proof fn lemma_same_day_adds_to_usage(s: DailyState, today: i32, agent: Seq<char>, tokens: u64)
    requires
        keys_distinct(s.usage),
        today <= s.last_reset,
    ensures
        record_step(s, today, agent, tokens).tokens_of(agent) == if s.tokens_of(agent) + tokens
            > u64::MAX {
            u64::MAX as nat
        } else {
            (s.tokens_of(agent) + tokens) as nat
        },
        record_step(s, today, agent, tokens).last_reset == s.last_reset,
{
    let v = DailyUsage { tokens: saturating_sum(s.tokens_of(agent), tokens as nat) };
    lemma_lookup_upsert(s.usage, agent, v, agent);
}

/// Recording on a later day than the last reset starts the day afresh: the
/// agent has just the recorded tokens, every other agent none, and the day
/// of the last reset becomes that day.
pub proof fn lemma_later_day_resets_usage(s: DailyState, today: i32, agent: Seq<char>, other: Seq<char>, tokens: u64)
    requires
        today > s.last_reset,
        other != agent,
    ensures
        record_step(s, today, agent, tokens).tokens_of(agent) == tokens as nat,
        record_step(s, today, agent, tokens).tokens_of(other) == 0,
        record_step(s, today, agent, tokens).last_reset == today,
        record_step(s, today, agent, tokens).usage.len() == 1,
{
    lemma_new_day_starts_fresh(s, today, agent, other, tokens);
}

/// A call that records usage: a recording on a day, or an entry taken and
/// left holding `usage`.
pub enum UsageCall {
    Record { today: i32, agent: Seq<char>, tokens: u64 },
    Entry { agent: Seq<char>, usage: DailyUsage },
}

/// The state after one call.
pub open spec fn apply_usage_call(s: DailyState, c: UsageCall) -> DailyState {
    match c {
        UsageCall::Record { today, agent, tokens } => record_step(s, today, agent, tokens),
        UsageCall::Entry { agent, usage } => DailyState { usage: upsert_pairs(s.usage, agent, usage), ..s },
    }
}

/// The state after a sequence of calls, in order.
pub open spec fn replay_usage(s: DailyState, calls: Seq<UsageCall>) -> DailyState
    decreases calls.len(),
{
    if calls.len() == 0 {
        s
    } else {
        apply_usage_call(replay_usage(s, calls.drop_last()), calls.last())
    }
}

/// The day of the last reset after `calls`, starting from `day`, and the
/// agents named by the calls since then: a recording on a later day starts
/// the set again with its agent alone.
pub open spec fn named_since_reset(day: i32, calls: Seq<UsageCall>) -> (i32, Set<Seq<char>>)
    decreases calls.len(),
{
    if calls.len() == 0 {
        (day, Set::empty())
    } else {
        let (d, named) = named_since_reset(day, calls.drop_last());
        match calls.last() {
            UsageCall::Record { today, agent, .. } => if today > d {
                (today, Set::empty().insert(agent))
            } else {
                (d, named.insert(agent))
            },
            UsageCall::Entry { agent, .. } => (d, named.insert(agent)),
        }
    }
}

/// From a tracker with no usage yet, the tracked agents are exactly the
/// agents named by the recordings and entries since the last reset (those
/// recorded with zero tokens included), each once.
pub proof fn lemma_tracked_agents_since_reset(s: DailyState, calls: Seq<UsageCall>)
    requires
        s.usage.len() == 0,
    ensures
        keys_distinct(replay_usage(s, calls).usage),
        replay_usage(s, calls).last_reset == named_since_reset(s.last_reset, calls).0,
        forall|a: Seq<char>| #[trigger] key_seq(replay_usage(s, calls).usage).contains(a)
            <==> named_since_reset(s.last_reset, calls).1.contains(a),
    decreases calls.len(),
{
    if calls.len() == 0 {
        assert forall|a: Seq<char>| !key_seq(s.usage).contains(a) by {}
    } else {
        let prev = calls.drop_last();
        lemma_tracked_agents_since_reset(s, prev);
        let t = replay_usage(s, prev);
        match calls.last() {
            UsageCall::Record { today, agent, tokens } => {
                lemma_tracked_after_record(t, today, agent, tokens);
                lemma_record_effect_keys(t, today, agent, tokens);
            },
            UsageCall::Entry { agent, usage } => {
                lemma_tracked_after_entry(t, agent, usage);
                crate::agent_map::lemma_upsert(t.usage, agent, usage);
            },
        }
    }
}

/// Recording keeps the agents distinct.
proof fn lemma_record_effect_keys(s: DailyState, today: i32, agent: Seq<char>, tokens: u64)
    requires
        keys_distinct(s.usage),
    ensures
        keys_distinct(record_step(s, today, agent, tokens).usage),
        record_step(s, today, agent, tokens).last_reset == if today > s.last_reset {
            today
        } else {
            s.last_reset
        },
{
    let s1 = after_day_check(s, today);
    assert(keys_distinct(s1.usage));
    let v = DailyUsage { tokens: saturating_sum(s1.tokens_of(agent), tokens as nat) };
    crate::agent_map::lemma_upsert(s1.usage, agent, v);
}

/// In-memory budget tracker.
///
/// Holds per-agent daily usage and starts it again from zero on a new UTC
/// day. Thread-safety is handled by the caller.
pub struct BudgetTracker {
    policy: BudgetPolicy,
    daily_usage: AgentMap<DailyUsage>,
    last_reset: i32,
}

impl View for BudgetTracker {
    type V = DailyState;

    closed spec fn view(&self) -> DailyState {
        DailyState {
            agent_limits: self.policy.agent_limits@,
            global_limit: self.policy.global_limit,
            usage: self.daily_usage.pairs(),
            last_reset: self.last_reset,
        }
    }
}

impl BudgetTracker {
    /// The tracker's internal invariant.
    pub closed spec fn wf(&self) -> bool {
        &&& self.policy.agent_limits.wf()
        &&& self.daily_usage.wf()
    }

    /// Each agent appears at most once in the usage.
    pub proof fn lemma_wf_agents_distinct(&self)
        requires
            self.wf(),
        ensures
            keys_distinct(self@.usage),
    {
    }

    /// A tracker for `policy` whose last reset was on day `today`, with no
    /// usage yet.
    pub fn new_on_day(policy: BudgetPolicy, today: i32) -> (t: Self)
        requires
            policy.agent_limits.wf(),
        ensures
            t.wf(),
            t@ == (DailyState {
                agent_limits: policy.agent_limits@,
                global_limit: policy.global_limit,
                usage: Seq::empty(),
                last_reset: today,
            }),
    {
        BudgetTracker { policy, daily_usage: AgentMap::new(), last_reset: today }
    }

    /// A tracker for `policy`, with no usage yet, whose day starts today.
    pub fn new(policy: BudgetPolicy) -> (t: Self)
        requires
            policy.agent_limits.wf(),
        ensures
            t.wf(),
            t@.agent_limits == policy.agent_limits@,
            t@.global_limit == policy.global_limit,
            t@.usage == Seq::<(Seq<char>, DailyUsage)>::empty(),
            t@.last_reset >= UNIX_EPOCH_DAY,
    {
        let today = utc_today();
        Self::new_on_day(policy, today)
    }

    /// A tracker with no limits (allows everything).
    pub fn unlimited() -> (t: Self)
        ensures
            t.wf(),
            t@.agent_limits == Map::<Seq<char>, AgentBudget>::empty(),
            t@.global_limit is None,
            t@.usage == Seq::<(Seq<char>, DailyUsage)>::empty(),
            t@.last_reset >= UNIX_EPOCH_DAY,
    {
        Self::new(BudgetPolicy::default())
    }

    /// Today's usage of `agent_id` (zero if unseen).
    pub fn current_usage(&self, agent_id: &str) -> (u: DailyUsage)
        requires
            self.wf(),
        ensures
            u.tokens == self@.tokens_of(agent_id@),
    {
        match self.daily_usage.get(agent_id) {
            Some(u) => *u,
            None => DailyUsage { tokens: 0 },
        }
    }

    /// All agent IDs that have usage recorded today, each once, in the order
    /// in which they were first seen.
    pub fn tracked_agents(&self) -> (agents: Vec<String>)
        requires
            self.wf(),
        ensures
            views_of(agents@) == key_seq(self@.usage),
    {
        self.daily_usage.keys()
    }

    /// Tokens all agents used today.
    fn global_tokens(&self) -> (total: u64)
        requires
            self.wf(),
        ensures
            total == self@.capped_total(),
    {
        let ghost usage = self@.usage;
        let n = self.daily_usage.len();
        let mut sum: u64 = 0;
        let mut i: usize = 0;
        while i < n
            invariant
                i <= n,
                n == usage.len(),
                usage == self@.usage,
                sum == cap_u64(total_tokens(usage.take(i as int))),
            decreases n - i,
        {
            proof {
                assert(usage.take(i + 1).drop_last() =~= usage.take(i as int));
            }
            sum = sum.saturating_add(self.daily_usage.value_at(i).tokens);
            i += 1;
        }
        proof {
            assert(usage.take(n as int) =~= usage);
        }
        sum
    }

    /// Checks whether `estimated_tokens` are within budget for `agent_id`.
    ///
    /// Returns `Allow` when under budget, `Block` when a limit would be
    /// passed, `Alert` when 90% of a limit would be passed. The agent's own
    /// limits and the global ones are all checked, and the most restrictive
    /// outcome applies. `agent_cost` and `global_cost` are the outcomes of
    /// the cost checks against the agent's and the global cost caps.
    pub fn check_budget(
        &self,
        agent_id: &str,
        estimated_tokens: u64,
        agent_cost: Option<PolicyAction>,
        global_cost: Option<PolicyAction>,
    ) -> (action: PolicyAction)
        requires
            self.wf(),
        ensures
            action@ == budget_verdict(
                self@,
                agent_id@,
                estimated_tokens,
                opt_verdict(agent_cost),
                opt_verdict(global_cost),
            ),
    {
        let usage = self.current_usage(agent_id);
        let mut agent_tokens: Option<PolicyAction> = None;
        let mut agent_costs: Option<PolicyAction> = None;
        if let Some(agent_budget) = self.policy.agent_limits.get(agent_id) {
            if let Some(limit) = agent_budget.daily_token_limit {
                agent_tokens = check_token_limit(
                    usage.tokens,
                    estimated_tokens,
                    limit,
                    agent_id,
                    "daily token limit",
                );
            }
            agent_costs = agent_cost;
        }
        let mut global_tokens: Option<PolicyAction> = None;
        let mut global_costs: Option<PolicyAction> = None;
        if let Some(global) = &self.policy.global_limit {
            if let Some(limit) = global.daily_token_limit {
                let total = self.global_tokens();
                global_tokens = check_token_limit(
                    total,
                    estimated_tokens,
                    limit,
                    "global",
                    "global daily token limit",
                );
            }
            global_costs = global_cost;
        }
        if is_block(&agent_tokens) {
            agent_tokens.unwrap()
        } else if is_block(&agent_costs) {
            agent_costs.unwrap()
        } else if is_block(&global_tokens) {
            global_tokens.unwrap()
        } else if is_block(&global_costs) {
            global_costs.unwrap()
        } else if is_alert(&agent_tokens) {
            agent_tokens.unwrap()
        } else if is_alert(&agent_costs) {
            agent_costs.unwrap()
        } else if is_alert(&global_tokens) {
            global_tokens.unwrap()
        } else if is_alert(&global_costs) {
            global_costs.unwrap()
        } else {
            PolicyAction::Allow
        }
    }

    /// Starts usage again from nothing when `today` is later than the day of
    /// the last reset.
    fn maybe_reset_daily(&mut self, today: i32)
        requires
            old(self).wf(),
        ensures
            final(self).wf(),
            final(self)@ == after_day_check(old(self)@, today),
    {
        if today > self.last_reset {
            self.daily_usage.clear();
            self.last_reset = today;
        }
    }

    /// Records actual usage after an event completes, on day `today`: a new
    /// day first starts usage again from nothing, then the agent's tokens
    /// grow by `tokens`, saturating at `u64::MAX`. Returns whether a new day
    /// began.
    pub fn record_usage_on_day(&mut self, today: i32, agent_id: &str, tokens: u64) -> (new_day: bool)
        requires
            old(self).wf(),
        ensures
            final(self).wf(),
            final(self)@ == record_step(old(self)@, today, agent_id@, tokens),
            new_day == (today > old(self)@.last_reset),
            final(self)@.tokens_of(agent_id@) == saturating_sum(
                after_day_check(old(self)@, today).tokens_of(agent_id@),
                tokens as nat,
            ),
            forall|other: Seq<char>|
                other != agent_id@ ==> #[trigger] final(self)@.tokens_of(other) == after_day_check(
                    old(self)@,
                    today,
                ).tokens_of(other),
    {
        let new_day = today > self.last_reset;
        self.maybe_reset_daily(today);
        proof {
            let s1 = self@;
            let v = DailyUsage { tokens: saturating_sum(s1.tokens_of(agent_id@), tokens as nat) };
            assert forall|other: Seq<char>| true implies lookup(upsert_pairs(s1.usage, agent_id@, v), other)
                == if other == agent_id@ {
                Some(v)
            } else {
                lookup(s1.usage, other)
            } by {
                lemma_lookup_upsert(s1.usage, agent_id@, v, other);
            }
        }
        let usage = self.daily_usage.entry_or(agent_id, DailyUsage { tokens: 0 });
        usage.tokens = usage.tokens.saturating_add(tokens);
        new_day
    }

    /// Records actual usage after an event completes (in memory only), on
    /// today's UTC date: see `record_usage_on_day`. Returns whether a new day
    /// began.
    pub fn record_usage(&mut self, agent_id: &str, tokens: u64) -> (new_day: bool)
        requires
            old(self).wf(),
        ensures
            final(self).wf(),
            exists|today: i32|
                today >= UNIX_EPOCH_DAY && final(self)@ == record_step(old(self)@, today, agent_id@, tokens)
                    && new_day == (today > old(self)@.last_reset),
            final(self)@.last_reset >= UNIX_EPOCH_DAY,
            final(self)@.last_reset >= old(self)@.last_reset,
    {
        let today = utc_today();
        self.record_usage_on_day(today, agent_id, tokens)
    }

    /// Today's usage entry of `agent_id`, created at zero if absent, to be
    /// changed in place (loading persisted usage goes this way, without a
    /// day check).
    pub fn daily_usage_entry(&mut self, agent_id: &str) -> (entry: &mut DailyUsage)
        requires
            old(self).wf(),
        ensures
            entry.tokens == old(self)@.tokens_of(agent_id@),
            final(self)@ == (DailyState {
                usage: upsert_pairs(old(self)@.usage, agent_id@, *final(entry)),
                ..old(self)@
            }),
            final(self).wf(),
    {
        self.daily_usage.entry_or(agent_id, DailyUsage { tokens: 0 })
    }
}

} // verus!
