//! Stateful budget tracking with a global cap and per-agent caps on tokens,
//! checked and recorded in one step, plus the stateless daily check.
//!
//! Costs in US dollars are floating-point amounts and are tracked beside this
//! module: the cost comparison of each step is handed in as its outcome.
use vstd::prelude::*;
use crate::agent_map::AgentMap;
use crate::text::{decimal, decimal_string};

verus! {

/// Token cap of one agent, or of all agents together.
#[derive(Debug, Clone, Copy, PartialEq, Eq, Structural)]
pub struct BudgetLimit {
    pub max_tokens: Option<u64>,
}

/// The answer to a request: allowed and recorded, or refused with a reason.
#[derive(Debug, Clone, PartialEq, Eq)]
pub enum BudgetResult {
    WithinBudget,
    Exceeded { reason: String },
}

impl View for BudgetResult {
    /// `None` when within budget, else the reason of the refusal.
    type V = Option<Seq<char>>;

    open spec fn view(&self) -> Option<Seq<char>> {
        match self {
            BudgetResult::WithinBudget => None,
            BudgetResult::Exceeded { reason } => Some(reason@),
        }
    }
}

/// What a tracker holds: the caps and the usage recorded so far.
pub struct TrackerState {
    pub limits: Map<Seq<char>, BudgetLimit>,
    pub global_limit: Option<BudgetLimit>,
    pub usage: Map<Seq<char>, u64>,
    pub global_usage: u64,
}

impl TrackerState {
    /// Tokens recorded for `agent` (zero when none were).
    pub open spec fn usage_of(self, agent: Seq<char>) -> nat {
        if self.usage.contains_key(agent) {
            self.usage[agent] as nat
        } else {
            0
        }
    }

    /// No agent has used more than all agents together.
    pub open spec fn consistent(self) -> bool {
        forall|a: Seq<char>| #[trigger] self.usage.contains_key(a) ==> self.usage[a] <= self.global_usage
    }

    /// No caps and no usage.
    pub open spec fn empty() -> TrackerState {
        TrackerState {
            limits: Map::empty(),
            global_limit: None,
            usage: Map::empty(),
            global_usage: 0,
        }
    }
}

/// The token cap that an optional limit sets.
pub open spec fn token_cap(limit: Option<BudgetLimit>) -> Option<u64> {
    match limit {
        Some(l) => l.max_tokens,
        None => None,
    }
}

/// Adding `tokens` to `used` goes over `cap`.
pub open spec fn breaches(cap: Option<u64>, used: nat, tokens: nat) -> bool {
    match cap {
        Some(max) => used + tokens > max,
        None => false,
    }
}

/// Reason given when the global token cap would be passed.
pub open spec fn global_token_reason(used: nat, tokens: nat, max: nat) -> Seq<char> {
    "global token budget exceeded: "@ + decimal(used) + " + "@ + decimal(tokens) + " > "@ + decimal(
        max,
    )
}

/// Reason given when an agent's token cap would be passed.
pub open spec fn agent_token_reason(agent: Seq<char>) -> Seq<char> {
    "agent "@ + agent + " token budget exceeded"@
}

/// Reason given when an agent's cost cap would be passed.
pub open spec fn agent_cost_reason(agent: Seq<char>) -> Seq<char> {
    "agent "@ + agent + " cost budget exceeded"@
}

/// The view of an optional string.
pub open spec fn opt_view(s: Option<String>) -> Option<Seq<char>> {
    match s {
        Some(t) => Some(t@),
        None => None,
    }
}

/// The request's tokens fit on top of the global usage, as the global stage
/// needs: it adds them to compare with a token cap and to record them, and
/// only a refusal on cost with no token cap set spares the sum.
pub open spec fn fits_global_usage(s: TrackerState, tokens: u64, global_cost_breach: Option<Seq<char>>) -> bool {
    !(s.global_limit is Some && token_cap(s.global_limit) is None && global_cost_breach is Some) ==> s.global_usage
        + tokens <= u64::MAX
}

/// The global stage of a request: `None` when it passes, in which case the
/// tokens are added to the global usage, else the refusal.
/// `global_cost_breach` is the reason to refuse on cost, when the request's
/// cost would pass the global cost cap.
pub open spec fn global_stage(s: TrackerState, tokens: u64, global_cost_breach: Option<Seq<char>>) -> Option<Seq<char>> {
    if breaches(token_cap(s.global_limit), s.global_usage as nat, tokens as nat) {
        Some(global_token_reason(s.global_usage as nat, tokens as nat, token_cap(s.global_limit)->0 as nat))
    } else if s.global_limit is Some && global_cost_breach is Some {
        global_cost_breach
    } else {
        None
    }
}

/// The agent stage of a request, once the global stage has passed: `None`
/// when it passes, else the refusal. `agent_cost_breach` tells whether the
/// request's cost would pass the agent's cost cap.
pub open spec fn agent_stage(s: TrackerState, agent: Seq<char>, tokens: u64, agent_cost_breach: bool) -> Option<Seq<char>> {
    if s.limits.contains_key(agent) && breaches(s.limits[agent].max_tokens, s.usage_of(agent), tokens as nat) {
        Some(agent_token_reason(agent))
    } else if s.limits.contains_key(agent) && agent_cost_breach {
        Some(agent_cost_reason(agent))
    } else {
        None
    }
}

/// The state after the agent stage: the agent's entry exists, and holds the
/// request's tokens on top when the stage passed.
pub open spec fn after_agent_stage(s: TrackerState, agent: Seq<char>, tokens: u64, agent_cost_breach: bool) -> TrackerState {
    let used = s.usage_of(agent);
    let recorded: int = if agent_stage(s, agent, tokens, agent_cost_breach) is None {
        used + tokens
    } else {
        used as int
    };
    TrackerState { usage: s.usage.insert(agent, recorded as u64), ..s }
}

/// The answer and the next state of one request of `tokens` by `agent`:
/// the global stage first, which records globally when it passes, then the
/// agent stage, which records for the agent when it passes.
pub open spec fn check_and_record_step(
    s: TrackerState,
    agent: Seq<char>,
    tokens: u64,
    global_cost_breach: Option<Seq<char>>,
    agent_cost_breach: bool,
) -> (Option<Seq<char>>, TrackerState) {
    let g = global_stage(s, tokens, global_cost_breach);
    if g is Some {
        (g, s)
    } else {
        let s1 = TrackerState { global_usage: (s.global_usage + tokens) as u64, ..s };
        (agent_stage(s1, agent, tokens, agent_cost_breach), after_agent_stage(s1, agent, tokens, agent_cost_breach))
    }
}

/// A request is never refused while no global limit is set and the agent
/// has no limit of its own, whatever it asks for.
pub proof fn lemma_unlimited_agent_never_refused(
    s: TrackerState,
    agent: Seq<char>,
    tokens: u64,
    global_cost_breach: Option<Seq<char>>,
    agent_cost_breach: bool,
)
    requires
        s.global_limit is None,
        !s.limits.contains_key(agent),
    ensures
        check_and_record_step(s, agent, tokens, global_cost_breach, agent_cost_breach).0 is None,
{
}

/// A request refused at the global stage changes nothing.
pub proof fn lemma_global_refusal_keeps_state(
    s: TrackerState,
    agent: Seq<char>,
    tokens: u64,
    global_cost_breach: Option<Seq<char>>,
    agent_cost_breach: bool,
)
    requires
        global_stage(s, tokens, global_cost_breach) is Some,
    ensures
        check_and_record_step(s, agent, tokens, global_cost_breach, agent_cost_breach) == (
            global_stage(s, tokens, global_cost_breach),
            s,
        ),
{
}

/// Global usage is recorded first: once the global stage passes, the
/// request's tokens count globally even when the agent stage refuses it.
pub proof fn lemma_global_recorded_first(
    s: TrackerState,
    agent: Seq<char>,
    tokens: u64,
    global_cost_breach: Option<Seq<char>>,
    agent_cost_breach: bool,
)
    requires
        global_stage(s, tokens, global_cost_breach) is None,
        s.global_usage + tokens <= u64::MAX,
    ensures
        check_and_record_step(s, agent, tokens, global_cost_breach, agent_cost_breach).1.global_usage
            == s.global_usage + tokens,
{
}

/// An allowed request adds its tokens to the agent's usage and to the global
/// usage.
pub proof fn lemma_allowed_request_recorded(
    s: TrackerState,
    agent: Seq<char>,
    tokens: u64,
    global_cost_breach: Option<Seq<char>>,
    agent_cost_breach: bool,
)
    requires
        s.consistent(),
        s.global_usage + tokens <= u64::MAX,
        check_and_record_step(s, agent, tokens, global_cost_breach, agent_cost_breach).0 is None,
    ensures
        check_and_record_step(s, agent, tokens, global_cost_breach, agent_cost_breach).1.usage_of(agent)
            == s.usage_of(agent) + tokens,
        check_and_record_step(s, agent, tokens, global_cost_breach, agent_cost_breach).1.global_usage
            == s.global_usage + tokens,
{
    if s.usage.contains_key(agent) {
        assert(s.usage[agent] <= s.global_usage);
    }
}

/// Agents are tracked independently: a request by one agent leaves the
/// usage of every other agent as it was, and no request changes the caps.
pub proof fn lemma_other_agents_unchanged(
    s: TrackerState,
    agent: Seq<char>,
    other: Seq<char>,
    tokens: u64,
    global_cost_breach: Option<Seq<char>>,
    agent_cost_breach: bool,
)
    requires
        other != agent,
    ensures
        check_and_record_step(s, agent, tokens, global_cost_breach, agent_cost_breach).1.usage_of(other)
            == s.usage_of(other),
        check_and_record_step(s, agent, tokens, global_cost_breach, agent_cost_breach).1.limits
            == s.limits,
        check_and_record_step(s, agent, tokens, global_cost_breach, agent_cost_breach).1.global_limit
            == s.global_limit,
{
}

/// Every step keeps the state consistent: no agent ever has more usage
/// recorded than all agents together.
pub proof fn lemma_step_keeps_consistent(
    s: TrackerState,
    agent: Seq<char>,
    tokens: u64,
    global_cost_breach: Option<Seq<char>>,
    agent_cost_breach: bool,
)
    requires
        s.consistent(),
        global_stage(s, tokens, global_cost_breach) is None ==> s.global_usage + tokens <= u64::MAX,
    ensures
        check_and_record_step(s, agent, tokens, global_cost_breach, agent_cost_breach).1.consistent(),
{
    let t = check_and_record_step(s, agent, tokens, global_cost_breach, agent_cost_breach).1;
    assert forall|a: Seq<char>| #[trigger] t.usage.contains_key(a) implies t.usage[a] <= t.global_usage by {
        if a != agent {
            assert(s.usage.contains_key(a));
        } else if s.usage.contains_key(a) {
            assert(s.usage[a] <= s.global_usage);
        }
    }
}

/// Under a global limit, a request whose cost passes the global cost cap is
/// refused with that reason and changes nothing, unless the global token cap
/// refuses it first; whether a token cap is set does not matter.
pub proof fn lemma_global_cost_breach_refuses(
    s: TrackerState,
    agent: Seq<char>,
    tokens: u64,
    reason: Seq<char>,
    agent_cost_breach: bool,
)
    requires
        s.global_limit is Some,
        match s.global_limit->0.max_tokens {
            Some(max) => s.global_usage + tokens <= max,
            None => true,
        },
    ensures
        check_and_record_step(s, agent, tokens, Some(reason), agent_cost_breach) == (Some(reason), s),
{
}

/// For an agent with a limit entry, once the global stage lets a request
/// through and the agent's token cap (if it sets one) does not refuse it, a
/// breach of the agent's cost cap refuses it with the agent's cost reason:
/// the tokens count globally, and nothing is added for the agent.
pub proof fn lemma_agent_cost_breach_refuses(
    s: TrackerState,
    agent: Seq<char>,
    tokens: u64,
    global_cost_breach: Option<Seq<char>>,
)
    requires
        s.limits.contains_key(agent),
        s.global_usage + tokens <= u64::MAX,
        match s.global_limit {
            None => true,
            Some(g) => global_cost_breach is None && match g.max_tokens {
                Some(max) => s.global_usage + tokens <= max,
                None => true,
            },
        },
        match s.limits[agent].max_tokens {
            Some(max) => s.usage_of(agent) + tokens <= max,
            None => true,
        },
    ensures
        check_and_record_step(s, agent, tokens, global_cost_breach, true).0 == Some(
            "agent "@ + agent + " cost budget exceeded"@,
        ),
        check_and_record_step(s, agent, tokens, global_cost_breach, true).1.usage_of(agent) == s.usage_of(
            agent,
        ),
        check_and_record_step(s, agent, tokens, global_cost_breach, true).1.global_usage == s.global_usage
            + tokens,
{
}

/// A call that changes a tracker: a request, or a reset.
pub enum BudgetCall {
    Request { agent: Seq<char>, tokens: u64, global_cost_breach: Option<Seq<char>>, agent_cost_breach: bool },
    Reset,
}

/// The state after one call.
pub open spec fn apply_call(s: TrackerState, c: BudgetCall) -> TrackerState {
    match c {
        BudgetCall::Request { agent, tokens, global_cost_breach, agent_cost_breach } => check_and_record_step(
            s,
            agent,
            tokens,
            global_cost_breach,
            agent_cost_breach,
        ).1,
        BudgetCall::Reset => TrackerState { usage: Map::empty(), global_usage: 0, ..s },
    }
}

/// The state after a sequence of calls, in order.
pub open spec fn replay(s: TrackerState, calls: Seq<BudgetCall>) -> TrackerState
    decreases calls.len(),
{
    if calls.len() == 0 {
        s
    } else {
        apply_call(replay(s, calls.drop_last()), calls.last())
    }
}

/// Every request of the sequence fits on top of the global usage it meets.
pub open spec fn replay_fits(s: TrackerState, calls: Seq<BudgetCall>) -> bool
    decreases calls.len(),
{
    if calls.len() == 0 {
        true
    } else {
        &&& replay_fits(s, calls.drop_last())
        &&& match calls.last() {
            BudgetCall::Request { tokens, global_cost_breach, .. } => fits_global_usage(
                replay(s, calls.drop_last()),
                tokens,
                global_cost_breach,
            ),
            BudgetCall::Reset => true,
        }
    }
}

/// The tokens of the requests by `agent` that were answered within budget
/// since the last reset of the sequence (or its start).
pub open spec fn granted_tokens(s: TrackerState, calls: Seq<BudgetCall>, agent: Seq<char>) -> nat
    decreases calls.len(),
{
    if calls.len() == 0 {
        0
    } else {
        let before = granted_tokens(s, calls.drop_last(), agent);
        match calls.last() {
            BudgetCall::Reset => 0,
            BudgetCall::Request { agent: a, tokens, global_cost_breach, agent_cost_breach } => {
                if a == agent && check_and_record_step(
                    replay(s, calls.drop_last()),
                    a,
                    tokens,
                    global_cost_breach,
                    agent_cost_breach,
                ).0 is None {
                    before + tokens as nat
                } else {
                    before
                }
            },
        }
    }
}

/// From a tracker with no usage yet (new, or just reset), an agent's usage
/// is the sum of the tokens of its requests answered within budget since
/// the last reset; refused requests add nothing.
pub proof fn lemma_usage_is_granted_tokens(s: TrackerState, calls: Seq<BudgetCall>, agent: Seq<char>)
    requires
        s.usage == Map::<Seq<char>, u64>::empty(),
        s.global_usage == 0,
        replay_fits(s, calls),
    ensures
        replay(s, calls).usage_of(agent) == granted_tokens(s, calls, agent),
        replay(s, calls).consistent(),
    decreases calls.len(),
{
    if calls.len() == 0 {
    } else {
        let prev = calls.drop_last();
        lemma_usage_is_granted_tokens(s, prev, agent);
        let t = replay(s, prev);
        match calls.last() {
            BudgetCall::Reset => {
                assert(replay(s, calls).usage =~= Map::<Seq<char>, u64>::empty());
            },
            BudgetCall::Request { agent: a, tokens, global_cost_breach, agent_cost_breach } => {
                lemma_step_keeps_consistent(t, a, tokens, global_cost_breach, agent_cost_breach);
                let step = check_and_record_step(t, a, tokens, global_cost_breach, agent_cost_breach);
                if a != agent {
                    lemma_other_agents_unchanged(t, a, agent, tokens, global_cost_breach, agent_cost_breach);
                } else if step.0 is None {
                    lemma_allowed_request_recorded(t, a, tokens, global_cost_breach, agent_cost_breach);
                } else if global_stage(t, tokens, global_cost_breach) is Some {
                    lemma_global_refusal_keeps_state(t, a, tokens, global_cost_breach, agent_cost_breach);
                } else {
                    let t1 = TrackerState { global_usage: (t.global_usage + tokens) as u64, ..t };
                    assert(step.1 == after_agent_stage(t1, a, tokens, agent_cost_breach));
                    if t.usage.contains_key(a) {
                        assert(t.usage[a] <= t.global_usage);
                    }
                }
            },
        }
    }
}

/// Tracks cumulative usage per agent and globally.
pub struct BudgetTracker {
    limits: AgentMap<BudgetLimit>,
    global_limit: Option<BudgetLimit>,
    usage: AgentMap<u64>,
    global_usage: u64,
}

impl View for BudgetTracker {
    type V = TrackerState;

    closed spec fn view(&self) -> TrackerState {
        TrackerState {
            limits: self.limits@,
            global_limit: self.global_limit,
            usage: self.usage@,
            global_usage: self.global_usage,
        }
    }
}

impl BudgetTracker {
    /// The tracker's internal invariant; it implies that its state is
    /// consistent.
    pub closed spec fn wf(&self) -> bool {
        &&& self.limits.wf()
        &&& self.usage.wf()
        &&& self@.consistent()
    }

    pub proof fn lemma_wf_consistent(&self)
        requires
            self.wf(),
        ensures
            self@.consistent(),
    {
    }

    /// A tracker with no caps and no usage.
    pub fn new() -> (t: Self)
        ensures
            t.wf(),
            t@ == TrackerState::empty(),
    {
        let t = BudgetTracker {
            limits: AgentMap::new(),
            global_limit: None,
            usage: AgentMap::new(),
            global_usage: 0,
        };
        proof {
            assert(t@.limits =~= Map::empty());
            assert(t@.usage =~= Map::empty());
        }
        t
    }

    /// Sets the cap on all agents together.
    pub fn set_global_limit(&mut self, limit: BudgetLimit)
        requires
            old(self).wf(),
        ensures
            final(self).wf(),
            final(self)@ == (TrackerState { global_limit: Some(limit), ..old(self)@ }),
    {
        self.global_limit = Some(limit);
    }

    /// Sets the cap of one agent, replacing any it had.
    pub fn set_agent_limit(&mut self, agent_id: String, limit: BudgetLimit)
        requires
            old(self).wf(),
        ensures
            final(self).wf(),
            final(self)@ == (TrackerState {
                limits: old(self)@.limits.insert(agent_id@, limit),
                ..old(self)@
            }),
    {
        self.limits.insert(agent_id, limit);
    }

    /// Tokens recorded for `agent_id` so far (zero for an unseen agent).
    pub fn get_agent_usage(&self, agent_id: &str) -> (tokens: u64)
        requires
            self.wf(),
        ensures
            tokens == self@.usage_of(agent_id@),
    {
        match self.usage.get(agent_id) {
            Some(t) => *t,
            None => 0,
        }
    }

    /// Tokens recorded for all agents together so far.
    pub fn get_global_usage(&self) -> (tokens: u64)
        ensures
            tokens == self@.global_usage,
    {
        self.global_usage
    }

    /// Clears all recorded usage, keeping the caps (e.g. at the start of a
    /// new billing period).
    pub fn reset(&mut self)
        requires
            old(self).wf(),
        ensures
            final(self).wf(),
            final(self)@ == (TrackerState { usage: Map::empty(), global_usage: 0, ..old(self)@ }),
    {
        self.usage.clear();
        self.global_usage = 0;
        proof {
            assert(self@.usage =~= Map::empty());
        }
    }

    /// The global stage of `check_and_record`: checks the global caps and,
    /// when they hold, adds `tokens` to the global usage. Returns the refusal,
    /// if any. `global_cost_breach` is the reason to refuse on cost when the
    /// request's cost would pass the global cost cap.
    pub fn check_and_record_global(&mut self, tokens: u64, global_cost_breach: Option<String>) -> (r: Option<BudgetResult>)
        requires
            old(self).wf(),
            fits_global_usage(old(self)@, tokens, opt_view(global_cost_breach)),
        ensures
            final(self).wf(),
            match r {
                Some(res) => res@ == global_stage(old(self)@, tokens, opt_view(global_cost_breach)) && res
                    is Exceeded,
                None => global_stage(old(self)@, tokens, opt_view(global_cost_breach)) is None,
            },
            final(self)@ == if r is Some {
                old(self)@
            } else {
                TrackerState { global_usage: (old(self)@.global_usage + tokens) as u64, ..old(self)@ }
            },
    {
        if let Some(limit) = &self.global_limit {
            if let Some(max_tokens) = limit.max_tokens {
                if self.global_usage + tokens > max_tokens {
                    let mut reason = String::from_str("global token budget exceeded: ");
                    let used_text = decimal_string(self.global_usage);
                    let tokens_text = decimal_string(tokens);
                    let max_text = decimal_string(max_tokens);
                    reason.append(used_text.as_str());
                    reason.append(" + ");
                    reason.append(tokens_text.as_str());
                    reason.append(" > ");
                    reason.append(max_text.as_str());
                    return Some(BudgetResult::Exceeded { reason });
                }
            }
            if let Some(reason) = global_cost_breach {
                return Some(BudgetResult::Exceeded { reason });
            }
        }
        self.global_usage = self.global_usage + tokens;
        None
    }

    /// The agent stage of `check_and_record`, once the global stage has
    /// recorded the request: creates the agent's entry, checks the agent's
    /// caps and, when they hold, adds `tokens` to the agent's usage.
    /// `agent_cost_breach` tells whether the request's cost would pass the
    /// agent's cost cap.
    pub fn check_and_record_agent(&mut self, agent_id: &str, tokens: u64, agent_cost_breach: bool) -> (r: BudgetResult)
        requires
            old(self).wf(),
            old(self)@.usage_of(agent_id@) + tokens <= old(self)@.global_usage,
        ensures
            final(self).wf(),
            r@ == agent_stage(old(self)@, agent_id@, tokens, agent_cost_breach),
            final(self)@ == after_agent_stage(old(self)@, agent_id@, tokens, agent_cost_breach),
    {
        let used: u64 = match self.usage.get(agent_id) {
            Some(t) => *t,
            None => 0,
        };
        let mut refusal: Option<String> = None;
        if let Some(limit) = self.limits.get(agent_id) {
            if let Some(max_tokens) = limit.max_tokens {
                if used + tokens > max_tokens {
                    let mut reason = String::from_str("agent ");
                    reason.append(agent_id);
                    reason.append(" token budget exceeded");
                    refusal = Some(reason);
                }
            }
            if refusal.is_none() && agent_cost_breach {
                let mut reason = String::from_str("agent ");
                reason.append(agent_id);
                reason.append(" cost budget exceeded");
                refusal = Some(reason);
            }
        }
        let owned_id = agent_id.to_owned();
        match refusal {
            Some(reason) => {
                self.usage.insert(owned_id, used);
                BudgetResult::Exceeded { reason }
            },
            None => {
                self.usage.insert(owned_id, used + tokens);
                BudgetResult::WithinBudget
            },
        }
    }

    /// Records usage and checks it against the caps. Returns `WithinBudget`
    /// when the request is allowed, or `Exceeded` with a reason when a cap
    /// would be passed.
    ///
    /// Global usage is always recorded first; agent-level usage is recorded
    /// only when the global check passes. `global_cost_breach` is the reason
    /// to refuse on cost when the request's cost would pass the global cost
    /// cap; `agent_cost_breach` tells whether it would pass the agent's.
    pub fn check_and_record(
        &mut self,
        agent_id: &str,
        tokens: u64,
        global_cost_breach: Option<String>,
        agent_cost_breach: bool,
    ) -> (r: BudgetResult)
        requires
            old(self).wf(),
            fits_global_usage(old(self)@, tokens, opt_view(global_cost_breach)),
        ensures
            final(self).wf(),
            (r@, final(self)@) == check_and_record_step(
                old(self)@,
                agent_id@,
                tokens,
                opt_view(global_cost_breach),
                agent_cost_breach,
            ),
    {
        match self.check_and_record_global(tokens, global_cost_breach) {
            Some(refusal) => refusal,
            None => self.check_and_record_agent(agent_id, tokens, agent_cost_breach),
        }
    }
}

impl Default for BudgetTracker {
    fn default() -> (t: Self)
        ensures
            t.wf(),
            t@ == TrackerState::empty(),
    {
        Self::new()
    }
}

/// Daily token cap for the stateless check.
#[derive(Debug, Clone, Copy, Default, PartialEq, Eq, Structural)]
pub struct BudgetConfig {
    /// Maximum tokens allowed per day. `None` means no limit.
    pub daily_token_limit: Option<u64>,
}

/// Returns `true` when the already-accumulated token count is within the
/// configured daily cap (reaching the cap exactly is still within). It
/// records nothing.
pub fn check_budget(config: &BudgetConfig, current_tokens: u64) -> (within: bool)
    ensures
        within == !breaches(config.daily_token_limit, current_tokens as nat, 0),
{
    match config.daily_token_limit {
        Some(max_tokens) => current_tokens <= max_tokens,
        None => true,
    }
}

} // verus!
