//! What a policy check answers.
use vstd::prelude::*;

verus! {

/// How urgent an alert is.
#[derive(Debug, Clone, Copy, PartialEq, Eq, Structural)]
pub enum AlertSeverity {
    Low,
    Medium,
    High,
    Critical,
}

/// The action a policy check asks for.
#[derive(Debug, Clone, PartialEq, Eq)]
pub enum PolicyAction {
    /// Let the request through.
    Allow,
    /// Refuse the request.
    Block { reason: String },
    /// Let the request through and raise an alert.
    Alert { message: String, severity: AlertSeverity },
}

/// A policy action with its texts as character sequences.
pub enum Verdict {
    Allow,
    Block { reason: Seq<char> },
    Alert { message: Seq<char>, severity: AlertSeverity },
}

impl View for PolicyAction {
    type V = Verdict;

    open spec fn view(&self) -> Verdict {
        match self {
            PolicyAction::Allow => Verdict::Allow,
            PolicyAction::Block { reason } => Verdict::Block { reason: reason@ },
            PolicyAction::Alert { message, severity } => Verdict::Alert {
                message: message@,
                severity: *severity,
            },
        }
    }
}

/// The view of an optional action.
pub open spec fn opt_verdict(a: Option<PolicyAction>) -> Option<Verdict> {
    match a {
        Some(x) => Some(x@),
        None => None,
    }
}

} // verus!
