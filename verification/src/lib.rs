//! Budget enforcement for AI agents: per-agent and global token caps, usage
//! tracking, the policy decisions taken before each request, and the small
//! decisions that the budget and project endpoints take around their store
//! calls.

pub mod agent_map;
pub mod policy;
pub mod proxy;
pub mod text;
