//! What the budget and project endpoints decide around their store calls:
//! which path and body identifiers are valid, which store outcomes answer
//! with which status, and the window of a cost summary. The calls to the
//! store and the JSON bodies are the server's.
use vstd::prelude::*;

verus! {

/// Body of a request that creates a project.
#[derive(Debug, Clone)]
pub struct CreateProjectBody {
    pub name: String,
    pub description: Option<String>,
}

/// Body of a request that updates a project.
#[derive(Debug, Clone)]
pub struct UpdateProjectBody {
    pub name: Option<String>,
    pub description: Option<String>,
}

/// Body of a request that assigns an agent to a project (or unassigns it).
#[derive(Debug, Clone)]
pub struct AssignProjectBody {
    pub project_id: Option<String>,
}

/// A request that fails, with the text of its `error` field.
#[derive(Debug, Clone, PartialEq, Eq)]
pub enum ApiError {
    /// 400: the request names something malformed.
    BadRequest { error: String },
    /// 404: what the request names does not exist.
    NotFound { error: String },
    /// 409: the store refused the change, for `error`.
    Conflict { error: String },
    /// 500: the store failed; `detail` is its message.
    Internal { error: String, detail: String },
}

impl ApiError {
    /// The HTTP status of the failure.
    pub open spec fn status_spec(&self) -> u16 {
        match self {
            ApiError::BadRequest { .. } => 400,
            ApiError::NotFound { .. } => 404,
            ApiError::Conflict { .. } => 409,
            ApiError::Internal { .. } => 500,
        }
    }

    #[verifier::when_used_as_spec(status_spec)]
    pub fn status(&self) -> (code: u16)
        ensures
            code == self.status_spec(),
    {
        match self {
            ApiError::BadRequest { .. } => 400,
            ApiError::NotFound { .. } => 404,
            ApiError::Conflict { .. } => 409,
            ApiError::Internal { .. } => 500,
        }
    }
}

/// The 128-bit value of the UUID that `text` spells, if it spells one, as
/// `uuid::Uuid::parse_str` reads it.
pub uninterp spec fn parsed_uuid(text: Seq<char>) -> Option<u128>;

/// `uuid::Uuid::parse_str` followed by `Uuid::as_u128`: the UUID that `text`
/// spells (simple, hyphenated, braced or URN form), as a big-endian 128-bit
/// value, or `None` when `text` spells none. The result is named, not
/// stated: it depends on `text` alone.
#[verifier::external_body]
fn parse_uuid(text: &str) -> (r: Option<u128>)
    ensures
        r == parsed_uuid(text@),
{
    match uuid::Uuid::parse_str(text) {
        Ok(id) => Some(id.as_u128()),
        Err(_) => None,
    }
}

/// What an identifier parse leads to: the identifier, or a 400 with `error`.
pub fn require_uuid(parsed: Option<u128>, error: &str) -> (r: Result<u128, ApiError>)
    ensures
        match parsed {
            Some(id) => r == Ok::<u128, ApiError>(id),
            None => r matches Err(ApiError::BadRequest { error: e }) && e@ == error@,
        },
{
    match parsed {
        Some(id) => Ok(id),
        None => Err(ApiError::BadRequest { error: error.to_owned() }),
    }
}

/// The project that a path segment names, or a 400 "invalid project id".
pub fn parse_project_id(id: &str) -> (r: Result<u128, ApiError>)
    ensures
        match parsed_uuid(id@) {
            Some(p) => r == Ok::<u128, ApiError>(p),
            None => r matches Err(ApiError::BadRequest { error: e }) && e@ == "invalid project id"@,
        },
{
    let parsed = parse_uuid(id);
    require_uuid(parsed, "invalid project id")
}

/// The project that an assignment names: none when the body names none,
/// else the parsed identifier, or a 400 "invalid project_id".
pub fn parse_assigned_project(project_id: &Option<String>) -> (r: Result<Option<u128>, ApiError>)
    ensures
        match project_id {
            None => r == Ok::<Option<u128>, ApiError>(None),
            Some(text) => match parsed_uuid(text@) {
                Some(p) => r == Ok::<Option<u128>, ApiError>(Some(p)),
                None => r matches Err(ApiError::BadRequest { error: e }) && e@ == "invalid project_id"@,
            },
        },
{
    match project_id {
        Some(text) => {
            let parsed = parse_uuid(text.as_str());
            match require_uuid(parsed, "invalid project_id") {
                Ok(id) => Ok(Some(id)),
                Err(e) => Err(e),
            }
        },
        None => Ok(None),
    }
}

/// The endpoints that call the store.
#[derive(Debug, Clone, Copy, PartialEq, Eq, Structural)]
pub enum Endpoint {
    GetAgentBudget,
    SetAgentBudget,
    DeleteAgentBudget,
    BudgetOverview,
    ListProjects,
    CreateProject,
    GetProject,
    UpdateProject,
    DeleteProject,
    ListProjectAgents,
    ProjectCosts,
    AssignAgentProject,
}

/// The `error` text of an endpoint's answer when its store call fails.
pub open spec fn failure_text(e: Endpoint) -> Seq<char> {
    match e {
        Endpoint::GetAgentBudget => "failed to fetch budget"@,
        Endpoint::SetAgentBudget => "failed to set budget"@,
        Endpoint::DeleteAgentBudget => "failed to delete budget"@,
        Endpoint::BudgetOverview => "failed to fetch budget overview"@,
        Endpoint::ListProjects => "failed to list projects"@,
        Endpoint::CreateProject => "failed to create project"@,
        Endpoint::GetProject => "failed to fetch project"@,
        Endpoint::UpdateProject => "failed to update project"@,
        Endpoint::DeleteProject => "failed to delete project"@,
        Endpoint::ListProjectAgents => "failed to list agents"@,
        Endpoint::ProjectCosts => "failed to fetch costs"@,
        Endpoint::AssignAgentProject => "failed to assign agent"@,
    }
}

/// The `error` text of an endpoint's 404, for the endpoints that answer one.
pub open spec fn not_found_text(e: Endpoint) -> Option<Seq<char>> {
    match e {
        Endpoint::DeleteAgentBudget => Some("no budget config found"@),
        Endpoint::GetProject => Some("project not found"@),
        Endpoint::UpdateProject => Some("project not found or no changes"@),
        Endpoint::DeleteProject => Some("project not found"@),
        Endpoint::AssignAgentProject => Some("agent not found"@),
        _ => None,
    }
}

fn failure_message(e: Endpoint) -> (t: &'static str)
    ensures
        t@ == failure_text(e),
{
    match e {
        Endpoint::GetAgentBudget => "failed to fetch budget",
        Endpoint::SetAgentBudget => "failed to set budget",
        Endpoint::DeleteAgentBudget => "failed to delete budget",
        Endpoint::BudgetOverview => "failed to fetch budget overview",
        Endpoint::ListProjects => "failed to list projects",
        Endpoint::CreateProject => "failed to create project",
        Endpoint::GetProject => "failed to fetch project",
        Endpoint::UpdateProject => "failed to update project",
        Endpoint::DeleteProject => "failed to delete project",
        Endpoint::ListProjectAgents => "failed to list agents",
        Endpoint::ProjectCosts => "failed to fetch costs",
        Endpoint::AssignAgentProject => "failed to assign agent",
    }
}

fn not_found_message(e: Endpoint) -> (t: &'static str)
    requires
        not_found_text(e) is Some,
    ensures
        t@ == not_found_text(e)->0,
{
    match e {
        Endpoint::DeleteAgentBudget => "no budget config found",
        Endpoint::GetProject => "project not found",
        Endpoint::UpdateProject => "project not found or no changes",
        Endpoint::DeleteProject => "project not found",
        _ => "agent not found",
    }
}

/// The 500 answer of an endpoint whose store call failed with `detail`.
pub open spec fn is_store_failure(r: ApiError, e: Endpoint, detail: Seq<char>) -> bool {
    r matches ApiError::Internal { error: t, detail: d } && t@ == failure_text(e) && d@ == detail
}

/// The 404 answer of an endpoint.
pub open spec fn is_not_found(r: ApiError, e: Endpoint) -> bool {
    r matches ApiError::NotFound { error: t } && Some(t@) == not_found_text(e)
}

/// An endpoint's store call result: its value, or a 500 with the endpoint's
/// failure text and the store's message as detail.
pub fn store_outcome<T>(result: Result<T, String>, endpoint: Endpoint) -> (r: Result<T, ApiError>)
    ensures
        match result {
            Ok(v) => r == Ok::<T, ApiError>(v),
            Err(d) => r matches Err(err) && is_store_failure(err, endpoint, d@),
        },
{
    match result {
        Ok(v) => Ok(v),
        Err(detail) => Err(ApiError::Internal { error: failure_message(endpoint).to_owned(), detail }),
    }
}

/// Two store calls' results: both values, or a 500 for the first failure
/// (the first call's, when both fail).
pub fn both_stored<C, U>(first: Result<C, String>, second: Result<U, String>, endpoint: Endpoint) -> (r: Result<(C, U), ApiError>)
    ensures
        match (first, second) {
            (Ok(c), Ok(u)) => r == Ok::<(C, U), ApiError>((c, u)),
            (Err(d), _) => r matches Err(err) && is_store_failure(err, endpoint, d@),
            (Ok(_), Err(d)) => r matches Err(err) && is_store_failure(err, endpoint, d@),
        },
{
    match first {
        Ok(c) => match second {
            Ok(u) => Ok((c, u)),
            Err(detail) => Err(ApiError::Internal { error: failure_message(endpoint).to_owned(), detail }),
        },
        Err(detail) => Err(ApiError::Internal { error: failure_message(endpoint).to_owned(), detail }),
    }
}

/// A store call that reports whether it found what it acted on: done, the
/// endpoint's 404, or its 500.
pub fn found_outcome(result: Result<bool, String>, endpoint: Endpoint) -> (r: Result<(), ApiError>)
    requires
        not_found_text(endpoint) is Some,
    ensures
        match result {
            Ok(true) => r == Ok::<(), ApiError>(()),
            Ok(false) => r matches Err(err) && is_not_found(err, endpoint),
            Err(d) => r matches Err(err) && is_store_failure(err, endpoint, d@),
        },
{
    match result {
        Ok(true) => Ok(()),
        Ok(false) => Err(ApiError::NotFound { error: not_found_message(endpoint).to_owned() }),
        Err(detail) => Err(ApiError::Internal { error: failure_message(endpoint).to_owned(), detail }),
    }
}

/// A store lookup: the value, the endpoint's 404, or its 500.
pub fn lookup_outcome<T>(result: Result<Option<T>, String>, endpoint: Endpoint) -> (r: Result<T, ApiError>)
    requires
        not_found_text(endpoint) is Some,
    ensures
        match result {
            Ok(Some(v)) => r == Ok::<T, ApiError>(v),
            Ok(None) => r matches Err(err) && is_not_found(err, endpoint),
            Err(d) => r matches Err(err) && is_store_failure(err, endpoint, d@),
        },
{
    match result {
        Ok(Some(v)) => Ok(v),
        Ok(None) => Err(ApiError::NotFound { error: not_found_message(endpoint).to_owned() }),
        Err(detail) => Err(ApiError::Internal { error: failure_message(endpoint).to_owned(), detail }),
    }
}

/// A project deletion: done, a 404 when there was no such project, a 409
/// with the store's reason when it refused (agents still assigned), or a
/// 500.
pub fn delete_project_outcome(result: Result<Result<bool, String>, String>) -> (r: Result<(), ApiError>)
    ensures
        match result {
            Ok(Ok(true)) => r == Ok::<(), ApiError>(()),
            Ok(Ok(false)) => r matches Err(err) && is_not_found(err, Endpoint::DeleteProject),
            Ok(Err(reason)) => r matches Err(ApiError::Conflict { error: e }) && e@ == reason@,
            Err(d) => r matches Err(err) && is_store_failure(err, Endpoint::DeleteProject, d@),
        },
{
    match result {
        Ok(Ok(found)) => found_outcome(Ok(found), Endpoint::DeleteProject),
        Ok(Err(reason)) => Err(ApiError::Conflict { error: reason }),
        Err(detail) => found_outcome(Err(detail), Endpoint::DeleteProject),
    }
}

/// The project to show after an update: the one read back, when reading it
/// back found it (the answer is then the bare identifier otherwise).
pub fn updated_project<T>(read_back: Result<Option<T>, String>) -> (r: Option<T>)
    ensures
        r == match read_back {
            Ok(Some(v)) => Some(v),
            _ => None::<T>,
        },
{
    match read_back {
        Ok(Some(v)) => Some(v),
        _ => None,
    }
}

/// A point in time: seconds since the Unix epoch and the nanoseconds past
/// that second.
#[derive(Debug, Clone, Copy, PartialEq, Eq, Structural)]
pub struct Timestamp {
    pub secs: i64,
    pub nanos: u32,
}

/// The default span of a cost summary: thirty days, in seconds.
pub const COST_WINDOW_SECS: i64 = 2592000i64;

/// Query of a project cost summary: the optional ends of its window.
#[derive(Debug, Clone, Copy, PartialEq, Eq, Structural)]
pub struct ProjectCostsParams {
    pub from: Option<Timestamp>,
    pub to: Option<Timestamp>,
}

/// The window of a project cost summary: it ends at `to`, or now; it starts
/// at `from`, or thirty days before its end.
pub fn cost_window(params: ProjectCostsParams, now: Timestamp) -> (w: (Timestamp, Timestamp))
    requires
        params.from is None ==> match params.to {
            Some(t) => t.secs,
            None => now.secs,
        } >= i64::MIN + COST_WINDOW_SECS,
    ensures
        w.1 == match params.to {
            Some(t) => t,
            None => now,
        },
        w.0 == match params.from {
            Some(f) => f,
            None => Timestamp { secs: (w.1.secs - COST_WINDOW_SECS) as i64, nanos: w.1.nanos },
        },
{
    let end = match params.to {
        Some(t) => t,
        None => now,
    };
    let start = match params.from {
        Some(f) => f,
        None => Timestamp { secs: end.secs - COST_WINDOW_SECS, nanos: end.nanos },
    };
    (start, end)
}

} // verus!
