use govrix_budget::proxy::handlers::{
    both_stored, cost_window, delete_project_outcome, found_outcome, lookup_outcome,
    parse_assigned_project, parse_project_id, store_outcome, updated_project, ApiError,
    AssignProjectBody, Endpoint, CreateProjectBody, ProjectCostsParams, Timestamp, UpdateProjectBody,
};

const ID: &str = "67e55044-10b1-426f-9247-bb680e5fe0c8";
const ID_VALUE: u128 = 0x67e5504410b1426f9247bb680e5fe0c8;

#[test]
fn project_ids_parse_or_answer_bad_request() {
    assert_eq!(parse_project_id(ID), Ok(ID_VALUE));
    assert_eq!(parse_project_id("67e5504410b1426f9247bb680e5fe0c8"), Ok(ID_VALUE));
    let err = parse_project_id("not-a-uuid").unwrap_err();
    assert_eq!(err, ApiError::BadRequest { error: "invalid project id".to_string() });
    assert_eq!(err.status(), 400);
    assert!(parse_project_id("").is_err());
}

#[test]
fn assigned_project_is_optional() {
    let body = AssignProjectBody { project_id: None };
    assert_eq!(parse_assigned_project(&body.project_id), Ok(None));
    let body = AssignProjectBody { project_id: Some(ID.to_string()) };
    assert_eq!(parse_assigned_project(&body.project_id), Ok(Some(ID_VALUE)));
    let body = AssignProjectBody { project_id: Some("x".to_string()) };
    assert_eq!(
        parse_assigned_project(&body.project_id),
        Err(ApiError::BadRequest { error: "invalid project_id".to_string() })
    );
}

#[test]
fn store_failures_answer_internal_error() {
    assert_eq!(store_outcome::<u32>(Ok(7), Endpoint::ListProjects), Ok(7));
    let err = store_outcome::<u32>(Err("db down".to_string()), Endpoint::ListProjects).unwrap_err();
    assert_eq!(
        err,
        ApiError::Internal { error: "failed to list projects".to_string(), detail: "db down".to_string() }
    );
    assert_eq!(err.status(), 500);
    let texts = [
        (Endpoint::GetAgentBudget, "failed to fetch budget"),
        (Endpoint::SetAgentBudget, "failed to set budget"),
        (Endpoint::DeleteAgentBudget, "failed to delete budget"),
        (Endpoint::BudgetOverview, "failed to fetch budget overview"),
        (Endpoint::CreateProject, "failed to create project"),
        (Endpoint::GetProject, "failed to fetch project"),
        (Endpoint::UpdateProject, "failed to update project"),
        (Endpoint::DeleteProject, "failed to delete project"),
        (Endpoint::ListProjectAgents, "failed to list agents"),
        (Endpoint::ProjectCosts, "failed to fetch costs"),
        (Endpoint::AssignAgentProject, "failed to assign agent"),
    ];
    for (endpoint, text) in texts {
        assert_eq!(
            store_outcome::<u8>(Err("x".to_string()), endpoint),
            Err(ApiError::Internal { error: text.to_string(), detail: "x".to_string() })
        );
    }
}

#[test]
fn first_store_failure_wins() {
    let e = Endpoint::GetAgentBudget;
    assert_eq!(both_stored::<u8, u8>(Ok(1), Ok(2), e), Ok((1, 2)));
    let internal = |d: &str| ApiError::Internal { error: "failed to fetch budget".to_string(), detail: d.to_string() };
    assert_eq!(both_stored::<u8, u8>(Err("a".to_string()), Err("b".to_string()), e), Err(internal("a")));
    assert_eq!(both_stored::<u8, u8>(Ok(1), Err("b".to_string()), e), Err(internal("b")));
}

#[test]
fn found_and_lookup_outcomes() {
    assert_eq!(found_outcome(Ok(true), Endpoint::AssignAgentProject), Ok(()));
    let err = found_outcome(Ok(false), Endpoint::AssignAgentProject).unwrap_err();
    assert_eq!(err, ApiError::NotFound { error: "agent not found".to_string() });
    assert_eq!(err.status(), 404);
    assert_eq!(
        found_outcome(Ok(false), Endpoint::DeleteAgentBudget),
        Err(ApiError::NotFound { error: "no budget config found".to_string() })
    );
    assert_eq!(
        found_outcome(Ok(false), Endpoint::UpdateProject),
        Err(ApiError::NotFound { error: "project not found or no changes".to_string() })
    );
    assert_eq!(
        found_outcome(Err("d".to_string()), Endpoint::UpdateProject),
        Err(ApiError::Internal { error: "failed to update project".to_string(), detail: "d".to_string() })
    );
    assert_eq!(lookup_outcome(Ok(Some(3)), Endpoint::GetProject), Ok(3));
    assert_eq!(
        lookup_outcome::<u8>(Ok(None), Endpoint::GetProject),
        Err(ApiError::NotFound { error: "project not found".to_string() })
    );
}

#[test]
fn project_deletion_outcomes() {
    assert_eq!(delete_project_outcome(Ok(Ok(true))), Ok(()));
    assert_eq!(
        delete_project_outcome(Ok(Ok(false))),
        Err(ApiError::NotFound { error: "project not found".to_string() })
    );
    let conflict = delete_project_outcome(Ok(Err("project has agents".to_string()))).unwrap_err();
    assert_eq!(conflict, ApiError::Conflict { error: "project has agents".to_string() });
    assert_eq!(conflict.status(), 409);
    assert_eq!(
        delete_project_outcome(Err("io".to_string())),
        Err(ApiError::Internal { error: "failed to delete project".to_string(), detail: "io".to_string() })
    );
}

#[test]
fn updated_project_shown_only_when_read_back() {
    assert_eq!(updated_project(Ok(Some(5))), Some(5));
    assert_eq!(updated_project::<u8>(Ok(None)), None);
    assert_eq!(updated_project::<u8>(Err("x".to_string())), None);
}

#[test]
fn cost_window_defaults_to_thirty_days_before_now() {
    let now = Timestamp { secs: 10_000_000, nanos: 5 };
    assert_eq!(
        cost_window(ProjectCostsParams { from: None, to: None }, now),
        (Timestamp { secs: 10_000_000 - 2_592_000, nanos: 5 }, now)
    );
    let to = Timestamp { secs: 3_000_000, nanos: 0 };
    assert_eq!(cost_window(ProjectCostsParams { from: None, to: Some(to) }, now), (Timestamp { secs: 408_000, nanos: 0 }, to));
    let from = Timestamp { secs: 1, nanos: 2 };
    assert_eq!(cost_window(ProjectCostsParams { from: Some(from), to: Some(to) }, now), (from, to));
}

#[test]
fn request_bodies_hold_their_fields() {
    let c = CreateProjectBody { name: "p".to_string(), description: None };
    let u = UpdateProjectBody { name: None, description: Some("d".to_string()) };
    assert_eq!(c.clone().name, "p");
    assert_eq!(u.clone().description.as_deref(), Some("d"));
}
