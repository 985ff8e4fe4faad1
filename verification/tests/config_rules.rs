use claw_workflow::model::{WorkflowConfig, WorkflowError, WorkflowPhaseDefinition, WorkflowState};
use claw_workflow::validate::{validate_artifact_path, validate_non_empty_field, validate_phase_id};

fn phase(id: &str, artifact: &str) -> WorkflowPhaseDefinition {
    WorkflowPhaseDefinition {
        id: id.to_string(),
        title: "Title".to_string(),
        role: "Role".to_string(),
        summary: "Summary".to_string(),
        artifact_path: artifact.to_string(),
    }
}

fn invalid(message: &str) -> Result<(), WorkflowError> {
    Err(WorkflowError::InvalidConfig(message.to_string()))
}

#[test]
fn default_config_is_valid_and_has_five_phases() {
    let config = WorkflowConfig::claw_default();
    assert_eq!(config.validate(), Ok(()));
    let ids: Vec<&str> = config.phases.iter().map(|p| p.id.as_str()).collect();
    assert_eq!(ids, vec!["scope", "plan", "implement", "review", "verify"]);
    assert_eq!(WorkflowConfig::default(), config);
}

#[test]
fn config_validation_errors() {
    let mut config = WorkflowConfig { schema_version: 2, phases: vec![phase("a", "a.md")] };
    assert_eq!(config.validate(), invalid("unsupported workflow schema_version 2"));
    config.schema_version = 1;
    config.phases.clear();
    assert_eq!(config.validate(), invalid("workflow config must define at least one phase"));
    config.phases = vec![phase("a", "a.md"), phase("b", "b.md"), phase("a", "c.md")];
    assert_eq!(config.validate(), invalid("workflow phase ids must be unique: a"));
    config.phases = vec![phase("a", "a.md"), phase("b c", "b.md")];
    assert_eq!(config.validate(), invalid("workflow phase id must use [A-Za-z0-9_-]: b c"));
    config.phases = vec![phase("a", "../a.md")];
    assert_eq!(config.validate(), invalid("artifact path cannot escape the workspace: ../a.md"));
    let mut p = phase("a", "a.md");
    p.summary = "  ".to_string();
    config.phases = vec![p];
    assert_eq!(config.validate(), invalid("phase summary cannot be empty"));
}

#[test]
fn field_rules() {
    assert_eq!(validate_phase_id(""), invalid("workflow phase ids cannot be empty"));
    assert_eq!(validate_phase_id("A-z_09"), Ok(()));
    assert_eq!(validate_phase_id("é"), invalid("workflow phase id must use [A-Za-z0-9_-]: é"));
    assert_eq!(validate_non_empty_field("phase role", "\n"), invalid("phase role cannot be empty"));
    assert_eq!(validate_artifact_path(" "), invalid("artifact path cannot be empty"));
    assert_eq!(validate_artifact_path("/abs.md"), invalid("artifact path must be repo-relative: /abs.md"));
    assert_eq!(validate_artifact_path("a/../../b"), invalid("artifact path cannot escape the workspace: a/../../b"));
    assert_eq!(validate_artifact_path("a/.."), invalid("artifact path cannot escape the workspace: a/.."));
    assert_eq!(validate_artifact_path("a/..b/c.md"), Ok(()));
    assert_eq!(validate_artifact_path("./docs/x.md"), Ok(()));
}

#[test]
fn pending_state_fits_its_config() {
    let config = WorkflowConfig::claw_default();
    let state = WorkflowState::pending_for(&config);
    assert_eq!(state.validate(&config), Ok(()));
    assert_eq!(state.schema_version, 1);
    assert_eq!(state.phases.len(), 5);
    assert_eq!(state.phases[3].phase_id, "review");
    assert!(state.ledger.is_empty());
    assert_eq!(state.current_phase_index(), Some(0));
    assert_eq!(config.phase_index("review"), Some(3));
    assert_eq!(config.phase_index("ship"), None);
}
