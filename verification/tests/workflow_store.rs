use std::collections::BTreeMap;

use claw_workflow::render::render_init_report;
use claw_workflow::gate::{
    approve_workflow_gate, load_workflow_snapshot, phase_display_status, return_workflow_gate,
    WorkflowStore,
};
use claw_workflow::init::{initialize_workflow, initialize_workflow_with_options, InitAction, InitEvent};
use claw_workflow::model::{
    WorkflowConfig, WorkflowDisplayStatus, WorkflowError, WorkflowFileStatus, WorkflowInitOptions,
    WorkflowInitReport, WorkflowLedgerAction, WorkflowPhaseDefinition, WorkflowState,
    WorkflowStoredGateStatus, DEFAULT_WORKFLOW_CONFIG_RELATIVE_PATH,
    DEFAULT_WORKFLOW_STATE_RELATIVE_PATH,
};

const ROOT: &str = "/work/repo";
const NOW: u64 = 1_700_000_000;

/// A workspace kept in memory: what each path holds.
#[derive(Default)]
struct Workspace {
    files: BTreeMap<String, Entry>,
}

#[derive(Clone)]
enum Entry {
    Config(WorkflowConfig),
    State(WorkflowState),
    Text(String),
}

impl Workspace {
    fn path(rel: &str) -> String {
        format!("{ROOT}/{rel}")
    }

    fn read_config(&self, path: &str) -> Result<WorkflowConfig, WorkflowError> {
        match self.files.get(path) {
            Some(Entry::Config(c)) => Ok(c.clone()),
            Some(_) => Err(WorkflowError::Json("expected value at line 1 column 1".to_string())),
            None => Err(WorkflowError::Io("No such file or directory (os error 2)".to_string())),
        }
    }

    fn read_state(&self, path: &str) -> Result<WorkflowState, WorkflowError> {
        match self.files.get(path) {
            Some(Entry::State(s)) => Ok(s.clone()),
            Some(_) => Err(WorkflowError::Json("expected value at line 1 column 1".to_string())),
            None => Err(WorkflowError::Io("No such file or directory (os error 2)".to_string())),
        }
    }

    fn run(&mut self, start: (claw_workflow::init::InitSession, InitAction)) -> Result<WorkflowInitReport, WorkflowError> {
        let (mut session, mut action) = start;
        loop {
            let event = match action {
                InitAction::CheckExists(p) => InitEvent::Exists(self.files.contains_key(&p)),
                InitAction::ReadConfig(p) => InitEvent::ConfigRead(self.read_config(&p)),
                InitAction::WriteConfig(p, c) => {
                    self.files.insert(p, Entry::Config(c));
                    InitEvent::Written(Ok(()))
                }
                InitAction::ReadState(p) => InitEvent::StateRead(self.read_state(&p)),
                InitAction::WriteState(p, s) => {
                    self.files.insert(p, Entry::State(s));
                    InitEvent::Written(Ok(()))
                }
                InitAction::WriteArtifact(p, text) => {
                    self.files.insert(p, Entry::Text(text));
                    InitEvent::Written(Ok(()))
                }
                InitAction::Finish(outcome) => return outcome,
            };
            action = session.step(event);
        }
    }

    fn init(&mut self) -> Result<WorkflowInitReport, WorkflowError> {
        self.run(initialize_workflow(ROOT))
    }

    fn init_with(&mut self, template: Option<&str>, force: bool) -> Result<WorkflowInitReport, WorkflowError> {
        self.run(initialize_workflow_with_options(
            ROOT,
            WorkflowInitOptions {
                template_path: template.map(str::to_string),
                force,
            },
        ))
    }

    fn config_read(&self) -> Option<Result<WorkflowConfig, WorkflowError>> {
        let p = Self::path(DEFAULT_WORKFLOW_CONFIG_RELATIVE_PATH);
        self.files.contains_key(&p).then(|| self.read_config(&p))
    }

    fn state_read(&self) -> Option<Result<WorkflowState, WorkflowError>> {
        let p = Self::path(DEFAULT_WORKFLOW_STATE_RELATIVE_PATH);
        self.files.contains_key(&p).then(|| self.read_state(&p))
    }

    fn store(&self) -> Result<WorkflowStore, WorkflowError> {
        WorkflowStore::load(ROOT, self.config_read(), self.state_read())
    }

    fn save(&mut self, store: &WorkflowStore) {
        self.files.insert(store.paths.state_path.clone(), Entry::State(store.state.clone()));
    }

    fn approve(&mut self, phase: Option<&str>, note: Option<&str>) -> Result<claw_workflow::model::WorkflowMutationResult, WorkflowError> {
        let mut store = self.store()?;
        let result = approve_workflow_gate(&mut store, phase, note, Ok(NOW))?;
        self.save(&store);
        Ok(result)
    }

    fn return_gate(&mut self, phase: Option<&str>, reason: &str) -> Result<claw_workflow::model::WorkflowMutationResult, WorkflowError> {
        let mut store = self.store()?;
        let result = return_workflow_gate(&mut store, phase, reason, Ok(NOW))?;
        self.save(&store);
        Ok(result)
    }

    fn state(&self) -> WorkflowState {
        self.read_state(&Self::path(DEFAULT_WORKFLOW_STATE_RELATIVE_PATH)).expect("state loads")
    }
}

fn single_phase_template(id: &str, title: &str, role: &str, summary: &str, artifact: &str) -> WorkflowConfig {
    WorkflowConfig {
        schema_version: 1,
        phases: vec![WorkflowPhaseDefinition {
            id: id.to_string(),
            title: title.to_string(),
            role: role.to_string(),
            summary: summary.to_string(),
            artifact_path: artifact.to_string(),
        }],
    }
}

#[test]
fn initialize_workflow_creates_default_files_and_snapshot() {
    let mut ws = Workspace::default();
    let report = ws.init().expect("workflow init should succeed");

    assert!(report.config_path.ends_with(DEFAULT_WORKFLOW_CONFIG_RELATIVE_PATH));
    assert!(report.state_path.ends_with(DEFAULT_WORKFLOW_STATE_RELATIVE_PATH));
    assert_eq!(report.artifacts.len(), 5);
    assert!(ws.files.contains_key(&Workspace::path(".claw/workflow/scope.md")));

    let snapshot = load_workflow_snapshot(ROOT, ws.config_read(), ws.state_read()).expect("snapshot should load");
    assert_eq!(snapshot.current_phase_id.as_deref(), Some("scope"));
    assert_eq!(snapshot.approved_count, 0);
    assert_eq!(snapshot.phases[0].status, WorkflowDisplayStatus::Current);
    assert_eq!(snapshot.phases[1].status, WorkflowDisplayStatus::Blocked);
}

#[test]
fn initialize_workflow_with_template_and_force_overwrites_existing_config() {
    let mut ws = Workspace::default();
    let template = Workspace::path(".claw/workflow-template.json");
    ws.files.insert(
        template.clone(),
        Entry::Config(single_phase_template(
            "discover",
            "Discovery",
            "Plan",
            "Collect requirements and constraints.",
            ".claw/workflow/discovery.md",
        )),
    );

    ws.init_with(Some(&template), true).expect("workflow init with template should succeed");
    let report = ws.init_with(Some(&template), true).expect("workflow init should overwrite with force");

    assert_eq!(report.config_status, WorkflowFileStatus::Created);
    assert_eq!(report.state_status, WorkflowFileStatus::Skipped);
    assert_eq!(report.artifacts.len(), 1);
    assert!(ws.files.contains_key(&Workspace::path(".claw/workflow/discovery.md")));
}

#[test]
fn initialize_workflow_with_force_regenerates_invalid_state() {
    let mut ws = Workspace::default();
    ws.init().expect("workflow init should succeed");
    ws.files.insert(
        Workspace::path(DEFAULT_WORKFLOW_STATE_RELATIVE_PATH),
        Entry::Text("invalid json".to_string()),
    );

    let report = ws.init_with(None, true).expect("workflow init with force should recover invalid state");

    assert_eq!(report.state_status, WorkflowFileStatus::Created);
    assert!(ws.state().phases.len() > 0);
}

#[test]
fn initialize_workflow_without_force_keeps_invalid_state_error() {
    let mut ws = Workspace::default();
    ws.init().expect("workflow init should succeed");
    ws.files.insert(
        Workspace::path(DEFAULT_WORKFLOW_STATE_RELATIVE_PATH),
        Entry::Text("invalid json".to_string()),
    );
    let error = ws.init_with(None, false).expect_err("invalid state without force");
    assert!(matches!(error, WorkflowError::Json(_)));
}

#[test]
fn initialize_workflow_with_relative_template_path() {
    let mut ws = Workspace::default();
    ws.files.insert(
        Workspace::path(".claw/workflow-template.json"),
        Entry::Config(single_phase_template(
            "plan",
            "Plan",
            "Design",
            "Create a concrete implementation plan.",
            ".claw/workflow/plan.md",
        )),
    );

    let report = ws.init_with(Some(".claw/workflow-template.json"), false).expect("relative template path should work");

    assert_eq!(report.config_status, WorkflowFileStatus::Created);
    assert_eq!(report.config_path, format!("{ROOT}/.claw/workflow.json"));
}

#[test]
fn initialize_workflow_with_missing_template_is_io_error() {
    let mut ws = Workspace::default();
    let error = ws
        .init_with(Some(".claw/missing-workflow-template.json"), true)
        .expect_err("missing template should error");
    assert!(matches!(error, WorkflowError::Io(_)));
}

#[test]
fn initialize_workflow_with_invalid_template_is_invalid_config() {
    let mut ws = Workspace::default();
    let template = Workspace::path(".claw/workflow-template.json");
    ws.files.insert(template.clone(), Entry::Config(WorkflowConfig { schema_version: 1, phases: vec![] }));
    let error = ws.init_with(Some(&template), true).expect_err("invalid template should reject");
    assert!(matches!(error, WorkflowError::InvalidConfig(_)));
}

#[test]
fn initialize_workflow_with_template_refuses_existing_config_without_force() {
    let mut ws = Workspace::default();
    ws.init().expect("workflow init should succeed");
    let error = ws.init_with(Some(".claw/anything.json"), false).expect_err("existing config");
    assert_eq!(
        error,
        WorkflowError::InvalidConfig(format!(
            "workflow config already exists at {ROOT}/.claw/workflow.json. Use --force to replace it."
        ))
    );
}

#[test]
fn initialize_workflow_twice_skips_everything() {
    let mut ws = Workspace::default();
    ws.init().expect("first init");
    let report = ws.init().expect("second init");
    assert_eq!(report.config_status, WorkflowFileStatus::Skipped);
    assert_eq!(report.state_status, WorkflowFileStatus::Skipped);
    assert!(report.artifacts.iter().all(|a| a.status == WorkflowFileStatus::Skipped));
    assert_eq!(report.artifacts[2].path, format!("{ROOT}/.claw/workflow/implement.md"));
}

#[test]
fn initialize_workflow_writes_artifact_stub() {
    let mut ws = Workspace::default();
    ws.init().expect("init");
    match ws.files.get(&Workspace::path(".claw/workflow/plan.md")) {
        Some(Entry::Text(text)) => {
            assert!(text.starts_with("# Plan & interface changes\n\nRole: Design\n\nSummary: Describe"));
            assert!(text.ends_with("- [ ] Risks or open questions captured\n"));
        }
        _ => panic!("artifact should be written"),
    }
}

#[test]
fn approve_advances_to_the_next_gate() {
    let mut ws = Workspace::default();
    ws.init().expect("workflow init should succeed");

    let result = ws.approve(None, Some("scope captured")).expect("approve should succeed");
    assert_eq!(result.phase_id, "scope");
    assert_eq!(result.snapshot.current_phase_id.as_deref(), Some("plan"));
    assert_eq!(result.snapshot.approved_count, 1);
    assert_eq!(result.snapshot.phases[0].status, WorkflowDisplayStatus::Approved);
    assert_eq!(result.snapshot.phases[1].status, WorkflowDisplayStatus::Current);
    assert_eq!(result.note.as_deref(), Some("scope captured"));
    let state = ws.state();
    assert_eq!(state.ledger.len(), 1);
    assert_eq!(state.ledger[0].sequence, 1);
    assert_eq!(state.ledger[0].action, WorkflowLedgerAction::Approved);
    assert_eq!(state.phases[0].updated_at_unix_s, Some(NOW));
}

#[test]
fn returning_an_earlier_phase_reopens_it_and_resets_later_state() {
    let mut ws = Workspace::default();
    ws.init().expect("workflow init should succeed");
    ws.approve(Some("scope"), None).expect("scope should approve");
    ws.approve(Some("plan"), None).expect("plan should approve");

    let result = ws.return_gate(Some("scope"), "need tighter constraints").expect("return should succeed");
    assert_eq!(result.phase_id, "scope");
    assert_eq!(result.snapshot.current_phase_id.as_deref(), Some("scope"));
    assert_eq!(result.snapshot.phases[0].status, WorkflowDisplayStatus::Returned);
    assert_eq!(result.snapshot.phases[1].status, WorkflowDisplayStatus::Blocked);
    assert_eq!(result.snapshot.approved_count, 0);

    let state = ws.state();
    assert_eq!(state.phases[0].gate, WorkflowStoredGateStatus::Returned);
    assert_eq!(state.phases[1].gate, WorkflowStoredGateStatus::Pending);
    assert_eq!(state.phases[1].note, None);
    assert_eq!(state.ledger.len(), 3);
    assert_eq!(state.ledger[2].sequence, 3);
    assert_eq!(state.ledger[2].note.as_deref(), Some("need tighter constraints"));
}

#[test]
fn return_requires_reachable_phase() {
    let mut ws = Workspace::default();
    ws.init().expect("workflow init should succeed");

    let error = ws.return_gate(Some("plan"), "too early").expect_err("blocked phase should be rejected");
    assert!(error.message().contains("blocked by scope"));
}

#[test]
fn approve_refuses_a_phase_that_is_not_current() {
    let mut ws = Workspace::default();
    ws.init().expect("init");
    let error = ws.approve(Some("plan"), None).expect_err("not current");
    assert_eq!(
        error,
        WorkflowError::Gate("phase plan is not the current gate; current gate is scope".to_string())
    );
    assert_eq!(ws.state().ledger.len(), 0);
}

#[test]
fn approve_everything_then_complete() {
    let mut ws = Workspace::default();
    ws.init().expect("init");
    for _ in 0..5 {
        ws.approve(None, Some("   ")).expect("approve");
    }
    let snapshot = load_workflow_snapshot(ROOT, ws.config_read(), ws.state_read()).expect("snapshot");
    assert!(snapshot.is_complete);
    assert_eq!(snapshot.approved_count, 5);
    assert_eq!(snapshot.current_phase_id, None);
    assert_eq!(snapshot.ledger_entries, 5);
    assert_eq!(ws.state().ledger[4].note, None);
    let error = ws.approve(None, None).expect_err("nothing left");
    assert_eq!(error, WorkflowError::Gate("workflow is already fully approved".to_string()));
    let error = ws.return_gate(None, "again").expect_err("needs a phase");
    assert_eq!(
        error,
        WorkflowError::Gate("workflow is already fully approved; specify a phase id to reopen it".to_string())
    );
    let result = ws.return_gate(Some("verify"), "  redo  ").expect("reopen last");
    assert_eq!(result.note.as_deref(), Some("redo"));
    assert_eq!(result.snapshot.approved_count, 4);
}

#[test]
fn return_rejects_blank_reason_and_unknown_phase() {
    let mut ws = Workspace::default();
    ws.init().expect("init");
    let error = ws.return_gate(Some("scope"), " \t ").expect_err("blank reason");
    assert_eq!(error, WorkflowError::Gate("return requires a non-empty reason".to_string()));
    let error = ws.return_gate(Some("ship"), "why").expect_err("unknown phase");
    assert_eq!(error, WorkflowError::Gate("unknown workflow phase: ship".to_string()));
}

#[test]
fn clock_failure_is_reported_before_any_change() {
    let mut ws = Workspace::default();
    ws.init().expect("init");
    let mut store = ws.store().expect("store");
    let error = approve_workflow_gate(&mut store, None, None, Err(WorkflowError::Gate("clock".to_string())))
        .expect_err("clock error");
    assert_eq!(error, WorkflowError::Gate("clock".to_string()));
    assert_eq!(store.state.ledger.len(), 0);
}

#[test]
fn status_without_initialized_workflow_fails() {
    let ws = Workspace::default();
    let error = load_workflow_snapshot(ROOT, ws.config_read(), ws.state_read()).expect_err("not initialized");
    let message = error.message();
    assert!(message.contains("workflow is not initialized"));
    assert!(message.contains(".claw/workflow.json"));
}

#[test]
fn gate_return_requires_reason() {
    let mut ws = Workspace::default();
    ws.init().expect("workflow init should run");
    let error = ws.return_gate(Some("scope"), "").expect_err("gate return should fail if reason is empty");
    assert!(error.message().contains("return requires a non-empty reason"));
}

#[test]
fn loading_rejects_state_for_another_config() {
    let mut ws = Workspace::default();
    ws.init().expect("init");
    let mut state = ws.state();
    state.phases[1].phase_id = "design".to_string();
    ws.files.insert(Workspace::path(DEFAULT_WORKFLOW_STATE_RELATIVE_PATH), Entry::State(state.clone()));
    assert_eq!(
        ws.store().expect_err("mismatch"),
        WorkflowError::InvalidState("workflow state phase 2 expected plan but found design".to_string())
    );
    state.phases.pop();
    ws.files.insert(Workspace::path(DEFAULT_WORKFLOW_STATE_RELATIVE_PATH), Entry::State(state.clone()));
    assert_eq!(
        ws.store().expect_err("length"),
        WorkflowError::InvalidState("workflow state has 4 phases but config has 5".to_string())
    );
    state.schema_version = 7;
    ws.files.insert(Workspace::path(DEFAULT_WORKFLOW_STATE_RELATIVE_PATH), Entry::State(state));
    assert_eq!(
        ws.store().expect_err("schema"),
        WorkflowError::InvalidState("unsupported workflow state schema_version 7".to_string())
    );
}

#[test]
fn missing_state_loads_as_pending() {
    let mut ws = Workspace::default();
    ws.init().expect("init");
    ws.files.remove(&Workspace::path(DEFAULT_WORKFLOW_STATE_RELATIVE_PATH));
    let store = ws.store().expect("store");
    assert!(store.state.phases.iter().all(|p| p.gate == WorkflowStoredGateStatus::Pending));
    assert!(store.state.ledger.is_empty());
}

#[test]
fn display_status_follows_the_current_gate() {
    let (approved, returned, pending) = (
        WorkflowStoredGateStatus::Approved,
        WorkflowStoredGateStatus::Returned,
        WorkflowStoredGateStatus::Pending,
    );
    assert_eq!(phase_display_status(0, Some(0), approved), WorkflowDisplayStatus::Approved);
    assert_eq!(phase_display_status(1, Some(1), returned), WorkflowDisplayStatus::Returned);
    assert_eq!(phase_display_status(1, Some(1), pending), WorkflowDisplayStatus::Current);
    assert_eq!(phase_display_status(2, Some(1), pending), WorkflowDisplayStatus::Blocked);
    assert_eq!(phase_display_status(2, None, returned), WorkflowDisplayStatus::Blocked);
}

#[test]
fn runs_init_with_relative_config_template_and_force() {
    let mut ws = Workspace::default();
    ws.files.insert(
        Workspace::path(".claw/workflow-template.json"),
        Entry::Config(single_phase_template(
            "plan",
            "Plan",
            "Design",
            "Plan changes",
            ".claw/workflow/plan.md",
        )),
    );
    let report = ws
        .init_with(Some(".claw/workflow-template.json"), true)
        .expect("workflow init should run");
    let text = render_init_report(ROOT, &report);
    assert!(text.contains("Workflow init"));
    assert!(text.contains("workflow.json"));
    assert!(text.contains(".claw/workflow/plan.md"));
    assert_eq!(
        text,
        "Workflow init\n  Config           .claw/workflow.json (created)\n  State            .claw/workflow-state.json (created)\n  Artifacts        1\n  .claw/workflow/plan.md created\n  Next step        claw workflow status"
    );
}

#[test]
fn reinitializing_an_initialized_workspace_changes_nothing() {
    let mut ws = Workspace::default();
    let first = ws.init_with(Some("/templates/none.json"), true);
    assert!(first.is_err());
    let first = ws.init().expect("first init");
    let before: Vec<String> = ws.files.keys().cloned().collect();
    let second = ws.init().expect("second init");
    let after: Vec<String> = ws.files.keys().cloned().collect();
    assert_eq!(before, after);
    assert_eq!(second.config_status, WorkflowFileStatus::Skipped);
    assert_eq!(second.state_status, WorkflowFileStatus::Skipped);
    assert_eq!(second.config_path, first.config_path);
    assert_eq!(second.state_path, first.state_path);
    let first_paths: Vec<&String> = first.artifacts.iter().map(|a| &a.path).collect();
    let second_paths: Vec<&String> = second.artifacts.iter().map(|a| &a.path).collect();
    assert_eq!(first_paths, second_paths);
    assert!(second.artifacts.iter().all(|a| a.status == WorkflowFileStatus::Skipped));
}
