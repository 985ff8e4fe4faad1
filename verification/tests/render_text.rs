use claw_workflow::gate::{approve_workflow_gate, WorkflowStore};
use claw_workflow::init::render_artifact_stub;
use claw_workflow::model::{
    WorkflowArtifactStatus, WorkflowConfig, WorkflowDisplayStatus, WorkflowError,
    WorkflowFileStatus, WorkflowInitReport, WorkflowLedgerAction,
};
use claw_workflow::paths::{join_path, WorkflowPaths};
use claw_workflow::render::{render_config, render_init_report, render_mutation_result, render_snapshot};
use claw_workflow::text::{decimal_string, is_blank, join, trim};

#[test]
fn runs_gate_approve_and_reflects_snapshot() {
    let config = WorkflowConfig::claw_default();
    let mut store = WorkflowStore::load("/w", Some(Ok(config)), None).expect("store");
    let result = approve_workflow_gate(&mut store, None, Some("scope captured"), Ok(42)).expect("approve");
    let text = render_mutation_result(&result);
    assert!(text.contains("Workflow gate updated"));
    assert!(text.contains("Phase            scope"));
    assert!(text.contains("Decision         approved"));
    assert!(text.contains("Summary          1 approved / 5 total"));
    assert_eq!(
        text,
        "Workflow gate updated\n  Phase            scope\n  Decision         approved\n  Artifact         .claw/workflow/scope.md\n  Note             scope captured\n  Current gate     plan\n  Summary          1 approved / 5 total · 1 ledger entries\n  Next artifact    .claw/workflow/plan.md"
    );
}

#[test]
fn render_snapshot_lists_phases_with_notes() {
    let mut store = WorkflowStore::load("/w", Some(Ok(WorkflowConfig::claw_default())), None).expect("store");
    approve_workflow_gate(&mut store, None, Some("ok"), Ok(7)).expect("approve");
    let text = render_snapshot("/w", &store.snapshot());
    let lines: Vec<&str> = text.lines().collect();
    assert_eq!(lines[0], "Workflow");
    assert_eq!(lines[1], "  Config           .claw/workflow.json");
    assert_eq!(lines[3], "  Current gate     plan");
    assert_eq!(lines[4], "  Summary          1 approved / 5 total · 1 ledger entries");
    assert_eq!(lines[5], "");
    assert_eq!(lines[6], "Phases");
    assert_eq!(lines[7], "  scope        approved  Scope & constraints      .claw/workflow/scope.md");
    assert_eq!(lines[8], "  Note             ok");
    assert_eq!(lines[9], "  plan         current   Plan & interface changes .claw/workflow/plan.md");
    assert_eq!(lines.len(), 13);
}

#[test]
fn render_config_lists_each_phase_with_summary() {
    let text = render_config("/w", "/w/.claw/workflow.json", &WorkflowConfig::claw_default());
    let lines: Vec<&str> = text.lines().collect();
    assert_eq!(lines[0], "Workflow config");
    assert_eq!(lines[1], "  Path             .claw/workflow.json");
    assert_eq!(lines[2], "  Version          1");
    assert_eq!(lines[3], "  Phases           5");
    assert_eq!(
        lines[6],
        "  scope        Scope & constraints        Discovery      .claw/workflow/scope.md"
    );
    assert_eq!(
        lines[7],
        "  Summary         Clarify the task, constraints, assumptions, and success criteria before coding."
    );
    assert_eq!(lines.len(), 16);
}

#[test]
fn init_report_shows_paths_outside_the_workspace_in_full() {
    let report = WorkflowInitReport {
        config_path: "/repo/.claw/workflow.json".to_string(),
        state_path: "/repo/.claw/workflow-state.json".to_string(),
        config_status: WorkflowFileStatus::Skipped,
        state_status: WorkflowFileStatus::Created,
        artifacts: vec![WorkflowArtifactStatus {
            path: "/repository/a.md".to_string(),
            status: WorkflowFileStatus::Skipped,
        }],
    };
    let text = render_init_report("/repo/", &report);
    assert!(text.contains("  Config           .claw/workflow.json (skipped)\n"));
    assert!(text.contains("  /repository/a.md skipped\n"));
}

#[test]
fn error_messages() {
    assert_eq!(
        WorkflowError::NotConfigured("/w/.claw/workflow.json".to_string()).message(),
        "workflow is not initialized (expected /w/.claw/workflow.json). Run `claw workflow init` first."
    );
    assert_eq!(WorkflowError::Io("disk full".to_string()).message(), "disk full");
    assert_eq!(WorkflowError::Json("bad".to_string()).message(), "bad");
    assert_eq!(WorkflowError::InvalidConfig("c".to_string()).message(), "c");
    assert_eq!(WorkflowError::InvalidState("s".to_string()).message(), "s");
    assert_eq!(WorkflowError::Gate("g".to_string()).message(), "g");
}

#[test]
fn names_of_statuses() {
    assert_eq!(WorkflowLedgerAction::Approved.as_str(), "approved");
    assert_eq!(WorkflowLedgerAction::Returned.as_str(), "returned");
    assert_eq!(WorkflowDisplayStatus::Approved.as_str(), "approved");
    assert_eq!(WorkflowDisplayStatus::Current.as_str(), "current");
    assert_eq!(WorkflowDisplayStatus::Returned.as_str(), "returned");
    assert_eq!(WorkflowDisplayStatus::Blocked.as_str(), "blocked");
    assert_eq!(WorkflowFileStatus::Created.as_str(), "created");
    assert_eq!(WorkflowFileStatus::Skipped.as_str(), "skipped");
}

#[test]
fn workspace_paths() {
    let paths = WorkflowPaths::for_workspace("/repo");
    assert_eq!(paths.config_path, "/repo/.claw/workflow.json");
    assert_eq!(paths.state_path, "/repo/.claw/workflow-state.json");
    assert_eq!(WorkflowPaths::for_workspace("/repo/").config_path, "/repo/.claw/workflow.json");
    assert_eq!(WorkflowPaths::for_workspace("").config_path, ".claw/workflow.json");
    assert_eq!(join_path("/repo", "/etc/x.json"), "/etc/x.json");
}

#[test]
fn text_helpers() {
    assert_eq!(trim("  \u{a0}hello world\n"), "hello world");
    assert_eq!(trim(" \t "), "");
    assert!(is_blank("\u{2003}\u{3000}"));
    assert!(!is_blank(" x "));
    assert_eq!(decimal_string(0), "0");
    assert_eq!(decimal_string(1234567890123), "1234567890123");
    assert_eq!(decimal_string(u64::MAX), "18446744073709551615");
    assert_eq!(join(&vec!["a".to_string(), "".to_string(), "c".to_string()], "\n"), "a\n\nc");
    assert_eq!(join(&vec![], ","), "");
}

#[test]
fn artifact_stub_text() {
    let config = WorkflowConfig::claw_default();
    let stub = render_artifact_stub(&config.phases[4]);
    assert_eq!(
        stub,
        "# Verification & handoff\n\nRole: QA\n\nSummary: Track tests run, observed results, and handoff notes for the next operator.\n\n## Notes\n\n- Context:\n- Decisions:\n- Risks / follow-up:\n\n## Gate checklist\n\n- [ ] Artifact updated\n- [ ] Decisions recorded\n- [ ] Risks or open questions captured\n"
    );
}
