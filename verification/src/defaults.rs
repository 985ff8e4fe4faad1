//! The built-in workflow and the state a workflow starts from.
use vstd::prelude::*;
use crate::model::{
    ConfigView, PhaseDefinitionView, PhaseStateView, StateView, WorkflowConfig,
    WorkflowPhaseDefinition, WorkflowPhaseState, WorkflowState, WorkflowStoredGateStatus,
    WORKFLOW_SCHEMA_VERSION,
};
use crate::text::owned;

verus! {

pub open spec fn definition_view(
    id: Seq<char>,
    title: Seq<char>,
    role: Seq<char>,
    summary: Seq<char>,
    artifact_path: Seq<char>,
) -> PhaseDefinitionView {
    PhaseDefinitionView { id, title, role, summary, artifact_path }
}

/// The five phases of the built-in workflow: scope, plan, implement, review
/// and verify.
pub open spec fn spec_claw_default() -> ConfigView {
    ConfigView {
        schema_version: WORKFLOW_SCHEMA_VERSION,
        phases: seq![
            definition_view(
                "scope"@,
                "Scope & constraints"@,
                "Discovery"@,
                "Clarify the task, constraints, assumptions, and success criteria before coding."@,
                ".claw/workflow/scope.md"@,
            ),
            definition_view(
                "plan"@,
                "Plan & interface changes"@,
                "Design"@,
                "Describe the implementation plan, touched files, and verification strategy."@,
                ".claw/workflow/plan.md"@,
            ),
            definition_view(
                "implement"@,
                "Implementation log"@,
                "Build"@,
                "Capture the shipped change set, key decisions, and follow-up items."@,
                ".claw/workflow/implement.md"@,
            ),
            definition_view(
                "review"@,
                "Review findings"@,
                "Review"@,
                "Record behavioral risks, review findings, and fixes before sign-off."@,
                ".claw/workflow/review.md"@,
            ),
            definition_view(
                "verify"@,
                "Verification & handoff"@,
                "QA"@,
                "Track tests run, observed results, and handoff notes for the next operator."@,
                ".claw/workflow/verify.md"@,
            ),
        ],
    }
}

fn definition(id: &str, title: &str, role: &str, summary: &str, artifact_path: &str) -> (r:
    WorkflowPhaseDefinition)
    ensures
        r@ == definition_view(id@, title@, role@, summary@, artifact_path@),
{
    WorkflowPhaseDefinition {
        id: owned(id),
        title: owned(title),
        role: owned(role),
        summary: owned(summary),
        artifact_path: owned(artifact_path),
    }
}

impl WorkflowConfig {
    /// The built-in workflow.
    pub fn claw_default() -> (r: Self)
        ensures
            r@ == spec_claw_default(),
    {
        let mut phases: Vec<WorkflowPhaseDefinition> = Vec::new();
        phases.push(
            definition(
                "scope",
                "Scope & constraints",
                "Discovery",
                "Clarify the task, constraints, assumptions, and success criteria before coding.",
                ".claw/workflow/scope.md",
            ),
        );
        phases.push(
            definition(
                "plan",
                "Plan & interface changes",
                "Design",
                "Describe the implementation plan, touched files, and verification strategy.",
                ".claw/workflow/plan.md",
            ),
        );
        phases.push(
            definition(
                "implement",
                "Implementation log",
                "Build",
                "Capture the shipped change set, key decisions, and follow-up items.",
                ".claw/workflow/implement.md",
            ),
        );
        phases.push(
            definition(
                "review",
                "Review findings",
                "Review",
                "Record behavioral risks, review findings, and fixes before sign-off.",
                ".claw/workflow/review.md",
            ),
        );
        phases.push(
            definition(
                "verify",
                "Verification & handoff",
                "QA",
                "Track tests run, observed results, and handoff notes for the next operator.",
                ".claw/workflow/verify.md",
            ),
        );
        let r = WorkflowConfig { schema_version: WORKFLOW_SCHEMA_VERSION, phases };
        assert(r@.phases =~= spec_claw_default().phases);
        r
    }
}

impl Default for WorkflowConfig {
    /// The built-in workflow.
    fn default() -> (r: Self)
        ensures
            r@ == spec_claw_default(),
    {
        WorkflowConfig::claw_default()
    }
}

/// A phase that has not been decided on.
pub open spec fn pending_phase(id: Seq<char>) -> PhaseStateView {
    PhaseStateView {
        phase_id: id,
        gate: WorkflowStoredGateStatus::Pending,
        note: None,
        updated_at_unix_s: None,
    }
}

/// The state of a workflow on which nothing has been decided: every phase
/// of `c` pending, in order, and an empty ledger.
pub open spec fn spec_pending_for(c: ConfigView) -> StateView {
    StateView {
        schema_version: WORKFLOW_SCHEMA_VERSION,
        phases: Seq::new(c.phases.len(), |i: int| pending_phase(c.phases[i].id)),
        ledger: Seq::empty(),
    }
}

impl WorkflowPhaseState {
    /// A pending phase with id `phase_id`.
    pub fn pending(phase_id: &str) -> (r: Self)
        ensures
            r@ == pending_phase(phase_id@),
    {
        WorkflowPhaseState {
            phase_id: owned(phase_id),
            gate: WorkflowStoredGateStatus::Pending,
            note: None,
            updated_at_unix_s: None,
        }
    }

    /// Undoes every decision on this phase, keeping its id.
    pub fn reset_to_pending(&mut self)
        ensures
            final(self)@ == pending_phase(old(self)@.phase_id),
    {
        self.gate = WorkflowStoredGateStatus::Pending;
        self.note = None;
        self.updated_at_unix_s = None;
    }
}

impl WorkflowState {
    /// The state in which nothing of `config` has been decided.
    pub fn pending_for(config: &WorkflowConfig) -> (r: Self)
        ensures
            r@ == spec_pending_for(config@),
    {
        let mut phases: Vec<WorkflowPhaseState> = Vec::new();
        let mut i: usize = 0;
        while i < config.phases.len()
            invariant
                i <= config.phases@.len(),
                phases@.len() == i,
                forall|k: int| 0 <= k < i ==> (#[trigger] phases@[k])@ == pending_phase(config.phases@[k].id@),
            decreases config.phases.len() - i,
        {
            phases.push(WorkflowPhaseState::pending(config.phases[i].id.as_str()));
            i = i + 1;
        }
        let r = WorkflowState { schema_version: WORKFLOW_SCHEMA_VERSION, phases, ledger: Vec::new() };
        assert(r@.phases =~= spec_pending_for(config@).phases);
        assert(r@.ledger =~= Seq::empty());
        r
    }
}

} // verus!
