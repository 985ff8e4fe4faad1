//! The workflow's data: phase definitions, stored gate state, the ledger,
//! the snapshots shown to users, and the error type.
use vstd::prelude::*;

verus! {

/// The only schema version this library reads and writes.
pub const WORKFLOW_SCHEMA_VERSION: u32 = 1;

/// Where a workflow configuration lives, relative to the workspace.
pub const DEFAULT_WORKFLOW_CONFIG_RELATIVE_PATH: &'static str = ".claw/workflow.json";

/// Where the workflow's gate state lives, relative to the workspace.
pub const DEFAULT_WORKFLOW_STATE_RELATIVE_PATH: &'static str = ".claw/workflow-state.json";

/// The view of an optional string.
pub open spec fn opt_str(o: Option<String>) -> Option<Seq<char>> {
    match o {
        Some(s) => Some(s@),
        None => None,
    }
}

/// One phase of a workflow as configured.
#[derive(Debug, Clone, PartialEq, Eq)]
pub struct WorkflowPhaseDefinition {
    pub id: String,
    pub title: String,
    pub role: String,
    pub summary: String,
    pub artifact_path: String,
}

/// The value of a `WorkflowPhaseDefinition`, with text as character sequences.
pub struct PhaseDefinitionView {
    pub id: Seq<char>,
    pub title: Seq<char>,
    pub role: Seq<char>,
    pub summary: Seq<char>,
    pub artifact_path: Seq<char>,
}

impl View for WorkflowPhaseDefinition {
    type V = PhaseDefinitionView;

    open spec fn view(&self) -> PhaseDefinitionView {
        PhaseDefinitionView {
            id: self.id@,
            title: self.title@,
            role: self.role@,
            summary: self.summary@,
            artifact_path: self.artifact_path@,
        }
    }
}

/// A workflow configuration: an ordered list of gated phases.
#[derive(Debug, Clone, PartialEq, Eq)]
pub struct WorkflowConfig {
    pub schema_version: u32,
    pub phases: Vec<WorkflowPhaseDefinition>,
}

/// The value of a `WorkflowConfig`, with text as character sequences.
pub struct ConfigView {
    pub schema_version: u32,
    pub phases: Seq<PhaseDefinitionView>,
}

impl View for WorkflowConfig {
    type V = ConfigView;

    open spec fn view(&self) -> ConfigView {
        ConfigView {
            schema_version: self.schema_version,
            phases: self.phases@.map_values(|p: WorkflowPhaseDefinition| p@),
        }
    }
}

/// The stored decision on one phase's gate.
#[derive(Debug, Clone, Copy, PartialEq, Eq, Structural)]
pub enum WorkflowStoredGateStatus {
    Pending,
    Approved,
    Returned,
}

/// The stored state of one phase.
#[derive(Debug, Clone, PartialEq, Eq)]
pub struct WorkflowPhaseState {
    pub phase_id: String,
    pub gate: WorkflowStoredGateStatus,
    pub note: Option<String>,
    pub updated_at_unix_s: Option<u64>,
}

/// The value of a `WorkflowPhaseState`, with text as character sequences.
pub struct PhaseStateView {
    pub phase_id: Seq<char>,
    pub gate: WorkflowStoredGateStatus,
    pub note: Option<Seq<char>>,
    pub updated_at_unix_s: Option<u64>,
}

impl View for WorkflowPhaseState {
    type V = PhaseStateView;

    open spec fn view(&self) -> PhaseStateView {
        PhaseStateView {
            phase_id: self.phase_id@,
            gate: self.gate,
            note: opt_str(self.note),
            updated_at_unix_s: self.updated_at_unix_s,
        }
    }
}

/// A decision recorded in the ledger.
#[derive(Debug, Clone, Copy, PartialEq, Eq, Structural)]
pub enum WorkflowLedgerAction {
    Approved,
    Returned,
}

/// One entry of the append-only decision ledger.
#[derive(Debug, Clone, PartialEq, Eq)]
pub struct WorkflowLedgerEntry {
    pub sequence: u64,
    pub phase_id: String,
    pub action: WorkflowLedgerAction,
    pub note: Option<String>,
    pub created_at_unix_s: u64,
}

/// The value of a `WorkflowLedgerEntry`, with text as character sequences.
pub struct LedgerEntryView {
    pub sequence: u64,
    pub phase_id: Seq<char>,
    pub action: WorkflowLedgerAction,
    pub note: Option<Seq<char>>,
    pub created_at_unix_s: u64,
}

impl View for WorkflowLedgerEntry {
    type V = LedgerEntryView;

    open spec fn view(&self) -> LedgerEntryView {
        LedgerEntryView {
            sequence: self.sequence,
            phase_id: self.phase_id@,
            action: self.action,
            note: opt_str(self.note),
            created_at_unix_s: self.created_at_unix_s,
        }
    }
}

/// The stored gate state of a whole workflow, with its ledger.
#[derive(Debug, Clone, PartialEq, Eq)]
pub struct WorkflowState {
    pub schema_version: u32,
    pub phases: Vec<WorkflowPhaseState>,
    pub ledger: Vec<WorkflowLedgerEntry>,
}

/// The value of a `WorkflowState`, with text as character sequences.
pub struct StateView {
    pub schema_version: u32,
    pub phases: Seq<PhaseStateView>,
    pub ledger: Seq<LedgerEntryView>,
}

impl View for WorkflowState {
    type V = StateView;

    open spec fn view(&self) -> StateView {
        StateView {
            schema_version: self.schema_version,
            phases: self.phases@.map_values(|p: WorkflowPhaseState| p@),
            ledger: self.ledger@.map_values(|e: WorkflowLedgerEntry| e@),
        }
    }
}

/// How a phase is shown to users.
#[derive(Debug, Clone, Copy, PartialEq, Eq, Structural)]
pub enum WorkflowDisplayStatus {
    Approved,
    Current,
    Returned,
    Blocked,
}

/// One phase as shown to users: its definition and its display status.
#[derive(Debug, Clone, PartialEq, Eq)]
pub struct WorkflowPhaseSnapshot {
    pub id: String,
    pub title: String,
    pub role: String,
    pub summary: String,
    pub artifact_path: String,
    pub status: WorkflowDisplayStatus,
    pub note: Option<String>,
    pub updated_at_unix_s: Option<u64>,
}

/// The value of a `WorkflowPhaseSnapshot`, with text as character sequences.
pub struct PhaseSnapshotView {
    pub id: Seq<char>,
    pub title: Seq<char>,
    pub role: Seq<char>,
    pub summary: Seq<char>,
    pub artifact_path: Seq<char>,
    pub status: WorkflowDisplayStatus,
    pub note: Option<Seq<char>>,
    pub updated_at_unix_s: Option<u64>,
}

impl View for WorkflowPhaseSnapshot {
    type V = PhaseSnapshotView;

    open spec fn view(&self) -> PhaseSnapshotView {
        PhaseSnapshotView {
            id: self.id@,
            title: self.title@,
            role: self.role@,
            summary: self.summary@,
            artifact_path: self.artifact_path@,
            status: self.status,
            note: opt_str(self.note),
            updated_at_unix_s: self.updated_at_unix_s,
        }
    }
}

/// A workflow as shown to users.
#[derive(Debug, Clone, PartialEq, Eq)]
pub struct WorkflowSnapshot {
    pub schema_version: u32,
    pub config_path: String,
    pub state_path: String,
    pub total_phases: usize,
    pub approved_count: usize,
    pub ledger_entries: usize,
    pub is_complete: bool,
    pub current_phase_id: Option<String>,
    pub phases: Vec<WorkflowPhaseSnapshot>,
}

/// The value of a `WorkflowSnapshot`, with text as character sequences.
pub struct SnapshotView {
    pub schema_version: u32,
    pub config_path: Seq<char>,
    pub state_path: Seq<char>,
    pub total_phases: nat,
    pub approved_count: nat,
    pub ledger_entries: nat,
    pub is_complete: bool,
    pub current_phase_id: Option<Seq<char>>,
    pub phases: Seq<PhaseSnapshotView>,
}

impl View for WorkflowSnapshot {
    type V = SnapshotView;

    open spec fn view(&self) -> SnapshotView {
        SnapshotView {
            schema_version: self.schema_version,
            config_path: self.config_path@,
            state_path: self.state_path@,
            total_phases: self.total_phases as nat,
            approved_count: self.approved_count as nat,
            ledger_entries: self.ledger_entries as nat,
            is_complete: self.is_complete,
            current_phase_id: opt_str(self.current_phase_id),
            phases: self.phases@.map_values(|p: WorkflowPhaseSnapshot| p@),
        }
    }
}

/// What a gate decision did, with the workflow as it stands afterwards.
#[derive(Debug, Clone, PartialEq, Eq)]
pub struct WorkflowMutationResult {
    pub phase_id: String,
    pub action: WorkflowLedgerAction,
    pub note: Option<String>,
    pub snapshot: WorkflowSnapshot,
}

/// The value of a `WorkflowMutationResult`, with text as character sequences.
pub struct MutationResultView {
    pub phase_id: Seq<char>,
    pub action: WorkflowLedgerAction,
    pub note: Option<Seq<char>>,
    pub snapshot: SnapshotView,
}

impl View for WorkflowMutationResult {
    type V = MutationResultView;

    open spec fn view(&self) -> MutationResultView {
        MutationResultView {
            phase_id: self.phase_id@,
            action: self.action,
            note: opt_str(self.note),
            snapshot: self.snapshot@,
        }
    }
}

/// Whether initialization created a file or left an existing one alone.
#[derive(Debug, Clone, Copy, PartialEq, Eq, Structural)]
pub enum WorkflowFileStatus {
    Created,
    Skipped,
}

/// What initialization did to one phase's artifact file.
#[derive(Debug, Clone, PartialEq, Eq)]
pub struct WorkflowArtifactStatus {
    pub path: String,
    pub status: WorkflowFileStatus,
}

/// The value of a `WorkflowArtifactStatus`, with text as character sequences.
pub struct ArtifactStatusView {
    pub path: Seq<char>,
    pub status: WorkflowFileStatus,
}

impl View for WorkflowArtifactStatus {
    type V = ArtifactStatusView;

    open spec fn view(&self) -> ArtifactStatusView {
        ArtifactStatusView { path: self.path@, status: self.status }
    }
}

/// What initialization did.
#[derive(Debug, Clone, PartialEq, Eq)]
pub struct WorkflowInitReport {
    pub config_path: String,
    pub state_path: String,
    pub config_status: WorkflowFileStatus,
    pub state_status: WorkflowFileStatus,
    pub artifacts: Vec<WorkflowArtifactStatus>,
}

/// The value of a `WorkflowInitReport`, with text as character sequences.
pub struct InitReportView {
    pub config_path: Seq<char>,
    pub state_path: Seq<char>,
    pub config_status: WorkflowFileStatus,
    pub state_status: WorkflowFileStatus,
    pub artifacts: Seq<ArtifactStatusView>,
}

impl View for WorkflowInitReport {
    type V = InitReportView;

    open spec fn view(&self) -> InitReportView {
        InitReportView {
            config_path: self.config_path@,
            state_path: self.state_path@,
            config_status: self.config_status,
            state_status: self.state_status,
            artifacts: self.artifacts@.map_values(|a: WorkflowArtifactStatus| a@),
        }
    }
}

/// Everything that can go wrong, each with its message.
#[derive(Debug, Clone, PartialEq, Eq)]
pub enum WorkflowError {
    /// The workflow configuration is missing; holds its expected path.
    NotConfigured(String),
    /// Reading or writing a file failed.
    Io(String),
    /// A file did not hold the JSON that was expected.
    Json(String),
    /// The configuration breaks a rule; holds what is wrong.
    InvalidConfig(String),
    /// The stored state does not fit the configuration; holds how.
    InvalidState(String),
    /// A gate decision was refused.
    Gate(String),
}

/// The value of a `WorkflowError`, with text as character sequences.
pub enum WorkflowErrorView {
    NotConfigured(Seq<char>),
    Io(Seq<char>),
    Json(Seq<char>),
    InvalidConfig(Seq<char>),
    InvalidState(Seq<char>),
    Gate(Seq<char>),
}

impl View for WorkflowError {
    type V = WorkflowErrorView;

    open spec fn view(&self) -> WorkflowErrorView {
        match self {
            WorkflowError::NotConfigured(s) => WorkflowErrorView::NotConfigured(s@),
            WorkflowError::Io(s) => WorkflowErrorView::Io(s@),
            WorkflowError::Json(s) => WorkflowErrorView::Json(s@),
            WorkflowError::InvalidConfig(s) => WorkflowErrorView::InvalidConfig(s@),
            WorkflowError::InvalidState(s) => WorkflowErrorView::InvalidState(s@),
            WorkflowError::Gate(s) => WorkflowErrorView::Gate(s@),
        }
    }
}

/// How `initialize_workflow_with_options` is asked to proceed.
#[derive(Debug, Clone, PartialEq, Eq)]
pub struct WorkflowInitOptions {
    /// A configuration to install in place of the default one.
    pub template_path: Option<String>,
    /// Replace an existing configuration, and a state that does not load.
    pub force: bool,
}

impl Default for WorkflowInitOptions {
    fn default() -> (r: Self)
        ensures
            r.template_path is None,
            !r.force,
    {
        WorkflowInitOptions { template_path: None, force: false }
    }
}

impl WorkflowLedgerAction {
    pub open spec fn spec_name(self) -> Seq<char> {
        match self {
            WorkflowLedgerAction::Approved => "approved"@,
            WorkflowLedgerAction::Returned => "returned"@,
        }
    }

    /// The action's name as stored and shown.
    pub fn as_str(self) -> (s: &'static str)
        ensures
            s@ == self.spec_name(),
    {
        match self {
            WorkflowLedgerAction::Approved => "approved",
            WorkflowLedgerAction::Returned => "returned",
        }
    }
}

impl WorkflowDisplayStatus {
    pub open spec fn spec_name(self) -> Seq<char> {
        match self {
            WorkflowDisplayStatus::Approved => "approved"@,
            WorkflowDisplayStatus::Current => "current"@,
            WorkflowDisplayStatus::Returned => "returned"@,
            WorkflowDisplayStatus::Blocked => "blocked"@,
        }
    }

    /// The status's name as shown.
    pub fn as_str(self) -> (s: &'static str)
        ensures
            s@ == self.spec_name(),
    {
        match self {
            WorkflowDisplayStatus::Approved => "approved",
            WorkflowDisplayStatus::Current => "current",
            WorkflowDisplayStatus::Returned => "returned",
            WorkflowDisplayStatus::Blocked => "blocked",
        }
    }
}

impl WorkflowFileStatus {
    pub open spec fn spec_name(self) -> Seq<char> {
        match self {
            WorkflowFileStatus::Created => "created"@,
            WorkflowFileStatus::Skipped => "skipped"@,
        }
    }

    /// The status's name as shown.
    pub fn as_str(self) -> (s: &'static str)
        ensures
            s@ == self.spec_name(),
    {
        match self {
            WorkflowFileStatus::Created => "created",
            WorkflowFileStatus::Skipped => "skipped",
        }
    }
}

} // verus!
