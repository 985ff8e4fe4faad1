//! Initializing a workspace: deciding, step by step, which files to read,
//! check and write. The caller performs each action on the workspace and
//! hands back what happened.
use vstd::prelude::*;
use vstd::string::*;
use crate::defaults::{spec_claw_default, spec_pending_for};
use crate::model::{
    ArtifactStatusView, ConfigView, InitReportView, PhaseDefinitionView, StateView,
    WorkflowArtifactStatus, WorkflowConfig, WorkflowError, WorkflowErrorView, WorkflowFileStatus,
    WorkflowInitOptions, WorkflowInitReport, WorkflowPhaseDefinition, WorkflowState,
    DEFAULT_WORKFLOW_CONFIG_RELATIVE_PATH, DEFAULT_WORKFLOW_STATE_RELATIVE_PATH,
};
use crate::paths::{join_path, path_joined, WorkflowPaths};
use crate::text::owned;
use crate::validate::{config_valid, lemma_config_problem_iff_valid, spec_validate_config, spec_validate_state};

verus! {

/// The text a new artifact file starts with.
pub open spec fn spec_artifact_stub(p: PhaseDefinitionView) -> Seq<char> {
    "# "@ + p.title + "\n\nRole: "@ + p.role + "\n\nSummary: "@ + p.summary
        + "\n\n## Notes\n\n- Context:\n- Decisions:\n- Risks / follow-up:\n\n## Gate checklist\n\n- [ ] Artifact updated\n- [ ] Decisions recorded\n- [ ] Risks or open questions captured\n"@
}

/// The text a new artifact file for `phase` starts with.
pub fn render_artifact_stub(phase: &WorkflowPhaseDefinition) -> (r: String)
    ensures
        r@ == spec_artifact_stub(phase@),
{
    let mut out = owned("# ");
    out.append(phase.title.as_str());
    out.append("\n\nRole: ");
    out.append(phase.role.as_str());
    out.append("\n\nSummary: ");
    out.append(phase.summary.as_str());
    out.append(
        "\n\n## Notes\n\n- Context:\n- Decisions:\n- Risks / follow-up:\n\n## Gate checklist\n\n- [ ] Artifact updated\n- [ ] Decisions recorded\n- [ ] Risks or open questions captured\n",
    );
    out
}

/// What the workspace answered to the last action.
pub enum InitEvent {
    /// Whether the path asked about exists.
    Exists(bool),
    /// The configuration read from the path asked for.
    ConfigRead(Result<WorkflowConfig, WorkflowError>),
    /// The state read from the path asked for.
    StateRead(Result<WorkflowState, WorkflowError>),
    /// Whether the write asked for succeeded.
    Written(Result<(), WorkflowError>),
}

/// The value of an `InitEvent`, with text as character sequences.
pub enum InitEventView {
    Exists(bool),
    ConfigRead(Result<ConfigView, WorkflowErrorView>),
    StateRead(Result<StateView, WorkflowErrorView>),
    Written(Result<(), WorkflowErrorView>),
}

impl View for InitEvent {
    type V = InitEventView;

    open spec fn view(&self) -> InitEventView {
        match self {
            InitEvent::Exists(b) => InitEventView::Exists(*b),
            InitEvent::ConfigRead(Ok(c)) => InitEventView::ConfigRead(Ok(c@)),
            InitEvent::ConfigRead(Err(e)) => InitEventView::ConfigRead(Err(e@)),
            InitEvent::StateRead(Ok(s)) => InitEventView::StateRead(Ok(s@)),
            InitEvent::StateRead(Err(e)) => InitEventView::StateRead(Err(e@)),
            InitEvent::Written(Ok(())) => InitEventView::Written(Ok(())),
            InitEvent::Written(Err(e)) => InitEventView::Written(Err(e@)),
        }
    }
}

/// What the workspace is asked to do next.
pub enum InitAction {
    /// Tell whether this path exists.
    CheckExists(String),
    /// Read a workflow configuration (JSON) from this path.
    ReadConfig(String),
    /// Write this configuration (JSON) to this path.
    WriteConfig(String, WorkflowConfig),
    /// Read a workflow state (JSON) from this path.
    ReadState(String),
    /// Write this state (JSON) to this path.
    WriteState(String, WorkflowState),
    /// Create this file, and the directories above it, with this text.
    WriteArtifact(String, String),
    /// Initialization is over, with this outcome.
    Finish(Result<WorkflowInitReport, WorkflowError>),
}

/// The value of an `InitAction`, with text as character sequences.
pub enum InitActionView {
    CheckExists(Seq<char>),
    ReadConfig(Seq<char>),
    WriteConfig(Seq<char>, ConfigView),
    ReadState(Seq<char>),
    WriteState(Seq<char>, StateView),
    WriteArtifact(Seq<char>, Seq<char>),
    Finish(Result<InitReportView, WorkflowErrorView>),
}

impl View for InitAction {
    type V = InitActionView;

    open spec fn view(&self) -> InitActionView {
        match self {
            InitAction::CheckExists(p) => InitActionView::CheckExists(p@),
            InitAction::ReadConfig(p) => InitActionView::ReadConfig(p@),
            InitAction::WriteConfig(p, c) => InitActionView::WriteConfig(p@, c@),
            InitAction::ReadState(p) => InitActionView::ReadState(p@),
            InitAction::WriteState(p, s) => InitActionView::WriteState(p@, s@),
            InitAction::WriteArtifact(p, t) => InitActionView::WriteArtifact(p@, t@),
            InitAction::Finish(Ok(r)) => InitActionView::Finish(Ok(r@)),
            InitAction::Finish(Err(e)) => InitActionView::Finish(Err(e@)),
        }
    }
}

/// Which answer initialization waits for.
#[derive(Debug, Clone, Copy, PartialEq, Eq, Structural)]
pub enum InitStage {
    /// Whether the configuration file exists.
    CheckConfig,
    /// The template configuration.
    ReadTemplate,
    /// The existing configuration.
    ReadExistingConfig,
    /// The write of the configuration.
    WriteConfig,
    /// Whether the state file exists.
    CheckState,
    /// The existing state.
    ReadState,
    /// The write of the pending state.
    WriteState,
    /// Whether the next artifact exists.
    CheckArtifact,
    /// The write of the next artifact.
    WriteArtifact,
    /// Nothing: initialization is over.
    Done,
}

/// Initialization in progress.
pub struct InitSession {
    pub cwd: String,
    pub template_path: Option<String>,
    pub force: bool,
    pub paths: WorkflowPaths,
    pub stage: InitStage,
    pub config: WorkflowConfig,
    pub config_status: WorkflowFileStatus,
    pub state_status: WorkflowFileStatus,
    pub artifacts: Vec<WorkflowArtifactStatus>,
}

/// The value of an `InitSession`, with text as character sequences.
pub struct InitSessionView {
    pub cwd: Seq<char>,
    pub template_path: Option<Seq<char>>,
    pub force: bool,
    pub config_path: Seq<char>,
    pub state_path: Seq<char>,
    pub stage: InitStage,
    pub config: ConfigView,
    pub config_status: WorkflowFileStatus,
    pub state_status: WorkflowFileStatus,
    pub artifacts: Seq<ArtifactStatusView>,
}

impl View for InitSession {
    type V = InitSessionView;

    open spec fn view(&self) -> InitSessionView {
        InitSessionView {
            cwd: self.cwd@,
            template_path: crate::model::opt_str(self.template_path),
            force: self.force,
            config_path: self.paths.config_path@,
            state_path: self.paths.state_path@,
            stage: self.stage,
            config: self.config@,
            config_status: self.config_status,
            state_status: self.state_status,
            artifacts: self.artifacts@.map_values(|a: WorkflowArtifactStatus| a@),
        }
    }
}

/// Whether `ev` is the kind of answer that `stage` waits for.
pub open spec fn answers(stage: InitStage, ev: InitEventView) -> bool {
    match stage {
        InitStage::CheckConfig | InitStage::CheckState | InitStage::CheckArtifact => ev is Exists,
        InitStage::ReadTemplate | InitStage::ReadExistingConfig => ev is ConfigRead,
        InitStage::ReadState => ev is StateRead,
        InitStage::WriteConfig | InitStage::WriteState | InitStage::WriteArtifact => ev is Written,
        InitStage::Done => false,
    }
}

/// Where the artifact of `phase` lives in the workspace `cwd`.
pub open spec fn artifact_location(cwd: Seq<char>, phase: PhaseDefinitionView) -> Seq<char> {
    path_joined(cwd, phase.artifact_path)
}

/// The session that has ended, with the action that says how.
pub open spec fn finish(s: InitSessionView, outcome: Result<InitReportView, WorkflowErrorView>) -> (InitSessionView, InitActionView) {
    (InitSessionView { stage: InitStage::Done, ..s }, InitActionView::Finish(outcome))
}

/// The report of a finished initialization.
pub open spec fn report_of(s: InitSessionView) -> InitReportView {
    InitReportView {
        config_path: s.config_path,
        state_path: s.state_path,
        config_status: s.config_status,
        state_status: s.state_status,
        artifacts: s.artifacts,
    }
}

/// The next artifact to ensure, or the report once every phase has one.
pub open spec fn next_artifact(s: InitSessionView) -> (InitSessionView, InitActionView) {
    if s.artifacts.len() >= s.config.phases.len() {
        finish(s, Ok(report_of(s)))
    } else {
        (
            InitSessionView { stage: InitStage::CheckArtifact, ..s },
            InitActionView::CheckExists(artifact_location(s.cwd, s.config.phases[s.artifacts.len() as int])),
        )
    }
}

/// With the configuration settled: validate it, then ask about the state.
pub open spec fn after_config(s: InitSessionView) -> (InitSessionView, InitActionView) {
    match spec_validate_config(s.config) {
        Err(e) => finish(s, Err(e)),
        Ok(_) => (InitSessionView { stage: InitStage::CheckState, ..s }, InitActionView::CheckExists(s.state_path)),
    }
}

/// Writing the pending state.
pub open spec fn write_pending_state(s: InitSessionView) -> (InitSessionView, InitActionView) {
    (InitSessionView { stage: InitStage::WriteState, ..s }, InitActionView::WriteState(s.state_path, spec_pending_for(s.config)))
}

pub open spec fn config_exists_message(config_path: Seq<char>) -> Seq<char> {
    "workflow config already exists at "@ + config_path + ". Use --force to replace it."@
}

/// The session at the start of initializing the workspace at `cwd`, and the
/// first action: to ask whether the configuration exists.
pub open spec fn spec_init_start(cwd: Seq<char>, template_path: Option<Seq<char>>, force: bool) -> (InitSessionView, InitActionView) {
    let config_path = path_joined(cwd, DEFAULT_WORKFLOW_CONFIG_RELATIVE_PATH@);
    (
        InitSessionView {
            cwd,
            template_path,
            force,
            config_path,
            state_path: path_joined(cwd, DEFAULT_WORKFLOW_STATE_RELATIVE_PATH@),
            stage: InitStage::CheckConfig,
            config: spec_claw_default(),
            config_status: WorkflowFileStatus::Skipped,
            state_status: WorkflowFileStatus::Skipped,
            artifacts: Seq::empty(),
        },
        InitActionView::CheckExists(config_path),
    )
}

/// One step of initialization: given the answer to the last action, the new
/// session and the next action.
///
/// With a template, an existing configuration is an error unless forced;
/// the template (a path relative to the workspace unless absolute) is read,
/// validated and written over the configuration. Without one, an existing
/// configuration is read, a missing one is written from the built-in
/// workflow. The configuration is then validated. An existing state is read
/// and must fit the configuration; when it does not (or cannot be read) the
/// error ends initialization unless forced, in which case, as when there is
/// no state, the pending state is written. Last, each phase's artifact is
/// created unless it exists.
pub open spec fn spec_init_step(s: InitSessionView, ev: InitEventView) -> (InitSessionView, InitActionView)
    recommends
        answers(s.stage, ev),
{
    match (s.stage, ev) {
        (InitStage::CheckConfig, InitEventView::Exists(exists)) => match s.template_path {
            Some(t) => if exists && !s.force {
                finish(s, Err(WorkflowErrorView::InvalidConfig(config_exists_message(s.config_path))))
            } else {
                (InitSessionView { stage: InitStage::ReadTemplate, ..s }, InitActionView::ReadConfig(path_joined(s.cwd, t)))
            },
            None => if exists {
                (InitSessionView { stage: InitStage::ReadExistingConfig, ..s }, InitActionView::ReadConfig(s.config_path))
            } else {
                (
                    InitSessionView { stage: InitStage::WriteConfig, config: spec_claw_default(), ..s },
                    InitActionView::WriteConfig(s.config_path, spec_claw_default()),
                )
            },
        },
        (InitStage::ReadTemplate, InitEventView::ConfigRead(r)) => match r {
            Err(e) => finish(s, Err(e)),
            Ok(c) => match spec_validate_config(c) {
                Err(e) => finish(s, Err(e)),
                Ok(_) => (InitSessionView { stage: InitStage::WriteConfig, config: c, ..s }, InitActionView::WriteConfig(s.config_path, c)),
            },
        },
        (InitStage::ReadExistingConfig, InitEventView::ConfigRead(r)) => match r {
            Err(e) => finish(s, Err(e)),
            Ok(c) => after_config(InitSessionView { config: c, ..s }),
        },
        (InitStage::WriteConfig, InitEventView::Written(r)) => match r {
            Err(e) => finish(s, Err(e)),
            Ok(_) => after_config(InitSessionView { config_status: WorkflowFileStatus::Created, ..s }),
        },
        (InitStage::CheckState, InitEventView::Exists(exists)) => if exists {
            (InitSessionView { stage: InitStage::ReadState, ..s }, InitActionView::ReadState(s.state_path))
        } else {
            write_pending_state(s)
        },
        (InitStage::ReadState, InitEventView::StateRead(r)) => {
            let checked = match r {
                Err(e) => Err(e),
                Ok(st) => spec_validate_state(st, s.config),
            };
            match checked {
                Ok(_) => next_artifact(InitSessionView { state_status: WorkflowFileStatus::Skipped, ..s }),
                Err(e) => if s.force {
                    write_pending_state(s)
                } else {
                    finish(s, Err(e))
                },
            }
        },
        (InitStage::WriteState, InitEventView::Written(r)) => match r {
            Err(e) => finish(s, Err(e)),
            Ok(_) => next_artifact(InitSessionView { state_status: WorkflowFileStatus::Created, ..s }),
        },
        (InitStage::CheckArtifact, InitEventView::Exists(exists)) => {
            let phase = s.config.phases[s.artifacts.len() as int];
            let path = artifact_location(s.cwd, phase);
            if exists {
                next_artifact(InitSessionView {
                    artifacts: s.artifacts.push(ArtifactStatusView { path, status: WorkflowFileStatus::Skipped }),
                    ..s
                })
            } else {
                (InitSessionView { stage: InitStage::WriteArtifact, ..s }, InitActionView::WriteArtifact(path, spec_artifact_stub(phase)))
            }
        },
        (InitStage::WriteArtifact, InitEventView::Written(r)) => match r {
            Err(e) => finish(s, Err(e)),
            Ok(_) => {
                let phase = s.config.phases[s.artifacts.len() as int];
                next_artifact(InitSessionView {
                    artifacts: s.artifacts.push(ArtifactStatusView { path: artifact_location(s.cwd, phase), status: WorkflowFileStatus::Created }),
                    ..s
                })
            },
        },
        // An answer of the wrong kind, which `step` does not accept.
        _ => (s, InitActionView::Finish(Err(WorkflowErrorView::Io(Seq::empty())))),
    }
}

/// The session's paths are those of its workspace, and the artifacts
/// ensured so far are those of the first phases, in order.
pub open spec fn session_paths_ok(s: InitSessionView) -> bool {
    &&& s.config_path == path_joined(s.cwd, DEFAULT_WORKFLOW_CONFIG_RELATIVE_PATH@)
    &&& s.state_path == path_joined(s.cwd, DEFAULT_WORKFLOW_STATE_RELATIVE_PATH@)
    &&& forall|i: int| 0 <= i < s.artifacts.len() ==> (#[trigger] s.artifacts[i]).path == artifact_location(s.cwd, s.config.phases[i])
    &&& s.artifacts.len() <= s.config.phases.len()
}

/// Whether the configuration has been settled and validated at `stage`.
pub open spec fn config_settled(stage: InitStage) -> bool {
    match stage {
        InitStage::CheckState | InitStage::ReadState | InitStage::WriteState | InitStage::CheckArtifact
        | InitStage::WriteArtifact => true,
        _ => false,
    }
}

/// What holds of a session between steps: no artifact is ensured before
/// the configuration and state are settled, and while artifacts are being
/// ensured, one has been ensured for each phase before the next.
pub open spec fn session_ok(s: InitSessionView) -> bool {
    &&& session_paths_ok(s)
    &&& config_settled(s.stage) ==> config_valid(s.config)
    &&& (s.stage == InitStage::CheckArtifact || s.stage == InitStage::WriteArtifact) ==> s.artifacts.len() < s.config.phases.len()
    &&& (s.stage != InitStage::CheckArtifact && s.stage != InitStage::WriteArtifact && s.stage != InitStage::Done) ==> s.artifacts.len() == 0
}

impl InitSession {
    pub open spec fn ok(&self) -> bool {
        &&& session_ok(self@)
        &&& self.artifacts@.len() <= self.config.phases@.len()
    }
}

/// Starts initializing the workspace at `cwd`: the session and the first
/// action.
pub fn initialize_workflow_with_options(cwd: &str, options: WorkflowInitOptions) -> (r: (InitSession, InitAction))
    ensures
        r.0.ok(),
        (r.0@, r.1@) == spec_init_start(cwd@, crate::model::opt_str(options.template_path), options.force),
{
    let paths = WorkflowPaths::for_workspace(cwd);
    let action = InitAction::CheckExists(owned(paths.config_path.as_str()));
    let session = InitSession {
        cwd: owned(cwd),
        template_path: options.template_path,
        force: options.force,
        paths,
        stage: InitStage::CheckConfig,
        config: WorkflowConfig::claw_default(),
        config_status: WorkflowFileStatus::Skipped,
        state_status: WorkflowFileStatus::Skipped,
        artifacts: Vec::new(),
    };
    assert(session@.artifacts =~= Seq::<ArtifactStatusView>::empty());
    (session, action)
}

/// Starts initializing the workspace at `cwd` with the default options.
pub fn initialize_workflow(cwd: &str) -> (r: (InitSession, InitAction))
    ensures
        r.0.ok(),
        (r.0@, r.1@) == spec_init_start(cwd@, None, false),
{
    initialize_workflow_with_options(cwd, WorkflowInitOptions::default())
}


fn copy_artifacts(v: &Vec<WorkflowArtifactStatus>) -> (r: Vec<WorkflowArtifactStatus>)
    ensures
        r@.map_values(|a: WorkflowArtifactStatus| a@) == v@.map_values(|a: WorkflowArtifactStatus| a@),
{
    let mut out: Vec<WorkflowArtifactStatus> = Vec::new();
    let mut i: usize = 0;
    while i < v.len()
        invariant
            i <= v@.len(),
            out@.len() == i,
            forall|k: int| 0 <= k < i ==> (#[trigger] out@[k])@ == v@[k]@,
        decreases v.len() - i,
    {
        out.push(WorkflowArtifactStatus { path: owned(v[i].path.as_str()), status: v[i].status });
        i = i + 1;
    }
    assert(out@.map_values(|a: WorkflowArtifactStatus| a@) =~= v@.map_values(|a: WorkflowArtifactStatus| a@));
    out
}

impl InitSession {
    /// Ends the session with `outcome`.
    fn finish(&mut self, outcome: Result<WorkflowInitReport, WorkflowError>) -> (r: InitAction)
        requires
            session_paths_ok(old(self)@),
            old(self).artifacts@.len() <= old(self).config.phases@.len(),
        ensures
            final(self).ok(),
            (final(self)@, r@) == finish(
                old(self)@,
                match outcome {
                    Ok(rep) => Ok(rep@),
                    Err(e) => Err(e@),
                },
            ),
    {
        self.stage = InitStage::Done;
        InitAction::Finish(outcome)
    }

    /// The report of this session.
    fn report(&self) -> (r: WorkflowInitReport)
        ensures
            r@ == report_of(self@),
    {
        WorkflowInitReport {
            config_path: owned(self.paths.config_path.as_str()),
            state_path: owned(self.paths.state_path.as_str()),
            config_status: self.config_status,
            state_status: self.state_status,
            artifacts: copy_artifacts(&self.artifacts),
        }
    }

    /// Moves on to the next artifact, or finishes.
    fn next_artifact(&mut self) -> (r: InitAction)
        requires
            session_paths_ok(old(self)@),
            old(self).artifacts@.len() <= old(self).config.phases@.len(),
            config_valid(old(self)@.config),
        ensures
            final(self).ok(),
            (final(self)@, r@) == next_artifact(old(self)@),
    {
        let k = self.artifacts.len();
        if k >= self.config.phases.len() {
            let report = self.report();
            return self.finish(Ok(report));
        }
        self.stage = InitStage::CheckArtifact;
        assert(self@.config.phases[k as int] == self.config.phases@[k as int]@);
        InitAction::CheckExists(join_path(self.cwd.as_str(), self.config.phases[k].artifact_path.as_str()))
    }

    /// Validates the settled configuration, then asks about the state.
    fn after_config(&mut self) -> (r: InitAction)
        requires
            old(self).ok(),
            old(self)@.artifacts.len() == 0,
        ensures
            final(self).ok(),
            (final(self)@, r@) == after_config(old(self)@),
    {
        match self.config.validate() {
            Err(e) => self.finish(Err(e)),
            Ok(()) => {
                proof {
                    lemma_config_problem_iff_valid(self.config@);
                }
                self.stage = InitStage::CheckState;
                InitAction::CheckExists(owned(self.paths.state_path.as_str()))
            },
        }
    }

    /// Asks to write the pending state.
    fn write_pending_state(&mut self) -> (r: InitAction)
        requires
            old(self).ok(),
            config_valid(old(self)@.config),
            old(self)@.artifacts.len() == 0,
        ensures
            final(self).ok(),
            (final(self)@, r@) == write_pending_state(old(self)@),
    {
        self.stage = InitStage::WriteState;
        InitAction::WriteState(owned(self.paths.state_path.as_str()), WorkflowState::pending_for(&self.config))
    }

    /// Takes the answer to the last action; gives the next action.
    pub fn step(&mut self, event: InitEvent) -> (r: InitAction)
        requires
            old(self).ok(),
            answers(old(self)@.stage, event@),
        ensures
            final(self).ok(),
            (final(self)@, r@) == spec_init_step(old(self)@, event@),
    {
        match (self.stage, event) {
            (InitStage::CheckConfig, InitEvent::Exists(exists)) => {
                match &self.template_path {
                    Some(t) => {
                        if exists && !self.force {
                            let mut m = owned("workflow config already exists at ");
                            m.append(self.paths.config_path.as_str());
                            m.append(". Use --force to replace it.");
                            self.finish(Err(WorkflowError::InvalidConfig(m)))
                        } else {
                            let resolved = join_path(self.cwd.as_str(), t.as_str());
                            self.stage = InitStage::ReadTemplate;
                            InitAction::ReadConfig(resolved)
                        }
                    },
                    None => {
                        if exists {
                            self.stage = InitStage::ReadExistingConfig;
                            InitAction::ReadConfig(owned(self.paths.config_path.as_str()))
                        } else {
                            self.stage = InitStage::WriteConfig;
                            self.config = WorkflowConfig::claw_default();
                            InitAction::WriteConfig(owned(self.paths.config_path.as_str()), WorkflowConfig::claw_default())
                        }
                    },
                }
            },
            (InitStage::ReadTemplate, InitEvent::ConfigRead(r)) => match r {
                Err(e) => self.finish(Err(e)),
                Ok(c) => match c.validate() {
                    Err(e) => self.finish(Err(e)),
                    Ok(()) => {
                        let path = owned(self.paths.config_path.as_str());
                        let copy = copy_config(&c);
                        self.config = c;
                        self.stage = InitStage::WriteConfig;
                        InitAction::WriteConfig(path, copy)
                    },
                },
            },
            (InitStage::ReadExistingConfig, InitEvent::ConfigRead(r)) => match r {
                Err(e) => self.finish(Err(e)),
                Ok(c) => {
                    self.config = c;
                    self.after_config()
                },
            },
            (InitStage::WriteConfig, InitEvent::Written(r)) => match r {
                Err(e) => self.finish(Err(e)),
                Ok(()) => {
                    self.config_status = WorkflowFileStatus::Created;
                    self.after_config()
                },
            },
            (InitStage::CheckState, InitEvent::Exists(exists)) => {
                if exists {
                    self.stage = InitStage::ReadState;
                    InitAction::ReadState(owned(self.paths.state_path.as_str()))
                } else {
                    self.write_pending_state()
                }
            },
            (InitStage::ReadState, InitEvent::StateRead(r)) => {
                let checked = match r {
                    Err(e) => Err(e),
                    Ok(st) => st.validate(&self.config),
                };
                match checked {
                    Ok(()) => {
                        self.state_status = WorkflowFileStatus::Skipped;
                        self.next_artifact()
                    },
                    Err(e) => {
                        if self.force {
                            self.write_pending_state()
                        } else {
                            self.finish(Err(e))
                        }
                    },
                }
            },
            (InitStage::WriteState, InitEvent::Written(r)) => match r {
                Err(e) => self.finish(Err(e)),
                Ok(()) => {
                    self.state_status = WorkflowFileStatus::Created;
                    self.next_artifact()
                },
            },
            (InitStage::CheckArtifact, InitEvent::Exists(exists)) => {
                let k = self.artifacts.len();
                assert(self@.config.phases[k as int] == self.config.phases@[k as int]@);
                let path = join_path(self.cwd.as_str(), self.config.phases[k].artifact_path.as_str());
                if exists {
                    let ghost before = self@.artifacts;
                    self.artifacts.push(WorkflowArtifactStatus { path, status: WorkflowFileStatus::Skipped });
                    assert(self@.artifacts =~= before.push(ArtifactStatusView { path: self.artifacts@[k as int].path@, status: WorkflowFileStatus::Skipped }));
                    self.next_artifact()
                } else {
                    let text = render_artifact_stub(&self.config.phases[k]);
                    self.stage = InitStage::WriteArtifact;
                    InitAction::WriteArtifact(path, text)
                }
            },
            (InitStage::WriteArtifact, InitEvent::Written(r)) => match r {
                Err(e) => self.finish(Err(e)),
                Ok(()) => {
                    let k = self.artifacts.len();
                    assert(self@.config.phases[k as int] == self.config.phases@[k as int]@);
                    let path = join_path(self.cwd.as_str(), self.config.phases[k].artifact_path.as_str());
                    let ghost before = self@.artifacts;
                    self.artifacts.push(WorkflowArtifactStatus { path, status: WorkflowFileStatus::Created });
                    assert(self@.artifacts =~= before.push(ArtifactStatusView { path: self.artifacts@[k as int].path@, status: WorkflowFileStatus::Created }));
                    self.next_artifact()
                },
            },
            _ => {
                assert(false);
                InitAction::Finish(Err(WorkflowError::Io(String::new())))
            },
        }
    }
}

/// A copy of a phase definition.
fn copy_definition(p: &WorkflowPhaseDefinition) -> (r: WorkflowPhaseDefinition)
    ensures
        r@ == p@,
{
    WorkflowPhaseDefinition {
        id: owned(p.id.as_str()),
        title: owned(p.title.as_str()),
        role: owned(p.role.as_str()),
        summary: owned(p.summary.as_str()),
        artifact_path: owned(p.artifact_path.as_str()),
    }
}

/// A copy of a configuration.
fn copy_config(c: &WorkflowConfig) -> (r: WorkflowConfig)
    ensures
        r@ == c@,
{
    let mut phases: Vec<WorkflowPhaseDefinition> = Vec::new();
    let mut i: usize = 0;
    while i < c.phases.len()
        invariant
            i <= c.phases@.len(),
            phases@.len() == i,
            forall|k: int| 0 <= k < i ==> (#[trigger] phases@[k])@ == c.phases@[k]@,
        decreases c.phases.len() - i,
    {
        phases.push(copy_definition(&c.phases[i]));
        i = i + 1;
    }
    let r = WorkflowConfig { schema_version: c.schema_version, phases };
    assert(r@.phases =~= c@.phases);
    r
}

} // verus!
