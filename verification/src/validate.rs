//! What makes a workflow configuration valid, and a stored state fit a
//! configuration.
use vstd::prelude::*;
use vstd::string::*;
use crate::model::{
    ConfigView, PhaseDefinitionView, StateView, WorkflowConfig, WorkflowError, WorkflowErrorView,
    WorkflowPhaseDefinition, WorkflowState, WORKFLOW_SCHEMA_VERSION,
};
use crate::paths::{has_parent_component, is_absolute_path, path_has_parent_component, path_is_absolute};
use crate::text::{chars_of, decimal, is_blank, owned, push_decimal, str_eq, trimmed};

verus! {

/// Characters allowed in a phase id: `[A-Za-z0-9_-]`.
pub open spec fn is_phase_id_char(c: char) -> bool {
    ||| 'a' <= c <= 'z'
    ||| 'A' <= c <= 'Z'
    ||| '0' <= c <= '9'
    ||| c == '-'
    ||| c == '_'
}

/// Why `id` is not a valid phase id, if it is not.
pub open spec fn phase_id_problem(id: Seq<char>) -> Option<Seq<char>> {
    if id.len() == 0 {
        Some("workflow phase ids cannot be empty"@)
    } else if !(forall|i: int| 0 <= i < id.len() ==> is_phase_id_char(#[trigger] id[i])) {
        Some("workflow phase id must use [A-Za-z0-9_-]: "@ + id)
    } else {
        None
    }
}

/// Why the field `name` holding `value` is not acceptable, if it is not.
pub open spec fn blank_field_problem(name: Seq<char>, value: Seq<char>) -> Option<Seq<char>> {
    if trimmed(value).len() == 0 {
        Some(name + " cannot be empty"@)
    } else {
        None
    }
}

/// Why `path` is not a valid artifact path, if it is not: it must be
/// non-blank, relative, and stay inside the workspace.
pub open spec fn artifact_path_problem(path: Seq<char>) -> Option<Seq<char>> {
    if blank_field_problem("artifact path"@, path) is Some {
        blank_field_problem("artifact path"@, path)
    } else if is_absolute_path(path) {
        Some("artifact path must be repo-relative: "@ + path)
    } else if has_parent_component(path) {
        Some("artifact path cannot escape the workspace: "@ + path)
    } else {
        None
    }
}

/// Why a phase definition is not valid, if it is not; fields are checked in
/// the order id, title, role, summary, artifact.
pub open spec fn phase_problem(p: PhaseDefinitionView) -> Option<Seq<char>> {
    if phase_id_problem(p.id) is Some {
        phase_id_problem(p.id)
    } else if blank_field_problem("phase title"@, p.title) is Some {
        blank_field_problem("phase title"@, p.title)
    } else if blank_field_problem("phase role"@, p.role) is Some {
        blank_field_problem("phase role"@, p.role)
    } else if blank_field_problem("phase summary"@, p.summary) is Some {
        blank_field_problem("phase summary"@, p.summary)
    } else {
        artifact_path_problem(p.artifact_path)
    }
}

/// Whether phase `i` reuses the id of an earlier phase.
pub open spec fn repeats_earlier_id(phases: Seq<PhaseDefinitionView>, i: int) -> bool {
    exists|j: int| 0 <= j < i && #[trigger] phases[j].id == phases[i].id
}

/// The first problem among `phases[i..]`, each phase checked in turn and then
/// for a repeated id.
pub open spec fn phases_problem_from(phases: Seq<PhaseDefinitionView>, i: int) -> Option<Seq<char>>
    decreases phases.len() - i,
{
    if i < 0 || i >= phases.len() {
        None
    } else if phase_problem(phases[i]) is Some {
        phase_problem(phases[i])
    } else if repeats_earlier_id(phases, i) {
        Some("workflow phase ids must be unique: "@ + phases[i].id)
    } else {
        phases_problem_from(phases, i + 1)
    }
}

/// Why a configuration is invalid, if it is.
pub open spec fn config_problem(c: ConfigView) -> Option<Seq<char>> {
    if c.schema_version != WORKFLOW_SCHEMA_VERSION {
        Some("unsupported workflow schema_version "@ + decimal(c.schema_version as nat))
    } else if c.phases.len() == 0 {
        Some("workflow config must define at least one phase"@)
    } else {
        phases_problem_from(c.phases, 0)
    }
}

/// A valid configuration: the supported schema, at least one phase, every
/// phase valid, and no id used twice.
pub open spec fn config_valid(c: ConfigView) -> bool {
    &&& c.schema_version == WORKFLOW_SCHEMA_VERSION
    &&& c.phases.len() > 0
    &&& forall|i: int| 0 <= i < c.phases.len() ==> phase_problem(#[trigger] c.phases[i]) is None
    &&& forall|i: int, j: int|
        0 <= i < j < c.phases.len() ==> #[trigger] c.phases[i].id != #[trigger] c.phases[j].id
}

/// What `WorkflowConfig::validate` gives for `c`.
pub open spec fn spec_validate_config(c: ConfigView) -> Result<(), WorkflowErrorView> {
    match config_problem(c) {
        Some(m) => Err(WorkflowErrorView::InvalidConfig(m)),
        None => Ok(()),
    }
}

pub proof fn lemma_phases_problem_from(phases: Seq<PhaseDefinitionView>, i: int)
    requires
        0 <= i <= phases.len(),
        forall|k: int| 0 <= k < i ==> phase_problem(#[trigger] phases[k]) is None,
        forall|k: int, j: int| 0 <= k < j < i ==> #[trigger] phases[k].id != #[trigger] phases[j].id,
    ensures
        phases_problem_from(phases, i) is None <==> (
            (forall|k: int| 0 <= k < phases.len() ==> phase_problem(#[trigger] phases[k]) is None)
            && (forall|k: int, j: int| 0 <= k < j < phases.len() ==> #[trigger] phases[k].id != #[trigger] phases[j].id)),
    decreases phases.len() - i,
{
    if i < phases.len() {
        if phase_problem(phases[i]) is None && !repeats_earlier_id(phases, i) {
            assert forall|k: int, j: int| 0 <= k < j < i + 1 implies #[trigger] phases[k].id != #[trigger] phases[j].id by {
                if j == i {
                    if phases[k].id == phases[j].id {
                        assert(repeats_earlier_id(phases, i));
                    }
                }
            }
            lemma_phases_problem_from(phases, i + 1);
        } else if phase_problem(phases[i]) is None {
            let j = choose|j: int| 0 <= j < i && #[trigger] phases[j].id == phases[i].id;
            assert(phases[j].id == phases[i].id);
        }
    }
}

/// A configuration has no problem exactly when it is valid.
pub proof fn lemma_config_problem_iff_valid(c: ConfigView)
    ensures
        config_problem(c) is None <==> config_valid(c),
{
    lemma_phases_problem_from(c.phases, 0);
}

/// Whether `c` is a phase-id character.
fn is_phase_id_character(c: char) -> (b: bool)
    ensures
        b == is_phase_id_char(c),
{
    ('a' <= c && c <= 'z') || ('A' <= c && c <= 'Z') || ('0' <= c && c <= '9') || c == '-' || c
        == '_'
}

fn invalid_config_with(prefix: &str, tail: &str) -> (e: WorkflowError)
    ensures
        e@ == WorkflowErrorView::InvalidConfig(prefix@ + tail@),
{
    let mut m = owned(prefix);
    m.append(tail);
    WorkflowError::InvalidConfig(m)
}

/// Checks a phase id.
pub fn validate_phase_id(value: &str) -> (r: Result<(), WorkflowError>)
    ensures
        match phase_id_problem(value@) {
            Some(m) => r matches Err(e) && e@ == WorkflowErrorView::InvalidConfig(m),
            None => r is Ok,
        },
{
    let cs = chars_of(value);
    if cs.len() == 0 {
        return Err(WorkflowError::InvalidConfig(owned("workflow phase ids cannot be empty")));
    }
    let mut i: usize = 0;
    while i < cs.len()
        invariant
            cs@ == value@,
            i <= cs@.len(),
            forall|k: int| 0 <= k < i ==> is_phase_id_char(#[trigger] value@[k]),
        decreases cs.len() - i,
    {
        if !is_phase_id_character(cs[i]) {
            assert(!is_phase_id_char(value@[i as int]));
            return Err(invalid_config_with("workflow phase id must use [A-Za-z0-9_-]: ", value));
        }
        i = i + 1;
    }
    Ok(())
}

/// Checks that a field is not blank.
pub fn validate_non_empty_field(name: &str, value: &str) -> (r: Result<(), WorkflowError>)
    ensures
        match blank_field_problem(name@, value@) {
            Some(m) => r matches Err(e) && e@ == WorkflowErrorView::InvalidConfig(m),
            None => r is Ok,
        },
{
    if is_blank(value) {
        return Err(invalid_config_with(name, " cannot be empty"));
    }
    Ok(())
}

/// Checks an artifact path.
pub fn validate_artifact_path(path: &str) -> (r: Result<(), WorkflowError>)
    ensures
        match artifact_path_problem(path@) {
            Some(m) => r matches Err(e) && e@ == WorkflowErrorView::InvalidConfig(m),
            None => r is Ok,
        },
{
    match validate_non_empty_field("artifact path", path) {
        Err(e) => return Err(e),
        Ok(()) => {},
    }
    if path_is_absolute(path) {
        return Err(invalid_config_with("artifact path must be repo-relative: ", path));
    }
    if path_has_parent_component(path) {
        return Err(invalid_config_with("artifact path cannot escape the workspace: ", path));
    }
    Ok(())
}

/// Checks one phase definition.
fn validate_phase(p: &WorkflowPhaseDefinition) -> (r: Result<(), WorkflowError>)
    ensures
        match phase_problem(p@) {
            Some(m) => r matches Err(e) && e@ == WorkflowErrorView::InvalidConfig(m),
            None => r is Ok,
        },
{
    match validate_phase_id(p.id.as_str()) {
        Err(e) => return Err(e),
        Ok(()) => {},
    }
    match validate_non_empty_field("phase title", p.title.as_str()) {
        Err(e) => return Err(e),
        Ok(()) => {},
    }
    match validate_non_empty_field("phase role", p.role.as_str()) {
        Err(e) => return Err(e),
        Ok(()) => {},
    }
    match validate_non_empty_field("phase summary", p.summary.as_str()) {
        Err(e) => return Err(e),
        Ok(()) => {},
    }
    validate_artifact_path(p.artifact_path.as_str())
}

impl WorkflowConfig {
    /// Checks the configuration: its schema version, that it has phases,
    /// every phase, and that no phase id repeats.
    pub fn validate(&self) -> (r: Result<(), WorkflowError>)
        ensures
            match spec_validate_config(self@) {
                Ok(_) => r is Ok,
                Err(ev) => r matches Err(e) && e@ == ev,
            },
    {
        if self.schema_version != WORKFLOW_SCHEMA_VERSION {
            let mut m = owned("unsupported workflow schema_version ");
            push_decimal(&mut m, self.schema_version as u64);
            return Err(WorkflowError::InvalidConfig(m));
        }
        if self.phases.len() == 0 {
            return Err(WorkflowError::InvalidConfig(owned("workflow config must define at least one phase")));
        }
        let ghost phases = self@.phases;
        let mut i: usize = 0;
        while i < self.phases.len()
            invariant
                phases == self@.phases,
                phases.len() == self.phases@.len(),
                i <= phases.len(),
                self.schema_version == WORKFLOW_SCHEMA_VERSION,
                phases.len() > 0,
                phases_problem_from(phases, i as int) == phases_problem_from(phases, 0),
            decreases self.phases.len() - i,
        {
            let phase = &self.phases[i];
            assert(phases[i as int] == phase@);
            match validate_phase(phase) {
                Err(e) => return Err(e),
                Ok(()) => {},
            }
            let mut j: usize = 0;
            while j < i
                invariant
                    phases == self@.phases,
                    phases.len() == self.phases@.len(),
                    i < phases.len(),
                    j <= i,
                    phase@ == phases[i as int],
                    phase_problem(phases[i as int]) is None,
                    self.schema_version == WORKFLOW_SCHEMA_VERSION,
                    phases_problem_from(phases, i as int) == phases_problem_from(phases, 0),
                    forall|k: int| 0 <= k < j ==> phases[k].id != phases[i as int].id,
                decreases i - j,
            {
                assert(phases[j as int] == self.phases@[j as int]@);
                if str_eq(self.phases[j].id.as_str(), phase.id.as_str()) {
                    assert(phases[j as int].id == phases[i as int].id);
                    assert(repeats_earlier_id(phases, i as int));
                    return Err(invalid_config_with("workflow phase ids must be unique: ", phase.id.as_str()));
                }
                j = j + 1;
            }
            assert(!repeats_earlier_id(phases, i as int));
            i = i + 1;
        }
        Ok(())
    }
}

// ---------------------------------------------------------------------------
// A stored state against its configuration.
// ---------------------------------------------------------------------------

/// The first index from `i` on where the state's phase id differs from the
/// configuration's.
pub open spec fn first_id_mismatch_from(s: StateView, c: ConfigView, i: int) -> Option<int>
    decreases c.phases.len() - i,
{
    if i < 0 || i >= c.phases.len() || i >= s.phases.len() {
        None
    } else if s.phases[i].phase_id != c.phases[i].id {
        Some(i)
    } else {
        first_id_mismatch_from(s, c, i + 1)
    }
}

/// Why state `s` does not fit configuration `c`, if it does not.
pub open spec fn state_problem(s: StateView, c: ConfigView) -> Option<Seq<char>> {
    if s.schema_version != WORKFLOW_SCHEMA_VERSION {
        Some("unsupported workflow state schema_version "@ + decimal(s.schema_version as nat))
    } else if s.phases.len() != c.phases.len() {
        Some("workflow state has "@ + decimal(s.phases.len()) + " phases but config has "@
            + decimal(c.phases.len()))
    } else {
        match first_id_mismatch_from(s, c, 0) {
            Some(i) => Some("workflow state phase "@ + decimal((i + 1) as nat) + " expected "@
                + c.phases[i].id + " but found "@ + s.phases[i].phase_id),
            None => None,
        }
    }
}

/// State `s` fits configuration `c`: the supported schema, and one phase per
/// configured phase, with the same ids in the same order.
pub open spec fn state_fits(s: StateView, c: ConfigView) -> bool {
    &&& s.schema_version == WORKFLOW_SCHEMA_VERSION
    &&& s.phases.len() == c.phases.len()
    &&& forall|i: int| 0 <= i < c.phases.len() ==> #[trigger] s.phases[i].phase_id == c.phases[i].id
}

/// What `WorkflowState::validate` gives for `s` against `c`.
pub open spec fn spec_validate_state(s: StateView, c: ConfigView) -> Result<(), WorkflowErrorView> {
    match state_problem(s, c) {
        Some(m) => Err(WorkflowErrorView::InvalidState(m)),
        None => Ok(()),
    }
}

pub proof fn lemma_first_id_mismatch_from(s: StateView, c: ConfigView, i: int)
    requires
        0 <= i <= c.phases.len(),
        s.phases.len() == c.phases.len(),
        forall|k: int| 0 <= k < i ==> #[trigger] s.phases[k].phase_id == c.phases[k].id,
    ensures
        first_id_mismatch_from(s, c, i) is None <==> forall|k: int|
            0 <= k < c.phases.len() ==> #[trigger] s.phases[k].phase_id == c.phases[k].id,
        first_id_mismatch_from(s, c, i) matches Some(k) ==> i <= k < c.phases.len(),
    decreases c.phases.len() - i,
{
    if i < c.phases.len() && s.phases[i].phase_id == c.phases[i].id {
        lemma_first_id_mismatch_from(s, c, i + 1);
    }
}

/// A state has no problem against a configuration exactly when it fits it.
pub proof fn lemma_state_problem_iff_fits(s: StateView, c: ConfigView)
    ensures
        state_problem(s, c) is None <==> state_fits(s, c),
{
    if s.schema_version == WORKFLOW_SCHEMA_VERSION && s.phases.len() == c.phases.len() {
        lemma_first_id_mismatch_from(s, c, 0);
    }
}

impl WorkflowState {
    /// Checks that this state fits `config`.
    pub fn validate(&self, config: &WorkflowConfig) -> (r: Result<(), WorkflowError>)
        ensures
            match spec_validate_state(self@, config@) {
                Ok(_) => r is Ok,
                Err(ev) => r matches Err(e) && e@ == ev,
            },
    {
        if self.schema_version != WORKFLOW_SCHEMA_VERSION {
            let mut m = owned("unsupported workflow state schema_version ");
            push_decimal(&mut m, self.schema_version as u64);
            return Err(WorkflowError::InvalidState(m));
        }
        if self.phases.len() != config.phases.len() {
            let mut m = owned("workflow state has ");
            push_decimal(&mut m, self.phases.len() as u64);
            m.append(" phases but config has ");
            push_decimal(&mut m, config.phases.len() as u64);
            return Err(WorkflowError::InvalidState(m));
        }
        let ghost sv = self@;
        let ghost cv = config@;
        let mut i: usize = 0;
        while i < self.phases.len()
            invariant
                sv == self@,
                cv == config@,
                self.phases@.len() == config.phases@.len(),
                self.schema_version == WORKFLOW_SCHEMA_VERSION,
                i <= self.phases@.len(),
                first_id_mismatch_from(sv, cv, i as int) == first_id_mismatch_from(sv, cv, 0),
            decreases self.phases.len() - i,
        {
            assert(sv.phases[i as int] == self.phases@[i as int]@);
            assert(cv.phases[i as int] == config.phases@[i as int]@);
            if !str_eq(self.phases[i].phase_id.as_str(), config.phases[i].id.as_str()) {
                let mut m = owned("workflow state phase ");
                push_decimal(&mut m, i as u64 + 1);
                m.append(" expected ");
                m.append(config.phases[i].id.as_str());
                m.append(" but found ");
                m.append(self.phases[i].phase_id.as_str());
                assert(first_id_mismatch_from(sv, cv, i as int) == Some(i as int));
                assert(m@ =~= "workflow state phase "@ + decimal((i + 1) as nat) + " expected "@
                    + cv.phases[i as int].id + " but found "@ + sv.phases[i as int].phase_id);
                return Err(WorkflowError::InvalidState(m));
            }
            i = i + 1;
        }
        Ok(())
    }
}

} // verus!
