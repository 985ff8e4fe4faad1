//! Gate decisions: which phase is current, how phases are shown, and what
//! an approval or a return does to the stored state.
use vstd::prelude::*;
use vstd::string::*;
use crate::defaults::{pending_phase, spec_pending_for};
use crate::model::{
    opt_str, ConfigView, LedgerEntryView, MutationResultView, PhaseDefinitionView,
    PhaseSnapshotView, PhaseStateView, SnapshotView, StateView, WorkflowConfig,
    WorkflowDisplayStatus, WorkflowError, WorkflowErrorView, WorkflowLedgerAction,
    WorkflowLedgerEntry, WorkflowMutationResult, WorkflowPhaseSnapshot, WorkflowPhaseState,
    WorkflowSnapshot, WorkflowState, WorkflowStoredGateStatus, WORKFLOW_SCHEMA_VERSION,
};
use crate::paths::{path_joined, WorkflowPaths};
use crate::model::{DEFAULT_WORKFLOW_CONFIG_RELATIVE_PATH, DEFAULT_WORKFLOW_STATE_RELATIVE_PATH};
use crate::text::{owned, str_eq, trim, trimmed};
use crate::validate::{
    config_valid, lemma_config_problem_iff_valid, lemma_state_problem_iff_fits,
    spec_validate_config, spec_validate_state, state_fits,
};

verus! {

// ---------------------------------------------------------------------------
// Reading the state.
// ---------------------------------------------------------------------------

/// The first phase from `i` on whose gate is not approved.
pub open spec fn first_unapproved_from(phases: Seq<PhaseStateView>, i: int) -> Option<int>
    decreases phases.len() - i,
{
    if i < 0 || i >= phases.len() {
        None
    } else if phases[i].gate != WorkflowStoredGateStatus::Approved {
        Some(i)
    } else {
        first_unapproved_from(phases, i + 1)
    }
}

/// The current gate: the first phase that is not approved, if any.
pub open spec fn current_index(s: StateView) -> Option<int> {
    first_unapproved_from(s.phases, 0)
}

pub proof fn lemma_first_unapproved_from(phases: Seq<PhaseStateView>, i: int)
    requires
        0 <= i <= phases.len(),
    ensures
        match first_unapproved_from(phases, i) {
            Some(k) => i <= k < phases.len() && phases[k].gate != WorkflowStoredGateStatus::Approved
                && forall|j: int| i <= j < k ==> #[trigger] phases[j].gate == WorkflowStoredGateStatus::Approved,
            None => forall|j: int| i <= j < phases.len() ==> #[trigger] phases[j].gate == WorkflowStoredGateStatus::Approved,
        },
    decreases phases.len() - i,
{
    if i < phases.len() && phases[i].gate == WorkflowStoredGateStatus::Approved {
        lemma_first_unapproved_from(phases, i + 1);
    }
}

/// The current gate is the first phase that is not approved; there is none
/// exactly when every phase is approved.
pub proof fn lemma_current_index(s: StateView)
    ensures
        match current_index(s) {
            Some(k) => 0 <= k < s.phases.len() && s.phases[k].gate != WorkflowStoredGateStatus::Approved
                && forall|j: int| 0 <= j < k ==> #[trigger] s.phases[j].gate == WorkflowStoredGateStatus::Approved,
            None => forall|j: int| 0 <= j < s.phases.len() ==> #[trigger] s.phases[j].gate == WorkflowStoredGateStatus::Approved,
        },
{
    lemma_first_unapproved_from(s.phases, 0);
}

/// A characterization that pins the current gate down.
pub proof fn lemma_current_index_is(s: StateView, k: int)
    requires
        0 <= k < s.phases.len(),
        s.phases[k].gate != WorkflowStoredGateStatus::Approved,
        forall|j: int| 0 <= j < k ==> #[trigger] s.phases[j].gate == WorkflowStoredGateStatus::Approved,
    ensures
        current_index(s) == Some(k),
{
    lemma_current_index(s);
    match current_index(s) {
        Some(c) => {
            if c < k {
                assert(s.phases[c].gate == WorkflowStoredGateStatus::Approved);
            }
            if c > k {
                assert(s.phases[k].gate == WorkflowStoredGateStatus::Approved);
            }
        },
        None => {
            assert(s.phases[k].gate == WorkflowStoredGateStatus::Approved);
        },
    }
}

impl WorkflowState {
    /// The index of the current gate.
    pub fn current_phase_index(&self) -> (r: Option<usize>)
        ensures
            match r {
                Some(k) => current_index(self@) == Some(k as int),
                None => current_index(self@) is None,
            },
    {
        let ghost sv = self@;
        let mut i: usize = 0;
        while i < self.phases.len()
            invariant
                sv == self@,
                i <= self.phases@.len(),
                first_unapproved_from(sv.phases, i as int) == current_index(sv),
            decreases self.phases.len() - i,
        {
            assert(sv.phases[i as int] == self.phases@[i as int]@);
            if self.phases[i].gate != WorkflowStoredGateStatus::Approved {
                return Some(i);
            }
            i = i + 1;
        }
        None
    }
}

/// The index of the first configured phase with id `id`.
pub open spec fn phase_index_from(phases: Seq<PhaseDefinitionView>, id: Seq<char>, i: int) -> Option<int>
    decreases phases.len() - i,
{
    if i < 0 || i >= phases.len() {
        None
    } else if phases[i].id == id {
        Some(i)
    } else {
        phase_index_from(phases, id, i + 1)
    }
}

pub open spec fn spec_phase_index(c: ConfigView, id: Seq<char>) -> Option<int> {
    phase_index_from(c.phases, id, 0)
}

pub proof fn lemma_phase_index_from(phases: Seq<PhaseDefinitionView>, id: Seq<char>, i: int)
    requires
        0 <= i <= phases.len(),
    ensures
        match phase_index_from(phases, id, i) {
            Some(k) => i <= k < phases.len() && phases[k].id == id,
            None => forall|j: int| i <= j < phases.len() ==> #[trigger] phases[j].id != id,
        },
    decreases phases.len() - i,
{
    if i < phases.len() && phases[i].id != id {
        lemma_phase_index_from(phases, id, i + 1);
    }
}

impl WorkflowConfig {
    /// The index of the phase with id `phase_id`.
    pub fn phase_index(&self, phase_id: &str) -> (r: Option<usize>)
        ensures
            match r {
                Some(k) => spec_phase_index(self@, phase_id@) == Some(k as int),
                None => spec_phase_index(self@, phase_id@) is None,
            },
    {
        let ghost cv = self@;
        let mut i: usize = 0;
        while i < self.phases.len()
            invariant
                cv == self@,
                i <= self.phases@.len(),
                phase_index_from(cv.phases, phase_id@, i as int) == spec_phase_index(cv, phase_id@),
            decreases self.phases.len() - i,
        {
            assert(cv.phases[i as int] == self.phases@[i as int]@);
            if str_eq(self.phases[i].id.as_str(), phase_id) {
                return Some(i);
            }
            i = i + 1;
        }
        None
    }
}

/// The number of approved phases.
pub open spec fn approved_count(phases: Seq<PhaseStateView>) -> nat
    decreases phases.len(),
{
    if phases.len() == 0 {
        0
    } else {
        approved_count(phases.drop_last()) + if phases.last().gate == WorkflowStoredGateStatus::Approved {
            1nat
        } else {
            0nat
        }
    }
}

pub proof fn lemma_approved_count_bound(phases: Seq<PhaseStateView>)
    ensures
        approved_count(phases) <= phases.len(),
    decreases phases.len(),
{
    if phases.len() > 0 {
        lemma_approved_count_bound(phases.drop_last());
    }
}

/// How phase `index` is shown: approved phases as approved, the current
/// gate as current (or returned, when it was sent back), the rest as blocked.
pub open spec fn display_status(index: int, current: Option<int>, gate: WorkflowStoredGateStatus) -> WorkflowDisplayStatus {
    if gate == WorkflowStoredGateStatus::Approved {
        WorkflowDisplayStatus::Approved
    } else if current == Some(index) {
        if gate == WorkflowStoredGateStatus::Returned {
            WorkflowDisplayStatus::Returned
        } else {
            WorkflowDisplayStatus::Current
        }
    } else {
        WorkflowDisplayStatus::Blocked
    }
}

/// How phase `index` is shown, given the current gate.
pub fn phase_display_status(index: usize, current_phase_index: Option<usize>, gate: WorkflowStoredGateStatus) -> (r:
    WorkflowDisplayStatus)
    ensures
        r == display_status(
            index as int,
            match current_phase_index {
                Some(k) => Some(k as int),
                None => None,
            },
            gate,
        ),
{
    let is_current = match current_phase_index {
        Some(k) => k == index,
        None => false,
    };
    match gate {
        WorkflowStoredGateStatus::Approved => WorkflowDisplayStatus::Approved,
        WorkflowStoredGateStatus::Returned if is_current => WorkflowDisplayStatus::Returned,
        WorkflowStoredGateStatus::Pending if is_current => WorkflowDisplayStatus::Current,
        _ => WorkflowDisplayStatus::Blocked,
    }
}

// ---------------------------------------------------------------------------
// The store: configuration and state together.
// ---------------------------------------------------------------------------

/// A workflow as loaded from a workspace.
#[derive(Debug)]
pub struct WorkflowStore {
    pub paths: WorkflowPaths,
    pub config: WorkflowConfig,
    pub state: WorkflowState,
}

/// The value of a `WorkflowStore`, with text as character sequences.
pub struct StoreView {
    pub config_path: Seq<char>,
    pub state_path: Seq<char>,
    pub config: ConfigView,
    pub state: StateView,
}

impl View for WorkflowStore {
    type V = StoreView;

    open spec fn view(&self) -> StoreView {
        StoreView {
            config_path: self.paths.config_path@,
            state_path: self.paths.state_path@,
            config: self.config@,
            state: self.state@,
        }
    }
}

/// A loaded workflow: a valid configuration and a state that fits it.
pub open spec fn store_valid(st: StoreView) -> bool {
    &&& config_valid(st.config)
    &&& state_fits(st.state, st.config)
}

impl WorkflowStore {
    pub open spec fn wf(&self) -> bool {
        store_valid(self@)
    }
}

pub open spec fn phase_snapshot(d: PhaseDefinitionView, s: PhaseStateView, status: WorkflowDisplayStatus) -> PhaseSnapshotView {
    PhaseSnapshotView {
        id: d.id,
        title: d.title,
        role: d.role,
        summary: d.summary,
        artifact_path: d.artifact_path,
        status,
        note: s.note,
        updated_at_unix_s: s.updated_at_unix_s,
    }
}

/// The workflow as shown to users: every phase with its display status,
/// the counts, and the current gate.
pub open spec fn spec_snapshot(st: StoreView) -> SnapshotView {
    let cur = current_index(st.state);
    SnapshotView {
        schema_version: WORKFLOW_SCHEMA_VERSION,
        config_path: st.config_path,
        state_path: st.state_path,
        total_phases: st.config.phases.len(),
        approved_count: approved_count(st.state.phases),
        ledger_entries: st.state.ledger.len(),
        is_complete: cur is None,
        current_phase_id: match cur {
            Some(k) => Some(st.config.phases[k].id),
            None => None,
        },
        phases: Seq::new(
            paired_len(st),
            |i: int| phase_snapshot(st.config.phases[i], st.state.phases[i], display_status(i, cur, st.state.phases[i].gate)),
        ),
    }
}

/// The number of phases that have both a definition and a state.
pub open spec fn paired_len(st: StoreView) -> nat {
    if st.config.phases.len() <= st.state.phases.len() {
        st.config.phases.len()
    } else {
        st.state.phases.len()
    }
}

/// Whether the current gate, if any, is a configured phase.
pub open spec fn current_is_configured(st: StoreView) -> bool {
    match current_index(st.state) {
        Some(k) => k < st.config.phases.len(),
        None => true,
    }
}

/// The number of approved phases.
fn count_approved(phases: &Vec<WorkflowPhaseState>) -> (r: usize)
    ensures
        r == approved_count(phases@.map_values(|p: WorkflowPhaseState| p@)),
{
    let ghost pv = phases@.map_values(|p: WorkflowPhaseState| p@);
    let mut approved: usize = 0;
    let mut i: usize = 0;
    while i < phases.len()
        invariant
            pv == phases@.map_values(|p: WorkflowPhaseState| p@),
            i <= phases@.len(),
            approved as nat == approved_count(pv.take(i as int)),
        decreases phases.len() - i,
    {
        assert(pv[i as int] == phases@[i as int]@);
        proof {
            lemma_approved_count_bound(pv.take(i as int));
            assert(pv.take(i + 1).drop_last() =~= pv.take(i as int));
        }
        if phases[i].gate == WorkflowStoredGateStatus::Approved {
            approved = approved + 1;
        }
        i = i + 1;
    }
    assert(pv.take(phases.len() as int) =~= pv);
    approved
}

fn copy_opt(s: &Option<String>) -> (r: Option<String>)
    ensures
        opt_str(r) == opt_str(*s),
{
    match s {
        Some(t) => Some(owned(t.as_str())),
        None => None,
    }
}

impl WorkflowStore {
    /// The workflow as shown to users.
    pub fn snapshot(&self) -> (r: WorkflowSnapshot)
        requires
            current_is_configured(self@),
        ensures
            r@ == spec_snapshot(self@),
    {
        let ghost sv = self@;
        let current = self.state.current_phase_index();
        let ghost cur = current_index(sv.state);
        let approved = count_approved(&self.state.phases);
        let n = if self.config.phases.len() <= self.state.phases.len() {
            self.config.phases.len()
        } else {
            self.state.phases.len()
        };
        let mut phases: Vec<WorkflowPhaseSnapshot> = Vec::new();
        let mut i: usize = 0;
        while i < n
            invariant
                sv == self@,
                n == paired_len(sv),
                n <= self.config.phases@.len(),
                n <= self.state.phases@.len(),
                i <= n,
                cur == current_index(sv.state),
                cur == match current {
                    Some(k) => Some(k as int),
                    None => None::<int>,
                },
                phases@.len() == i,
                forall|k: int| 0 <= k < i ==> (#[trigger] phases@[k])@ == phase_snapshot(
                    sv.config.phases[k],
                    sv.state.phases[k],
                    display_status(k, cur, sv.state.phases[k].gate),
                ),
            decreases n - i,
        {
            let definition = &self.config.phases[i];
            let state = &self.state.phases[i];
            assert(sv.config.phases[i as int] == definition@);
            assert(sv.state.phases[i as int] == state@);
            phases.push(
                WorkflowPhaseSnapshot {
                    id: owned(definition.id.as_str()),
                    title: owned(definition.title.as_str()),
                    role: owned(definition.role.as_str()),
                    summary: owned(definition.summary.as_str()),
                    artifact_path: owned(definition.artifact_path.as_str()),
                    status: phase_display_status(i, current, state.gate),
                    note: copy_opt(&state.note),
                    updated_at_unix_s: state.updated_at_unix_s,
                },
            );
            i = i + 1;
        }
        proof {
            lemma_current_index(sv.state);
        }
        let current_phase_id = match current {
            Some(k) => {
                assert(sv.config.phases[k as int] == self.config.phases@[k as int]@);
                Some(owned(self.config.phases[k].id.as_str()))
            },
            None => None,
        };
        let r = WorkflowSnapshot {
            schema_version: WORKFLOW_SCHEMA_VERSION,
            config_path: owned(self.paths.config_path.as_str()),
            state_path: owned(self.paths.state_path.as_str()),
            total_phases: self.config.phases.len(),
            approved_count: approved,
            ledger_entries: self.state.ledger.len(),
            is_complete: current.is_none(),
            current_phase_id,
            phases,
        };
        assert(r@.phases =~= spec_snapshot(sv).phases);
        r
    }
}

// ---------------------------------------------------------------------------
// Gate decisions.
// ---------------------------------------------------------------------------

/// The view of an optional text argument.
pub open spec fn opt_text(o: Option<&str>) -> Option<Seq<char>> {
    match o {
        Some(s) => Some(s@),
        None => None,
    }
}

/// An optional text without surrounding white space; blank text counts as
/// no text.
pub open spec fn normalized_text(v: Option<Seq<char>>) -> Option<Seq<char>> {
    match v {
        Some(t) => if trimmed(t).len() == 0 {
            None
        } else {
            Some(trimmed(t))
        },
        None => None,
    }
}

/// Trims an optional text, dropping it when blank.
pub fn normalize_optional_text(value: Option<&str>) -> (r: Option<String>)
    ensures
        opt_str(r) == normalized_text(opt_text(value)),
{
    match value {
        Some(v) => {
            let t = trim(v);
            if crate::text::char_count(t.as_str()) == 0 {
                None
            } else {
                Some(t)
            }
        },
        None => None,
    }
}

/// The sequence number of the next ledger entry: one past the ledger's length.
pub fn next_ledger_sequence(state: &WorkflowState) -> (r: u64)
    requires
        state.ledger@.len() < u64::MAX,
    ensures
        r == state.ledger@.len() + 1,
{
    state.ledger.len() as u64 + 1
}

/// The view of a clock reading.
pub open spec fn now_view(now: Result<u64, WorkflowError>) -> Result<u64, WorkflowErrorView> {
    match now {
        Ok(t) => Ok(t),
        Err(e) => Err(e@),
    }
}

pub open spec fn ledger_entry(
    sequence: nat,
    phase_id: Seq<char>,
    action: WorkflowLedgerAction,
    note: Option<Seq<char>>,
    t: u64,
) -> LedgerEntryView {
    LedgerEntryView { sequence: sequence as u64, phase_id, action, note, created_at_unix_s: t }
}

/// `s` with phase `k` approved at time `t` with `note`, and the decision
/// appended to the ledger.
pub open spec fn approved_state(s: StateView, k: int, note: Option<Seq<char>>, t: u64) -> StateView {
    StateView {
        phases: s.phases.update(
            k,
            PhaseStateView {
                gate: WorkflowStoredGateStatus::Approved,
                note,
                updated_at_unix_s: Some(t),
                ..s.phases[k]
            },
        ),
        ledger: s.ledger.push(
            ledger_entry(s.ledger.len() + 1, s.phases[k].phase_id, WorkflowLedgerAction::Approved, note, t),
        ),
        ..s
    }
}

pub open spec fn gate_error(m: Seq<char>) -> WorkflowErrorView {
    WorkflowErrorView::Gate(m)
}

/// What approving the current gate gives: the new state and the result, or
/// the error. `phase_id`, when given, must name the current gate.
pub open spec fn spec_approve(
    st: StoreView,
    phase_id: Option<Seq<char>>,
    note: Option<Seq<char>>,
    now: Result<u64, WorkflowErrorView>,
) -> Result<(StateView, MutationResultView), WorkflowErrorView> {
    match current_index(st.state) {
        None => Err(gate_error("workflow is already fully approved"@)),
        Some(k) => {
            let expected = st.config.phases[k].id;
            if phase_id is Some && phase_id->0 != expected {
                Err(gate_error("phase "@ + phase_id->0 + " is not the current gate; current gate is "@ + expected))
            } else {
                match now {
                    Err(e) => Err(e),
                    Ok(t) => {
                        let n = normalized_text(note);
                        let s2 = approved_state(st.state, k, n, t);
                        Ok((
                            s2,
                            MutationResultView {
                                phase_id: expected,
                                action: WorkflowLedgerAction::Approved,
                                note: n,
                                snapshot: spec_snapshot(StoreView { state: s2, ..st }),
                            },
                        ))
                    },
                }
            }
        },
    }
}

/// `s` with phase `k` sent back at time `t` with `reason`, every later phase
/// reset to pending, and the decision appended to the ledger.
pub open spec fn returned_state(s: StateView, k: int, reason: Seq<char>, t: u64) -> StateView {
    StateView {
        phases: Seq::new(
            s.phases.len(),
            |i: int|
                if i < k {
                    s.phases[i]
                } else if i == k {
                    PhaseStateView {
                        gate: WorkflowStoredGateStatus::Returned,
                        note: Some(reason),
                        updated_at_unix_s: Some(t),
                        ..s.phases[k]
                    }
                } else {
                    pending_phase(s.phases[i].phase_id)
                },
        ),
        ledger: s.ledger.push(
            ledger_entry(s.ledger.len() + 1, s.phases[k].phase_id, WorkflowLedgerAction::Returned, Some(reason), t),
        ),
        ..s
    }
}

/// Which phase a return goes to: the named phase, which must exist and
/// have every earlier phase approved, or else the current gate.
pub open spec fn return_target(st: StoreView, phase_id: Option<Seq<char>>) -> Result<int, WorkflowErrorView> {
    match phase_id {
        Some(p) => match spec_phase_index(st.config, p) {
            None => Err(gate_error("unknown workflow phase: "@ + p)),
            Some(idx) => match current_index(st.state) {
                Some(c) if c < idx => Err(gate_error("phase "@ + p + " is blocked by "@ + st.config.phases[c].id
                    + "; approve or return earlier gates first"@)),
                _ => Ok(idx),
            },
        },
        None => match current_index(st.state) {
            None => Err(gate_error("workflow is already fully approved; specify a phase id to reopen it"@)),
            Some(c) => Ok(c),
        },
    }
}

/// What returning a gate gives: the new state and the result, or the error.
/// The clock is read first, then the reason must not be blank, then the
/// target is resolved.
pub open spec fn spec_return(
    st: StoreView,
    phase_id: Option<Seq<char>>,
    reason: Seq<char>,
    now: Result<u64, WorkflowErrorView>,
) -> Result<(StateView, MutationResultView), WorkflowErrorView> {
    match now {
        Err(e) => Err(e),
        Ok(t) => match normalized_text(Some(reason)) {
            None => Err(gate_error("return requires a non-empty reason"@)),
            Some(r) => match return_target(st, phase_id) {
                Err(e) => Err(e),
                Ok(k) => {
                    let s2 = returned_state(st.state, k, r, t);
                    Ok((
                        s2,
                        MutationResultView {
                            phase_id: st.config.phases[k].id,
                            action: WorkflowLedgerAction::Returned,
                            note: Some(r),
                            snapshot: spec_snapshot(StoreView { state: s2, ..st }),
                        },
                    ))
                },
            },
        },
    }
}

/// Approves the current gate of a loaded workflow at the time `now`.
pub fn approve_workflow_gate(
    store: &mut WorkflowStore,
    phase_id: Option<&str>,
    note: Option<&str>,
    now: Result<u64, WorkflowError>,
) -> (r: Result<WorkflowMutationResult, WorkflowError>)
    requires
        old(store).wf(),
        old(store).state@.ledger.len() < u64::MAX,
    ensures
        final(store).wf(),
        final(store)@.config_path == old(store)@.config_path,
        final(store)@.state_path == old(store)@.state_path,
        final(store)@.config == old(store)@.config,
        match spec_approve(old(store)@, opt_text(phase_id), opt_text(note), now_view(now)) {
            Ok((s, m)) => final(store)@.state == s && (r matches Ok(res) && res@ == m),
            Err(ev) => final(store)@.state == old(store)@.state && (r matches Err(e) && e@ == ev),
        },
{
    let ghost st = store@;
    let current_index = match store.state.current_phase_index() {
        Some(k) => k,
        None => return Err(WorkflowError::Gate(owned("workflow is already fully approved"))),
    };
    proof {
        lemma_current_index(st.state);
    }
    assert(st.config.phases[current_index as int] == store.config.phases@[current_index as int]@);
    let expected_phase = owned(store.config.phases[current_index].id.as_str());
    match phase_id {
        Some(requested_phase) => {
            if !str_eq(requested_phase, expected_phase.as_str()) {
                let mut m = owned("phase ");
                m.append(requested_phase);
                m.append(" is not the current gate; current gate is ");
                m.append(expected_phase.as_str());
                return Err(WorkflowError::Gate(m));
            }
        },
        None => {},
    }
    let timestamp = match now {
        Ok(t) => t,
        Err(e) => return Err(e),
    };
    let normalized_note = normalize_optional_text(note);
    let sequence = next_ledger_sequence(&store.state);
    let old_phase = &store.state.phases[current_index];
    assert(st.state.phases[current_index as int] == old_phase@);
    let new_phase = WorkflowPhaseState {
        phase_id: owned(old_phase.phase_id.as_str()),
        gate: WorkflowStoredGateStatus::Approved,
        note: copy_opt(&normalized_note),
        updated_at_unix_s: Some(timestamp),
    };
    let entry = WorkflowLedgerEntry {
        sequence,
        phase_id: owned(old_phase.phase_id.as_str()),
        action: WorkflowLedgerAction::Approved,
        note: copy_opt(&normalized_note),
        created_at_unix_s: timestamp,
    };
    store.state.phases.set(current_index, new_phase);
    store.state.ledger.push(entry);
    let ghost s2 = approved_state(st.state, current_index as int, normalized_text(opt_text(note)), timestamp);
    assert(store@.state.phases =~= s2.phases);
    assert(store@.state.ledger =~= s2.ledger);
    assert(store@.state == s2);
    assert(state_fits(store@.state, store@.config));
    proof {
        lemma_current_index(store@.state);
    }
    let snapshot = store.snapshot();
    Ok(WorkflowMutationResult {
        phase_id: expected_phase,
        action: WorkflowLedgerAction::Approved,
        note: normalized_note,
        snapshot,
    })
}


/// Which phase a return to `phase_id` goes to.
pub fn resolve_return_index(store: &WorkflowStore, phase_id: &str) -> (r: Result<usize, WorkflowError>)
    requires
        store.wf(),
    ensures
        match return_target(store@, Some(phase_id@)) {
            Ok(k) => r == Ok::<usize, WorkflowError>(k as usize),
            Err(ev) => r matches Err(e) && e@ == ev,
        },
{
    let ghost st = store@;
    let index = match store.config.phase_index(phase_id) {
        Some(i) => i,
        None => {
            let mut m = owned("unknown workflow phase: ");
            m.append(phase_id);
            return Err(WorkflowError::Gate(m));
        },
    };
    proof {
        lemma_phase_index_from(st.config.phases, phase_id@, 0);
        lemma_current_index(st.state);
    }
    let mut j: usize = 0;
    while j < index
        invariant
            st == store@,
            store.wf(),
            index < st.config.phases.len(),
            spec_phase_index(st.config, phase_id@) == Some(index as int),
            j <= index,
            forall|k: int| 0 <= k < j ==> #[trigger] st.state.phases[k].gate == WorkflowStoredGateStatus::Approved,
        decreases index - j,
    {
        assert(st.state.phases[j as int] == store.state.phases@[j as int]@);
        if store.state.phases[j].gate != WorkflowStoredGateStatus::Approved {
            proof {
                lemma_current_index_is(st.state, j as int);
            }
            assert(st.config.phases[j as int] == store.config.phases@[j as int]@);
            let mut m = owned("phase ");
            m.append(phase_id);
            m.append(" is blocked by ");
            m.append(store.config.phases[j].id.as_str());
            m.append("; approve or return earlier gates first");
            return Err(WorkflowError::Gate(m));
        }
        j = j + 1;
    }
    proof {
        lemma_current_index(st.state);
        match current_index(st.state) {
            Some(c) => {
                if c < index {
                    assert(st.state.phases[c].gate == WorkflowStoredGateStatus::Approved);
                }
            },
            None => {},
        }
    }
    Ok(index)
}

/// Sends a gate back at the time `now`: the target phase is marked returned
/// with `reason`, every later phase is reset to pending.
pub fn return_workflow_gate(
    store: &mut WorkflowStore,
    phase_id: Option<&str>,
    reason: &str,
    now: Result<u64, WorkflowError>,
) -> (r: Result<WorkflowMutationResult, WorkflowError>)
    requires
        old(store).wf(),
        old(store).state@.ledger.len() < u64::MAX,
    ensures
        final(store).wf(),
        final(store)@.config_path == old(store)@.config_path,
        final(store)@.state_path == old(store)@.state_path,
        final(store)@.config == old(store)@.config,
        match spec_return(old(store)@, opt_text(phase_id), reason@, now_view(now)) {
            Ok((s, m)) => final(store)@.state == s && (r matches Ok(res) && res@ == m),
            Err(ev) => final(store)@.state == old(store)@.state && (r matches Err(e) && e@ == ev),
        },
{
    let ghost st = store@;
    let timestamp = match now {
        Ok(t) => t,
        Err(e) => return Err(e),
    };
    let normalized_reason = match normalize_optional_text(Some(reason)) {
        Some(r) => r,
        None => return Err(WorkflowError::Gate(owned("return requires a non-empty reason"))),
    };
    let target_index = match phase_id {
        Some(requested_phase) => match resolve_return_index(store, requested_phase) {
            Ok(i) => i,
            Err(e) => return Err(e),
        },
        None => match store.state.current_phase_index() {
            Some(c) => c,
            None => return Err(
                WorkflowError::Gate(owned("workflow is already fully approved; specify a phase id to reopen it")),
            ),
        },
    };
    proof {
        lemma_current_index(st.state);
        lemma_phase_index_from(st.config.phases, opt_text(phase_id).unwrap_or(Seq::empty()), 0);
    }
    assert(target_index < st.config.phases.len());
    assert(st.config.phases[target_index as int] == store.config.phases@[target_index as int]@);
    assert(st.state.phases[target_index as int] == store.state.phases@[target_index as int]@);
    let target_phase = owned(store.config.phases[target_index].id.as_str());
    let sequence = next_ledger_sequence(&store.state);
    let ghost s2 = returned_state(st.state, target_index as int, normalized_reason@, timestamp);
    let entry = WorkflowLedgerEntry {
        sequence,
        phase_id: owned(store.state.phases[target_index].phase_id.as_str()),
        action: WorkflowLedgerAction::Returned,
        note: Some(owned(normalized_reason.as_str())),
        created_at_unix_s: timestamp,
    };
    let returned = WorkflowPhaseState {
        phase_id: owned(store.state.phases[target_index].phase_id.as_str()),
        gate: WorkflowStoredGateStatus::Returned,
        note: Some(owned(normalized_reason.as_str())),
        updated_at_unix_s: Some(timestamp),
    };
    store.state.phases.set(target_index, returned);
    let n = store.state.phases.len();
    let mut j = target_index + 1;
    while j < n
        invariant
            n == store.state.phases@.len(),
            n == st.state.phases.len(),
            target_index < j <= n,
            store.paths == old(store).paths,
            store.config == old(store).config,
            store.state.ledger == old(store).state.ledger,
            store.state.schema_version == old(store).state.schema_version,
            s2 == returned_state(st.state, target_index as int, normalized_reason@, timestamp),
            forall|i: int| 0 <= i < j ==> (#[trigger] store.state.phases@[i])@ == s2.phases[i],
            forall|i: int| j <= i < n ==> (#[trigger] store.state.phases@[i])@ == st.state.phases[i],
        decreases n - j,
    {
        store.state.phases[j].reset_to_pending();
        j = j + 1;
    }
    store.state.ledger.push(entry);
    assert(store@.state.phases =~= s2.phases);
    assert(store@.state.ledger =~= s2.ledger);
    assert(store@.state == s2);
    assert(state_fits(store@.state, store@.config));
    proof {
        lemma_current_index(store@.state);
    }
    let snapshot = store.snapshot();
    Ok(WorkflowMutationResult {
        phase_id: target_phase,
        action: WorkflowLedgerAction::Returned,
        note: Some(normalized_reason),
        snapshot,
    })
}


// ---------------------------------------------------------------------------
// Loading a workflow from what was read from a workspace.
// ---------------------------------------------------------------------------

/// The view of a configuration read from a file: `None` when the file does
/// not exist.
pub open spec fn config_read_view(r: Option<Result<WorkflowConfig, WorkflowError>>) -> Option<Result<ConfigView, WorkflowErrorView>> {
    match r {
        None => None,
        Some(Ok(c)) => Some(Ok(c@)),
        Some(Err(e)) => Some(Err(e@)),
    }
}

/// The view of a state read from a file: `None` when the file does not exist.
pub open spec fn state_read_view(r: Option<Result<WorkflowState, WorkflowError>>) -> Option<Result<StateView, WorkflowErrorView>> {
    match r {
        None => None,
        Some(Ok(s)) => Some(Ok(s@)),
        Some(Err(e)) => Some(Err(e@)),
    }
}

/// The configuration of a workspace: it must exist, have been read, and be valid.
pub open spec fn spec_load_config(config_path: Seq<char>, read: Option<Result<ConfigView, WorkflowErrorView>>) -> Result<ConfigView, WorkflowErrorView> {
    match read {
        None => Err(WorkflowErrorView::NotConfigured(config_path)),
        Some(Err(e)) => Err(e),
        Some(Ok(c)) => match spec_validate_config(c) {
            Err(e) => Err(e),
            Ok(_) => Ok(c),
        },
    }
}

/// A workspace's workflow: its configuration, and its state when a state
/// file exists (it must then read and fit) or else the pending state.
pub open spec fn spec_load_store(
    cwd: Seq<char>,
    config_read: Option<Result<ConfigView, WorkflowErrorView>>,
    state_read: Option<Result<StateView, WorkflowErrorView>>,
) -> Result<StoreView, WorkflowErrorView> {
    let config_path = path_joined(cwd, DEFAULT_WORKFLOW_CONFIG_RELATIVE_PATH@);
    let state_path = path_joined(cwd, DEFAULT_WORKFLOW_STATE_RELATIVE_PATH@);
    match spec_load_config(config_path, config_read) {
        Err(e) => Err(e),
        Ok(c) => match state_read {
            None => Ok(StoreView { config_path, state_path, config: c, state: spec_pending_for(c) }),
            Some(Err(e)) => Err(e),
            Some(Ok(s)) => match spec_validate_state(s, c) {
                Err(e) => Err(e),
                Ok(_) => Ok(StoreView { config_path, state_path, config: c, state: s }),
            },
        },
    }
}

/// The configuration of the workspace at `cwd`, from what was read of its
/// configuration file (`None` when the file does not exist).
pub fn load_workflow_config(cwd: &str, config_read: Option<Result<WorkflowConfig, WorkflowError>>) -> (r: Result<WorkflowConfig, WorkflowError>)
    ensures
        match spec_load_config(path_joined(cwd@, DEFAULT_WORKFLOW_CONFIG_RELATIVE_PATH@), config_read_view(config_read)) {
            Ok(c) => r matches Ok(config) && config@ == c && config_valid(c),
            Err(ev) => r matches Err(e) && e@ == ev,
        },
{
    let paths = WorkflowPaths::for_workspace(cwd);
    let config = match config_read {
        None => return Err(WorkflowError::NotConfigured(paths.config_path)),
        Some(Err(e)) => return Err(e),
        Some(Ok(c)) => c,
    };
    match config.validate() {
        Err(e) => return Err(e),
        Ok(()) => {},
    }
    proof {
        lemma_config_problem_iff_valid(config@);
    }
    Ok(config)
}

impl WorkflowStore {
    /// The workflow of the workspace at `cwd`, from what was read of its
    /// configuration and state files (`None` for a file that does not exist).
    pub fn load(
        cwd: &str,
        config_read: Option<Result<WorkflowConfig, WorkflowError>>,
        state_read: Option<Result<WorkflowState, WorkflowError>>,
    ) -> (r: Result<WorkflowStore, WorkflowError>)
        ensures
            match spec_load_store(cwd@, config_read_view(config_read), state_read_view(state_read)) {
                Ok(st) => r matches Ok(store) && store@ == st && store.wf(),
                Err(ev) => r matches Err(e) && e@ == ev,
            },
    {
        let paths = WorkflowPaths::for_workspace(cwd);
        let config = match load_workflow_config(cwd, config_read) {
            Ok(c) => c,
            Err(e) => return Err(e),
        };
        let state = match state_read {
            None => WorkflowState::pending_for(&config),
            Some(Err(e)) => return Err(e),
            Some(Ok(s)) => {
                match s.validate(&config) {
                    Err(e) => return Err(e),
                    Ok(()) => {},
                }
                s
            },
        };
        proof {
            lemma_state_problem_iff_fits(state@, config@);
        }
        Ok(WorkflowStore { paths, config, state })
    }
}

/// The workflow of the workspace at `cwd` as shown to users.
pub fn load_workflow_snapshot(
    cwd: &str,
    config_read: Option<Result<WorkflowConfig, WorkflowError>>,
    state_read: Option<Result<WorkflowState, WorkflowError>>,
) -> (r: Result<WorkflowSnapshot, WorkflowError>)
    ensures
        match spec_load_store(cwd@, config_read_view(config_read), state_read_view(state_read)) {
            Ok(st) => r matches Ok(snapshot) && snapshot@ == spec_snapshot(st),
            Err(ev) => r matches Err(e) && e@ == ev,
        },
{
    let store = match WorkflowStore::load(cwd, config_read, state_read) {
        Ok(s) => s,
        Err(e) => return Err(e),
    };
    proof {
        lemma_current_index(store@.state);
    }
    Ok(store.snapshot())
}

} // verus!
