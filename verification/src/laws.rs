//! What holds across calls. Of gate decisions: approvals always form a
//! prefix of the phases, an approval advances to the next gate, returning
//! reopens a gate and resets what follows, and the ledger only grows, one
//! numbered entry per decision, carrying the note or reason and the time;
//! the status shown is what the state holds. Of initialization: it writes
//! only valid files, never writes over one, reports as created exactly what
//! it wrote, always moves forward, and run again on a workspace it has
//! initialized changes nothing. Of the command line: splitting gives plain
//! words back as they were, splits text without quotes or backslashes at
//! white space, and fails exactly on an unclosed quote or a trailing
//! backslash; the phase, note and reason given as options are the ones
//! acted on.
use vstd::prelude::*;
use vstd::string::*;
use crate::defaults::{pending_phase, spec_pending_for};
use crate::gate::{
    approved_count, current_index, lemma_current_index, lemma_current_index_is,
    lemma_phase_index_from, return_target, spec_approve, spec_return,
    spec_snapshot, store_valid, StoreView,
};
use crate::model::{
    ArtifactStatusView, ConfigView, InitReportView, PhaseStateView, WorkflowFileStatus,
    DEFAULT_WORKFLOW_CONFIG_RELATIVE_PATH, DEFAULT_WORKFLOW_STATE_RELATIVE_PATH, StateView, WorkflowDisplayStatus, WorkflowErrorView,
    WorkflowLedgerAction, WorkflowStoredGateStatus,
};
use crate::defaults::spec_claw_default;
use crate::init::{
    answers, artifact_location, next_artifact, report_of, session_ok, spec_artifact_stub,
    spec_init_start, spec_init_step, InitActionView, InitEventView, InitSessionView, InitStage,
};
use crate::validate::lemma_config_problem_iff_valid;
use crate::paths::{is_parent_component_at, path_joined};
use crate::cli::{
    spec_parse_approve_from, spec_parse_gate, spec_parse_init_from, spec_parse_return_from,
    spec_parse_workflow_args,
    split_from, split_start, spec_split_repl_args, CliCommandView, QuoteKind, SplitState,
};
use crate::text::{is_white_space, joined, trimmed};
use crate::validate::{
    config_valid, is_phase_id_char, lemma_state_problem_iff_fits, phase_problem, state_fits,
};

verus! {

/// Every approved phase comes before every phase that is not approved.
pub open spec fn approvals_form_prefix(s: StateView) -> bool {
    forall|i: int, j: int|
        0 <= i < j < s.phases.len() && #[trigger] s.phases[j].gate == WorkflowStoredGateStatus::Approved
            ==> #[trigger] s.phases[i].gate == WorkflowStoredGateStatus::Approved
}

/// Ledger entry `i` has sequence number `i + 1`.
pub open spec fn ledger_numbered(s: StateView) -> bool {
    forall|i: int| 0 <= i < s.ledger.len() ==> (#[trigger] s.ledger[i]).sequence == i + 1
}

/// The number of approved phases is `m` when exactly the first `m` are approved.
pub proof fn lemma_approved_count_prefix(phases: Seq<PhaseStateView>, m: int)
    requires
        0 <= m <= phases.len(),
        forall|i: int| 0 <= i < m ==> #[trigger] phases[i].gate == WorkflowStoredGateStatus::Approved,
        forall|i: int| m <= i < phases.len() ==> #[trigger] phases[i].gate != WorkflowStoredGateStatus::Approved,
    ensures
        approved_count(phases) == m,
    decreases phases.len(),
{
    if phases.len() > 0 {
        let init = phases.drop_last();
        if m == phases.len() {
            lemma_approved_count_prefix(init, m - 1);
        } else {
            lemma_approved_count_prefix(init, m);
        }
    }
}

/// Approving one phase that was not approved adds one to the count.
pub proof fn lemma_approved_count_update(phases: Seq<PhaseStateView>, k: int, p: PhaseStateView)
    requires
        0 <= k < phases.len(),
        phases[k].gate != WorkflowStoredGateStatus::Approved,
        p.gate == WorkflowStoredGateStatus::Approved,
    ensures
        approved_count(phases.update(k, p)) == approved_count(phases) + 1,
    decreases phases.len(),
{
    let u = phases.update(k, p);
    if k == phases.len() - 1 {
        assert(u.drop_last() =~= phases.drop_last());
    } else {
        lemma_approved_count_update(phases.drop_last(), k, p);
        assert(u.drop_last() =~= phases.drop_last().update(k, p));
    }
}

/// All phases are approved exactly when the count of approved phases is the
/// number of phases.
pub proof fn lemma_approved_count_all(phases: Seq<PhaseStateView>)
    ensures
        approved_count(phases) == phases.len() <==> forall|i: int|
            0 <= i < phases.len() ==> #[trigger] phases[i].gate == WorkflowStoredGateStatus::Approved,
    decreases phases.len(),
{
    if phases.len() > 0 {
        let init = phases.drop_last();
        lemma_approved_count_all(init);
        crate::gate::lemma_approved_count_bound(init);
        if forall|i: int| 0 <= i < phases.len() ==> #[trigger] phases[i].gate == WorkflowStoredGateStatus::Approved {
            assert forall|i: int| 0 <= i < init.len() implies #[trigger] init[i].gate == WorkflowStoredGateStatus::Approved by {
                assert(init[i] == phases[i]);
            }
        } else {
            let i = choose|i: int| 0 <= i < phases.len() && #[trigger] phases[i].gate != WorkflowStoredGateStatus::Approved;
            if i < init.len() {
                assert(init[i] == phases[i]);
            }
        }
    }
}

/// When approvals form a prefix, the approved count is the current gate's
/// index (the number of phases once all are approved).
pub proof fn law_approved_count_is_progress(s: StateView)
    requires
        approvals_form_prefix(s),
    ensures
        approved_count(s.phases) == match current_index(s) {
            Some(k) => k,
            None => s.phases.len() as int,
        },
{
    lemma_current_index(s);
    match current_index(s) {
        Some(k) => {
            assert forall|i: int| k <= i < s.phases.len() implies #[trigger] s.phases[i].gate != WorkflowStoredGateStatus::Approved by {
                if i > k && s.phases[i].gate == WorkflowStoredGateStatus::Approved {
                    assert(s.phases[k].gate == WorkflowStoredGateStatus::Approved);
                }
            }
            lemma_approved_count_prefix(s.phases, k);
        },
        None => {
            lemma_approved_count_prefix(s.phases, s.phases.len() as int);
        },
    }
}

/// A fresh workflow has nothing approved, an empty ledger, and its first
/// phase as the current gate.
pub proof fn law_fresh_workflow_starts_at_first_phase(c: ConfigView)
    requires
        config_valid(c),
    ensures
        state_fits(spec_pending_for(c), c),
        current_index(spec_pending_for(c)) == Some(0int),
        approved_count(spec_pending_for(c).phases) == 0,
        approvals_form_prefix(spec_pending_for(c)),
        ledger_numbered(spec_pending_for(c)),
        spec_pending_for(c).ledger.len() == 0,
{
    let s = spec_pending_for(c);
    lemma_current_index_is(s, 0);
    lemma_approved_count_prefix(s.phases, 0);
}

/// An approval of the current gate: that phase is approved with the normalized
/// note, nothing else changes in the phases, the count of approved phases
/// goes up by one, the ledger gains exactly one entry numbered after the
/// others, and the state still fits the configuration. When approvals form
/// a prefix they still do, and the next phase (if any) becomes the current
/// gate.
pub proof fn law_approve_advances(
    st: StoreView,
    phase_id: Option<Seq<char>>,
    note: Option<Seq<char>>,
    now: Result<u64, WorkflowErrorView>,
)
    requires
        store_valid(st),
        st.state.ledger.len() < u64::MAX,
        spec_approve(st, phase_id, note, now) is Ok,
    ensures
        ({
            let (s2, m) = spec_approve(st, phase_id, note, now)->Ok_0;
            let k = current_index(st.state)->0;
            &&& current_index(st.state) is Some
            &&& m.phase_id == st.config.phases[k].id
            &&& m.action == WorkflowLedgerAction::Approved
            &&& s2.phases.len() == st.state.phases.len()
            &&& s2.phases[k].gate == WorkflowStoredGateStatus::Approved
            &&& forall|j: int| 0 <= j < s2.phases.len() && j != k ==> #[trigger] s2.phases[j] == st.state.phases[j]
            &&& approved_count(s2.phases) == approved_count(st.state.phases) + 1
            &&& m.snapshot.approved_count == approved_count(st.state.phases) + 1
            &&& s2.ledger.len() == st.state.ledger.len() + 1
            &&& s2.ledger.take(st.state.ledger.len() as int) == st.state.ledger
            &&& s2.ledger.last().sequence == st.state.ledger.len() + 1
            &&& s2.ledger.last().action == WorkflowLedgerAction::Approved
            &&& s2.ledger.last().phase_id == st.config.phases[k].id
            &&& (phase_id is Some ==> m.phase_id == phase_id->0)
            &&& m.snapshot == spec_snapshot(StoreView { state: s2, ..st })
            &&& now is Ok
            &&& m.note == (if note is Some && trimmed(note->0).len() > 0 {
                Some(trimmed(note->0))
            } else {
                None::<Seq<char>>
            })
            &&& s2.phases[k].note == m.note
            &&& s2.phases[k].updated_at_unix_s == Some(now->Ok_0)
            &&& s2.ledger.last().note == m.note
            &&& s2.ledger.last().created_at_unix_s == now->Ok_0
            &&& m.snapshot.ledger_entries == st.state.ledger.len() + 1
            &&& m.snapshot.phases.len() == s2.phases.len()
            &&& m.snapshot.phases[k].note == m.note
            &&& m.snapshot.phases[k].updated_at_unix_s == Some(now->Ok_0)
            &&& (ledger_numbered(st.state) ==> ledger_numbered(s2))
            &&& state_fits(s2, st.config)
            &&& (approvals_form_prefix(st.state) ==> {
                &&& approvals_form_prefix(s2)
                &&& current_index(s2) == if k + 1 < s2.phases.len() {
                    Some(k + 1)
                } else {
                    None::<int>
                }
                &&& m.snapshot.current_phase_id == if k + 1 < s2.phases.len() {
                    Some(st.config.phases[k + 1].id)
                } else {
                    None::<Seq<char>>
                }
                &&& m.snapshot.is_complete == (k + 1 == s2.phases.len())
            })
        }),
{
    let (s2, m) = spec_approve(st, phase_id, note, now)->Ok_0;
    lemma_current_index(st.state);
    let k = current_index(st.state)->0;
    let n = s2.phases.len();
    lemma_approved_count_update(st.state.phases, k, s2.phases[k]);
    assert(s2.phases =~= st.state.phases.update(k, s2.phases[k]));
    assert(s2.ledger.take(st.state.ledger.len() as int) =~= st.state.ledger);
    if ledger_numbered(st.state) {
        assert forall|i: int| 0 <= i < s2.ledger.len() implies (#[trigger] s2.ledger[i]).sequence == i + 1 by {
            if i < st.state.ledger.len() {
                assert(s2.ledger[i] == st.state.ledger[i]);
            }
        }
    }
    if approvals_form_prefix(st.state) {
        assert forall|j: int| k < j < n implies #[trigger] st.state.phases[j].gate != WorkflowStoredGateStatus::Approved by {
            if st.state.phases[j].gate == WorkflowStoredGateStatus::Approved {
                assert(st.state.phases[k].gate == WorkflowStoredGateStatus::Approved);
            }
        }
        assert forall|i: int, j: int|
            0 <= i < j < n && #[trigger] s2.phases[j].gate == WorkflowStoredGateStatus::Approved
                implies #[trigger] s2.phases[i].gate == WorkflowStoredGateStatus::Approved by {
            if j > k {
                assert(s2.phases[j] == st.state.phases[j]);
            }
            if i != k {
                assert(s2.phases[i] == st.state.phases[i]);
            }
        }
        if k + 1 < n {
            assert forall|j: int| 0 <= j < k + 1 implies #[trigger] s2.phases[j].gate == WorkflowStoredGateStatus::Approved by {
                if j != k {
                    assert(s2.phases[j] == st.state.phases[j]);
                }
            }
            assert(s2.phases[k + 1] == st.state.phases[k + 1]);
            lemma_current_index_is(s2, k + 1);
        } else {
            lemma_current_index(s2);
            if current_index(s2) is Some {
                let c = current_index(s2)->0;
                if c != k {
                    assert(s2.phases[c] == st.state.phases[c]);
                }
            }
        }
    }
}

/// Returning a gate: the target phase becomes the current gate and is shown
/// as returned with the reason; every earlier phase stays approved and
/// unchanged; every later phase is pending again with no note and no time;
/// the approved count is the target's index; approvals form a prefix; the
/// ledger gains exactly one entry numbered after the others; and the state
/// still fits the configuration.
pub proof fn law_return_reopens(
    st: StoreView,
    phase_id: Option<Seq<char>>,
    reason: Seq<char>,
    now: Result<u64, WorkflowErrorView>,
)
    requires
        store_valid(st),
        st.state.ledger.len() < u64::MAX,
        spec_return(st, phase_id, reason, now) is Ok,
    ensures
        ({
            let (s2, m) = spec_return(st, phase_id, reason, now)->Ok_0;
            let k = return_target(st, phase_id)->Ok_0;
            &&& return_target(st, phase_id) is Ok
            &&& 0 <= k < st.config.phases.len()
            &&& m.phase_id == st.config.phases[k].id
            &&& m.action == WorkflowLedgerAction::Returned
            &&& current_index(s2) == Some(k)
            &&& m.snapshot.current_phase_id == Some(st.config.phases[k].id)
            &&& s2.phases[k].gate == WorkflowStoredGateStatus::Returned
            &&& m.snapshot.phases[k].status == WorkflowDisplayStatus::Returned
            &&& forall|j: int| 0 <= j < k ==> #[trigger] s2.phases[j] == st.state.phases[j]
                && s2.phases[j].gate == WorkflowStoredGateStatus::Approved
            &&& forall|j: int| k < j < s2.phases.len() ==> #[trigger] s2.phases[j] == pending_phase(st.state.phases[j].phase_id)
                && m.snapshot.phases[j].status == WorkflowDisplayStatus::Blocked
            &&& approved_count(s2.phases) == k
            &&& m.snapshot.approved_count == k
            &&& approvals_form_prefix(s2)
            &&& s2.ledger.len() == st.state.ledger.len() + 1
            &&& s2.ledger.take(st.state.ledger.len() as int) == st.state.ledger
            &&& s2.ledger.last().sequence == st.state.ledger.len() + 1
            &&& s2.ledger.last().action == WorkflowLedgerAction::Returned
            &&& s2.ledger.last().phase_id == st.config.phases[k].id
            &&& (phase_id is Some ==> m.phase_id == phase_id->0)
            &&& (phase_id is None ==> current_index(st.state) == Some(k))
            &&& m.snapshot == spec_snapshot(StoreView { state: s2, ..st })
            &&& now is Ok
            &&& trimmed(reason).len() > 0
            &&& m.note == Some(trimmed(reason))
            &&& s2.phases[k].note == Some(trimmed(reason))
            &&& s2.phases[k].updated_at_unix_s == Some(now->Ok_0)
            &&& s2.ledger.last().note == Some(trimmed(reason))
            &&& s2.ledger.last().created_at_unix_s == now->Ok_0
            &&& m.snapshot.ledger_entries == st.state.ledger.len() + 1
            &&& m.snapshot.phases.len() == s2.phases.len()
            &&& m.snapshot.phases[k].note == Some(trimmed(reason))
            &&& m.snapshot.phases[k].updated_at_unix_s == Some(now->Ok_0)
            &&& (ledger_numbered(st.state) ==> ledger_numbered(s2))
            &&& state_fits(s2, st.config)
        }),
{
    let (s2, m) = spec_return(st, phase_id, reason, now)->Ok_0;
    let k = return_target(st, phase_id)->Ok_0;
    let n = s2.phases.len();
    lemma_current_index(st.state);
    match phase_id {
        Some(p) => {
            lemma_phase_index_from(st.config.phases, p, 0);
        },
        None => {},
    }
    assert forall|j: int| 0 <= j < k implies #[trigger] st.state.phases[j].gate == WorkflowStoredGateStatus::Approved by {
        match current_index(st.state) {
            Some(c) => {
                assert(c >= k);
            },
            None => {},
        }
    }
    assert forall|j: int| 0 <= j < k implies #[trigger] s2.phases[j].gate == WorkflowStoredGateStatus::Approved by {
        assert(s2.phases[j] == st.state.phases[j]);
    }
    lemma_current_index_is(s2, k);
    assert forall|j: int| k <= j < n implies #[trigger] s2.phases[j].gate != WorkflowStoredGateStatus::Approved by {}
    lemma_approved_count_prefix(s2.phases, k);
    assert(s2.ledger.take(st.state.ledger.len() as int) =~= st.state.ledger);
    if ledger_numbered(st.state) {
        assert forall|i: int| 0 <= i < s2.ledger.len() implies (#[trigger] s2.ledger[i]).sequence == i + 1 by {
            if i < st.state.ledger.len() {
                assert(s2.ledger[i] == st.state.ledger[i]);
            }
        }
    }
    assert forall|i: int, j: int|
        0 <= i < j < n && #[trigger] s2.phases[j].gate == WorkflowStoredGateStatus::Approved
            implies #[trigger] s2.phases[i].gate == WorkflowStoredGateStatus::Approved by {
        assert(j < k);
    }
}

/// An approval succeeds exactly when some phase is still unapproved, the
/// phase named (if any) is the current gate, and the clock could be read.
pub proof fn law_approve_succeeds_exactly(
    st: StoreView,
    phase_id: Option<Seq<char>>,
    note: Option<Seq<char>>,
    now: Result<u64, WorkflowErrorView>,
)
    requires
        store_valid(st),
    ensures
        spec_approve(st, phase_id, note, now) is Ok <==> {
            &&& exists|j: int| 0 <= j < st.state.phases.len() && #[trigger] st.state.phases[j].gate != WorkflowStoredGateStatus::Approved
            &&& (phase_id is Some ==> phase_id->0 == st.config.phases[current_index(st.state)->0].id)
            &&& now is Ok
        },
{
    lemma_current_index(st.state);
    if current_index(st.state) is Some {
        let k = current_index(st.state)->0;
        assert(st.state.phases[k].gate != WorkflowStoredGateStatus::Approved);
    }
}

/// A return succeeds exactly when the clock could be read, the reason is
/// not blank, and the target exists: the named phase, which must be
/// configured and not beyond the current gate, or else the current gate.
pub proof fn law_return_succeeds_exactly(
    st: StoreView,
    phase_id: Option<Seq<char>>,
    reason: Seq<char>,
    now: Result<u64, WorkflowErrorView>,
)
    requires
        store_valid(st),
    ensures
        spec_return(st, phase_id, reason, now) is Ok <==> {
            &&& now is Ok
            &&& trimmed(reason).len() > 0
            &&& match phase_id {
                None => current_index(st.state) is Some,
                Some(p) => exists|j: int| {
                    &&& 0 <= j < st.config.phases.len()
                    &&& #[trigger] st.config.phases[j].id == p
                    &&& (current_index(st.state) is None || j <= current_index(st.state)->0)
                },
            }
        },
{
    lemma_current_index(st.state);
    match phase_id {
        Some(p) => {
            lemma_phase_index_from(st.config.phases, p, 0);
            match crate::gate::spec_phase_index(st.config, p) {
                Some(idx) => {
                    assert forall|j: int| 0 <= j < st.config.phases.len() && #[trigger] st.config.phases[j].id == p implies j == idx by {
                        if j < idx {
                            assert(st.config.phases[j].id != st.config.phases[idx].id);
                        } else if j > idx {
                            assert(st.config.phases[idx].id != st.config.phases[j].id);
                        }
                    }
                },
                None => {},
            }
        },
        None => {},
    }
}

/// A snapshot is complete exactly when every phase is approved; then the
/// approved count equals the number of phases and there is no current gate.
/// Exactly the current gate is shown as current or returned.
pub proof fn law_snapshot_completion(st: StoreView)
    requires
        st.state.phases.len() == st.config.phases.len(),
    ensures
        spec_snapshot(st).is_complete <==> spec_snapshot(st).approved_count == spec_snapshot(st).total_phases,
        spec_snapshot(st).is_complete <==> spec_snapshot(st).current_phase_id is None,
        spec_snapshot(st).ledger_entries == st.state.ledger.len(),
        spec_snapshot(st).total_phases == st.config.phases.len(),
        spec_snapshot(st).phases.len() == st.config.phases.len(),
        spec_snapshot(st).config_path == st.config_path,
        spec_snapshot(st).state_path == st.state_path,
        current_index(st.state) is Some ==> spec_snapshot(st).current_phase_id == Some(st.config.phases[current_index(st.state)->0].id),
        forall|i: int| 0 <= i < st.config.phases.len() ==> {
            &&& (#[trigger] spec_snapshot(st).phases[i]).id == st.config.phases[i].id
            &&& spec_snapshot(st).phases[i].title == st.config.phases[i].title
            &&& spec_snapshot(st).phases[i].role == st.config.phases[i].role
            &&& spec_snapshot(st).phases[i].summary == st.config.phases[i].summary
            &&& spec_snapshot(st).phases[i].artifact_path == st.config.phases[i].artifact_path
            &&& spec_snapshot(st).phases[i].note == st.state.phases[i].note
            &&& spec_snapshot(st).phases[i].updated_at_unix_s == st.state.phases[i].updated_at_unix_s
            &&& (spec_snapshot(st).phases[i].status == WorkflowDisplayStatus::Approved
                <==> st.state.phases[i].gate == WorkflowStoredGateStatus::Approved)
            &&& (spec_snapshot(st).phases[i].status == WorkflowDisplayStatus::Returned
                <==> (current_index(st.state) == Some(i) && st.state.phases[i].gate == WorkflowStoredGateStatus::Returned))
            &&& (spec_snapshot(st).phases[i].status == WorkflowDisplayStatus::Blocked
                <==> (current_index(st.state) != Some(i) && st.state.phases[i].gate != WorkflowStoredGateStatus::Approved))
        },
        forall|i: int| 0 <= i < st.config.phases.len() ==> (
            (#[trigger] spec_snapshot(st).phases[i].status == WorkflowDisplayStatus::Current
                || spec_snapshot(st).phases[i].status == WorkflowDisplayStatus::Returned)
            <==> current_index(st.state) == Some(i)),
{
    lemma_current_index(st.state);
    lemma_approved_count_all(st.state.phases);
}


/// Whether every character of `s` from `i` on may appear in a phase id.
pub open spec fn id_chars_from(s: Seq<char>, i: int) -> bool
    decreases s.len() - i,
{
    if i < 0 || i >= s.len() {
        true
    } else {
        is_phase_id_char(s[i]) && id_chars_from(s, i + 1)
    }
}

proof fn lemma_id_chars_from(s: Seq<char>, i: int)
    requires
        0 <= i <= s.len(),
        id_chars_from(s, i),
    ensures
        forall|k: int| i <= k < s.len() ==> is_phase_id_char(#[trigger] s[k]),
    decreases s.len() - i,
{
    if i < s.len() {
        lemma_id_chars_from(s, i + 1);
    }
}

/// Whether no `..` component starts at or after index `i` of `p`.
pub open spec fn no_parent_from(p: Seq<char>, i: int) -> bool
    decreases p.len() - i,
{
    if i < 0 || i >= p.len() {
        true
    } else {
        !is_parent_component_at(p, i) && no_parent_from(p, i + 1)
    }
}

proof fn lemma_no_parent_from(p: Seq<char>, i: int)
    requires
        0 <= i <= p.len(),
        no_parent_from(p, i),
    ensures
        forall|k: int| i <= k ==> !#[trigger] is_parent_component_at(p, k),
    decreases p.len() - i,
{
    if i < p.len() {
        lemma_no_parent_from(p, i + 1);
    }
}

proof fn lemma_not_blank(s: Seq<char>)
    requires
        s.len() > 0,
        !is_white_space(s[0]),
        !is_white_space(s[s.len() - 1]),
    ensures
        trimmed(s).len() > 0,
{
    assert(crate::text::trim_start_from(s, 0) == 0);
    assert(crate::text::trim_end_to(s, 0, s.len() as int) == s.len());
}

proof fn lemma_phase_ok(p: crate::model::PhaseDefinitionView)
    requires
        p.id.len() > 0,
        id_chars_from(p.id, 0),
        p.title.len() > 0 && !is_white_space(p.title[0]) && !is_white_space(p.title.last()),
        p.role.len() > 0 && !is_white_space(p.role[0]) && !is_white_space(p.role.last()),
        p.summary.len() > 0 && !is_white_space(p.summary[0]) && !is_white_space(p.summary.last()),
        p.artifact_path.len() > 0 && p.artifact_path[0] == '.' && !is_white_space(p.artifact_path.last()),
        no_parent_from(p.artifact_path, 0),
    ensures
        phase_problem(p) is None,
{
    lemma_id_chars_from(p.id, 0);
    lemma_not_blank(p.title);
    lemma_not_blank(p.role);
    lemma_not_blank(p.summary);
    lemma_not_blank(p.artifact_path);
    lemma_no_parent_from(p.artifact_path, 0);
}

/// The built-in workflow is a valid configuration.
pub proof fn law_claw_default_valid()
    ensures
        config_valid(spec_claw_default()),
{
    let c = spec_claw_default();
    reveal_strlit("scope");
    reveal_strlit("plan");
    reveal_strlit("implement");
    reveal_strlit("review");
    reveal_strlit("verify");
    reveal_strlit("Scope & constraints");
    reveal_strlit("Plan & interface changes");
    reveal_strlit("Implementation log");
    reveal_strlit("Review findings");
    reveal_strlit("Verification & handoff");
    reveal_strlit("Discovery");
    reveal_strlit("Design");
    reveal_strlit("Build");
    reveal_strlit("Review");
    reveal_strlit("QA");
    reveal_strlit("Clarify the task, constraints, assumptions, and success criteria before coding.");
    reveal_strlit("Describe the implementation plan, touched files, and verification strategy.");
    reveal_strlit("Capture the shipped change set, key decisions, and follow-up items.");
    reveal_strlit("Record behavioral risks, review findings, and fixes before sign-off.");
    reveal_strlit("Track tests run, observed results, and handoff notes for the next operator.");
    reveal_strlit(".claw/workflow/scope.md");
    reveal_strlit(".claw/workflow/plan.md");
    reveal_strlit(".claw/workflow/implement.md");
    reveal_strlit(".claw/workflow/review.md");
    reveal_strlit(".claw/workflow/verify.md");
    assert(id_chars_from(c.phases[0].id, 0)) by { reveal_with_fuel(id_chars_from, 12); }
    assert(id_chars_from(c.phases[1].id, 0)) by { reveal_with_fuel(id_chars_from, 12); }
    assert(id_chars_from(c.phases[2].id, 0)) by { reveal_with_fuel(id_chars_from, 12); }
    assert(id_chars_from(c.phases[3].id, 0)) by { reveal_with_fuel(id_chars_from, 12); }
    assert(id_chars_from(c.phases[4].id, 0)) by { reveal_with_fuel(id_chars_from, 12); }
    assert(no_parent_from(c.phases[0].artifact_path, 0)) by { reveal_with_fuel(no_parent_from, 30); }
    assert(no_parent_from(c.phases[1].artifact_path, 0)) by { reveal_with_fuel(no_parent_from, 30); }
    assert(no_parent_from(c.phases[2].artifact_path, 0)) by { reveal_with_fuel(no_parent_from, 30); }
    assert(no_parent_from(c.phases[3].artifact_path, 0)) by { reveal_with_fuel(no_parent_from, 30); }
    assert(no_parent_from(c.phases[4].artifact_path, 0)) by { reveal_with_fuel(no_parent_from, 30); }
    lemma_phase_ok(c.phases[0]);
    lemma_phase_ok(c.phases[1]);
    lemma_phase_ok(c.phases[2]);
    lemma_phase_ok(c.phases[3]);
    lemma_phase_ok(c.phases[4]);
    assert forall|i: int| 0 <= i < c.phases.len() implies phase_problem(#[trigger] c.phases[i]) is None by {
        if i == 0 {} else if i == 1 {} else if i == 2 {} else if i == 3 {} else {}
    }
    assert forall|i: int, j: int| 0 <= i < j < c.phases.len() implies #[trigger] c.phases[i].id != #[trigger] c.phases[j].id by {
        if c.phases[i].id.len() == c.phases[j].id.len() {
            assert(c.phases[i].id[0] != c.phases[j].id[0]);
        }
    }
}


/// Initialization only ever writes a valid configuration, to the
/// workspace's configuration path; only ever writes the pending state of
/// that configuration, to the workspace's state path; and when it succeeds,
/// reports one artifact per phase, in order, at the phase's artifact path
/// inside the workspace. Every step keeps the session consistent.
pub proof fn law_init_writes_only_valid_files(s: InitSessionView, ev: InitEventView)
    requires
        session_ok(s),
        answers(s.stage, ev),
    ensures
        session_ok(spec_init_step(s, ev).0),
        match spec_init_step(s, ev).1 {
            InitActionView::WriteConfig(p, c) => p == s.config_path && config_valid(c),
            InitActionView::WriteState(p, st) => p == s.state_path && config_valid(spec_init_step(s, ev).0.config)
                && st == spec_pending_for(spec_init_step(s, ev).0.config)
                && state_fits(st, spec_init_step(s, ev).0.config),
            InitActionView::Finish(Ok(report)) => {
                let c = spec_init_step(s, ev).0.config;
                &&& report.config_path == s.config_path
                &&& report.state_path == s.state_path
                &&& report.artifacts.len() == c.phases.len()
                &&& forall|i: int| 0 <= i < c.phases.len() ==> (#[trigger] report.artifacts[i]).path == artifact_location(s.cwd, c.phases[i])
            },
            _ => true,
        },
{
    law_claw_default_valid();
    match ev {
        InitEventView::ConfigRead(Ok(c)) => {
            lemma_config_problem_iff_valid(c);
        },
        _ => {},
    }
    lemma_config_problem_iff_valid(s.config);
    let s2 = spec_init_step(s, ev).0;
    lemma_config_problem_iff_valid(s2.config);
}

/// A session starts consistent.
pub proof fn law_init_start_ok(cwd: Seq<char>, template_path: Option<Seq<char>>, force: bool)
    ensures
        session_ok(spec_init_start(cwd, template_path, force).0),
{
}

/// The order of initialization's stages.
pub open spec fn stage_rank(st: InitStage) -> int {
    match st {
        InitStage::CheckConfig => 0,
        InitStage::ReadTemplate => 1,
        InitStage::ReadExistingConfig => 1,
        InitStage::WriteConfig => 2,
        InitStage::CheckState => 3,
        InitStage::ReadState => 4,
        InitStage::WriteState => 5,
        InitStage::CheckArtifact => 6,
        InitStage::WriteArtifact => 6,
        InitStage::Done => 7,
    }
}

/// How much artifact work is left: two steps per artifact still to ensure.
pub open spec fn artifact_work_left(s: InitSessionView) -> int {
    let left = 2 * (s.config.phases.len() - s.artifacts.len());
    if s.stage == InitStage::WriteArtifact {
        left - 1
    } else {
        left
    }
}

/// Initialization always moves forward: every answer takes it to a later
/// stage, or, among the artifacts, closer to the last one; so it finishes
/// after finitely many steps.
pub proof fn law_init_moves_forward(s: InitSessionView, ev: InitEventView)
    requires
        session_ok(s),
        answers(s.stage, ev),
    ensures
        ({
            let s2 = spec_init_step(s, ev).0;
            ||| stage_rank(s2.stage) > stage_rank(s.stage)
            ||| (stage_rank(s2.stage) == 6 && stage_rank(s.stage) == 6
                && 0 <= artifact_work_left(s2) < artifact_work_left(s))
        }),
{
}


/// Text without white space, quotes or backslashes.
pub open spec fn plain_chars(w: Seq<char>) -> bool {
    forall|i: int|
        0 <= i < w.len() ==> !is_white_space(#[trigger] w[i]) && w[i] != '\'' && w[i] != '"' && w[i] != '\\'
}

/// A word that splitting leaves alone: not empty, and without white space,
/// quotes or backslashes.
pub open spec fn plain_word(w: Seq<char>) -> bool {
    w.len() > 0 && plain_chars(w)
}

/// Splitting a line that ends with `r` reads `r` the same way wherever it
/// starts.
proof fn lemma_split_shift(p: Seq<char>, r: Seq<char>, j: int, st: SplitState)
    requires
        0 <= j <= r.len(),
    ensures
        split_from(p + r, p.len() + j, st) == split_from(r, j, st),
    decreases r.len() - j,
{
    let line = p + r;
    let i = p.len() + j;
    if j < r.len() {
        assert(line[i] == r[j]);
        if j + 1 < r.len() {
            assert(line[i + 1] == r[j + 1]);
        }
        let c = r[j];
        match st.quote {
            None => {
                if c == '\'' {
                    lemma_split_shift(p, r, j + 1, SplitState { quote: Some(crate::cli::QuoteKind::Single), started: true, ..st });
                } else if c == '"' {
                    lemma_split_shift(p, r, j + 1, SplitState { quote: Some(crate::cli::QuoteKind::Double), started: true, ..st });
                } else if c == '\\' {
                    if j + 1 < r.len() {
                        lemma_split_shift(p, r, j + 2, crate::cli::with_char(st, r[j + 1]));
                    }
                } else if is_white_space(c) {
                    if st.started {
                        lemma_split_shift(p, r, j + 1, SplitState { args: st.args.push(st.token), token: Seq::empty(), started: false, quote: None });
                    } else {
                        lemma_split_shift(p, r, j + 1, st);
                    }
                } else {
                    lemma_split_shift(p, r, j + 1, crate::cli::with_char(st, c));
                }
            },
            Some(crate::cli::QuoteKind::Single) => {
                if c == '\'' {
                    lemma_split_shift(p, r, j + 1, SplitState { quote: None, ..st });
                } else {
                    lemma_split_shift(p, r, j + 1, crate::cli::with_char(st, c));
                }
            },
            Some(crate::cli::QuoteKind::Double) => {
                if c == '"' {
                    lemma_split_shift(p, r, j + 1, SplitState { quote: None, ..st });
                } else if c == '\\' {
                    if j + 1 < r.len() {
                        lemma_split_shift(p, r, j + 2, crate::cli::with_char(st, r[j + 1]));
                    }
                } else {
                    lemma_split_shift(p, r, j + 1, crate::cli::with_char(st, c));
                }
            },
        }
    }
}

/// Reading the first `k` characters of a plain word adds them to the
/// argument being read.
proof fn lemma_split_word(line: Seq<char>, i: int, w: Seq<char>, k: int, st: SplitState)
    requires
        plain_chars(w),
        0 <= k <= w.len(),
        0 <= i,
        i + w.len() <= line.len(),
        line.subrange(i, i + w.len()) == w,
        st.quote is None,
        st.started,
    ensures
        split_from(line, i, SplitState { token: st.token, ..st }) == split_from(
            line,
            i + k,
            SplitState { token: st.token + w.take(k), ..st },
        ),
    decreases k,
{
    if k > 0 {
        lemma_split_word(line, i, w, k - 1, st);
        let c = w[k - 1];
        assert(line[i + k - 1] == c);
        assert(st.token + w.take(k) =~= (st.token + w.take(k - 1)).push(c));
    } else {
        assert(st.token + w.take(0) =~= st.token);
    }
}

/// The arguments read from plain words separated by single spaces, after
/// arguments `a`.
proof fn lemma_split_plain_words(words: Seq<Seq<char>>, a: Seq<Seq<char>>)
    requires
        forall|i: int| 0 <= i < words.len() ==> plain_word(#[trigger] words[i]),
    ensures
        split_from(spaced(words), 0, SplitState { args: a, token: Seq::empty(), started: false, quote: None })
            == Ok::<Seq<Seq<char>>, Seq<char>>(a + words),
    decreases words.len(),
{
    let st0 = SplitState { args: a, token: Seq::<char>::empty(), started: false, quote: None };
    if words.len() == 0 {
        assert(a + words =~= a);
    } else {
        let w = words[0];
        assert(plain_word(w));
        let line = spaced(words);
        assert(line.subrange(0, w.len() as int) =~= w);
        // The first character starts the argument.
        let st1 = SplitState { args: a, token: seq![w[0]], started: true, quote: None };
        assert(split_from(line, 0, st0) == split_from(line, 1, st1));
        assert(line.subrange(1, w.len() as int) =~= w.drop_first());
        lemma_split_word(line, 1, w.drop_first(), (w.len() - 1) as int, st1);
        assert(seq![w[0]] + w.drop_first().take((w.len() - 1) as int) =~= w);
        let st2 = SplitState { args: a, token: w, started: true, quote: None };
        if w.len() > 1 {
            assert(split_from(line, 0, st0) == split_from(line, w.len() as int, st2));
        } else {
            assert(seq![w[0]] =~= w);
        }
        if words.len() == 1 {
            assert(line =~= w);
            assert(a + words =~= a.push(w));
        } else {
            let rest = words.drop_first();
            assert(line =~= (w + seq![' ']) + spaced(rest));
            assert(line[w.len() as int] == ' ');
            let st3 = SplitState { args: a.push(w), token: Seq::<char>::empty(), started: false, quote: None };
            assert(split_from(line, w.len() as int, st2) == split_from(line, (w.len() + 1) as int, st3));
            lemma_split_shift(w + seq![' '], spaced(rest), 0, st3);
            lemma_split_plain_words(rest, a.push(w));
            assert(a.push(w) + rest =~= a + words);
        }
    }
}

/// Plain words separated by single spaces.
pub open spec fn spaced(words: Seq<Seq<char>>) -> Seq<char>
    decreases words.len(),
{
    if words.len() == 0 {
        Seq::empty()
    } else if words.len() == 1 {
        words[0]
    } else {
        words[0] + seq![' '] + spaced(words.drop_first())
    }
}

proof fn lemma_spaced_is_joined(words: Seq<Seq<char>>)
    ensures
        spaced(words) == joined(words, seq![' ']),
    decreases words.len(),
{
    let sep = seq![' '];
    if words.len() > 2 {
        let df = words.drop_first();
        let dl = words.drop_last();
        let mid = df.drop_last();
        lemma_spaced_is_joined(df);
        lemma_spaced_is_joined(dl);
        lemma_spaced_is_joined(mid);
        assert(mid =~= dl.drop_first());
        assert(df.last() == words.last());
        assert(dl[0] == words[0]);
        assert(joined(df, sep) == joined(mid, sep) + sep + words.last());
        assert(spaced(dl) == words[0] + sep + spaced(mid));
        assert(joined(words, sep) == joined(dl, sep) + sep + words.last());
        assert(spaced(words) == words[0] + sep + spaced(df));
        assert(spaced(words) =~= joined(words, sep));
    } else if words.len() == 2 {
        assert(words.drop_last() =~= seq![words[0]]);
        assert(words.drop_first() =~= seq![words[1]]);
        assert(joined(words.drop_last(), sep) == words[0]);
        assert(spaced(words.drop_first()) == words[1]);
        assert(spaced(words) =~= joined(words, sep));
    }
}

/// Splitting plain words joined by single spaces gives the words back.
pub proof fn law_split_plain_words_round_trip(words: Seq<Seq<char>>)
    requires
        forall|i: int| 0 <= i < words.len() ==> plain_word(#[trigger] words[i]),
    ensures
        spec_split_repl_args(joined(words, seq![' '])) == Ok::<Seq<Seq<char>>, Seq<char>>(words),
{
    lemma_spaced_is_joined(words);
    lemma_split_plain_words(words, Seq::empty());
    assert(Seq::<Seq<char>>::empty() + words =~= words);
    assert(split_start() == SplitState { args: Seq::<Seq<char>>::empty(), token: Seq::<char>::empty(), started: false, quote: None });
}

/// The words of `s[i..]` separated by white space, after the word `cur`
/// read so far: every maximal run of characters that are not white space,
/// in order, and no empty word (what `str::split_whitespace` gives).
pub open spec fn whitespace_words_from(s: Seq<char>, i: int, cur: Seq<char>) -> Seq<Seq<char>>
    decreases s.len() - i,
{
    let done: Seq<Seq<char>> = if cur.len() > 0 {
        seq![cur]
    } else {
        Seq::empty()
    };
    if i < 0 || i >= s.len() {
        done
    } else if is_white_space(s[i]) {
        done + whitespace_words_from(s, i + 1, Seq::empty())
    } else {
        whitespace_words_from(s, i + 1, cur.push(s[i]))
    }
}

/// The words of `s` separated by white space.
pub open spec fn whitespace_words(s: Seq<char>) -> Seq<Seq<char>> {
    whitespace_words_from(s, 0, Seq::empty())
}

/// Whether `s` holds no quote and no backslash.
pub open spec fn has_no_quoting(s: Seq<char>) -> bool {
    forall|i: int| 0 <= i < s.len() ==> #[trigger] s[i] != '\'' && s[i] != '"' && s[i] != '\\'
}

proof fn lemma_split_unquoted(line: Seq<char>, i: int, a: Seq<Seq<char>>, cur: Seq<char>)
    requires
        has_no_quoting(line),
        0 <= i <= line.len(),
    ensures
        split_from(line, i, SplitState { args: a, token: cur, started: cur.len() > 0, quote: None })
            == Ok::<Seq<Seq<char>>, Seq<char>>(a + whitespace_words_from(line, i, cur)),
    decreases line.len() - i,
{
    let st = SplitState { args: a, token: cur, started: cur.len() > 0, quote: None };
    if i >= line.len() {
        if cur.len() > 0 {
            assert(a + seq![cur] =~= a.push(cur));
        } else {
            assert(a + Seq::<Seq<char>>::empty() =~= a);
        }
    } else {
        let c = line[i];
        if is_white_space(c) {
            if cur.len() > 0 {
                lemma_split_unquoted(line, i + 1, a.push(cur), Seq::empty());
                assert(a.push(cur) + whitespace_words_from(line, i + 1, Seq::empty())
                    =~= a + (seq![cur] + whitespace_words_from(line, i + 1, Seq::empty())));
            } else {
                lemma_split_unquoted(line, i + 1, a, cur);
                assert(cur =~= Seq::<char>::empty());
                assert(Seq::<Seq<char>>::empty() + whitespace_words_from(line, i + 1, Seq::empty())
                    =~= whitespace_words_from(line, i + 1, Seq::empty()));
            }
        } else {
            lemma_split_unquoted(line, i + 1, a, cur.push(c));
            assert(crate::cli::with_char(st, c) == SplitState { args: a, token: cur.push(c), started: cur.push(c).len() > 0, quote: None });
        }
    }
}

/// A line without quotes or backslashes splits as white space splits it:
/// into its maximal runs of characters that are not white space, with no
/// empty argument, and never fails.
pub proof fn law_split_unquoted_is_whitespace_split(line: Seq<char>)
    requires
        has_no_quoting(line),
    ensures
        spec_split_repl_args(line) == Ok::<Seq<Seq<char>>, Seq<char>>(whitespace_words(line)),
{
    lemma_split_unquoted(line, 0, Seq::empty(), Seq::empty());
    assert(Seq::<Seq<char>>::empty() + whitespace_words(line) =~= whitespace_words(line));
    assert(split_start() == SplitState { args: Seq::<Seq<char>>::empty(), token: Seq::<char>::empty(), started: false, quote: None });
}

/// Whether scanning `s[i..]` with quote `q` open ends inside a quote or
/// right after a backslash that escapes nothing. Outside quotes a backslash
/// escapes the next character and `'` or `"` opens a quote; inside single
/// quotes only `'` matters; inside double quotes `"` closes and a backslash
/// escapes the next character.
pub open spec fn scan_ends_open(s: Seq<char>, i: int, q: Option<QuoteKind>) -> bool
    decreases s.len() - i,
{
    if i < 0 || i >= s.len() {
        q is Some
    } else {
        let c = s[i];
        match q {
            None => if c == '\'' {
                scan_ends_open(s, i + 1, Some(QuoteKind::Single))
            } else if c == '"' {
                scan_ends_open(s, i + 1, Some(QuoteKind::Double))
            } else if c == '\\' {
                i + 1 >= s.len() || scan_ends_open(s, i + 2, None)
            } else {
                scan_ends_open(s, i + 1, None)
            },
            Some(QuoteKind::Single) => if c == '\'' {
                scan_ends_open(s, i + 1, None)
            } else {
                scan_ends_open(s, i + 1, q)
            },
            Some(QuoteKind::Double) => if c == '"' {
                scan_ends_open(s, i + 1, None)
            } else if c == '\\' {
                i + 1 >= s.len() || scan_ends_open(s, i + 2, q)
            } else {
                scan_ends_open(s, i + 1, q)
            },
        }
    }
}

proof fn lemma_split_fails(line: Seq<char>, i: int, st: SplitState)
    requires
        0 <= i <= line.len(),
    ensures
        split_from(line, i, st) is Err <==> scan_ends_open(line, i, st.quote),
    decreases line.len() - i,
{
    if i < line.len() {
        let c = line[i];
        match st.quote {
            None => {
                if c == '\'' {
                    lemma_split_fails(line, i + 1, SplitState { quote: Some(QuoteKind::Single), started: true, ..st });
                } else if c == '"' {
                    lemma_split_fails(line, i + 1, SplitState { quote: Some(QuoteKind::Double), started: true, ..st });
                } else if c == '\\' {
                    if i + 1 < line.len() {
                        lemma_split_fails(line, i + 2, crate::cli::with_char(st, line[i + 1]));
                    }
                } else if is_white_space(c) {
                    if st.started {
                        lemma_split_fails(line, i + 1, SplitState { args: st.args.push(st.token), token: Seq::empty(), started: false, quote: None });
                    } else {
                        lemma_split_fails(line, i + 1, st);
                    }
                } else {
                    lemma_split_fails(line, i + 1, crate::cli::with_char(st, c));
                }
            },
            Some(QuoteKind::Single) => {
                if c == '\'' {
                    lemma_split_fails(line, i + 1, SplitState { quote: None, ..st });
                } else {
                    lemma_split_fails(line, i + 1, crate::cli::with_char(st, c));
                }
            },
            Some(QuoteKind::Double) => {
                if c == '"' {
                    lemma_split_fails(line, i + 1, SplitState { quote: None, ..st });
                } else if c == '\\' {
                    if i + 1 < line.len() {
                        lemma_split_fails(line, i + 2, crate::cli::with_char(st, line[i + 1]));
                    }
                } else {
                    lemma_split_fails(line, i + 1, crate::cli::with_char(st, c));
                }
            },
        }
    }
}

/// Splitting fails exactly when the line ends inside an unclosed quote or
/// right after a backslash that has nothing to escape.
pub proof fn law_split_fails_exactly_on_open_quote_or_backslash(line: Seq<char>)
    ensures
        spec_split_repl_args(line) is Err <==> scan_ends_open(line, 0, None),
{
    lemma_split_fails(line, 0, split_start());
}

/// A file in a workspace, as initialization sees it.
pub enum WorkspaceFile {
    /// A workflow configuration.
    Config(ConfigView),
    /// A workflow state.
    State(StateView),
    /// Any other text, such as an artifact.
    Text(Seq<char>),
}

/// How a workspace of files answers an action of initialization: a check
/// tells whether the path exists, a read gives back the configuration or
/// state that the file holds (and fails on a missing file or one of another
/// kind), and a write puts the file in place.
pub open spec fn workspace_answer(ws: Map<Seq<char>, WorkspaceFile>, a: InitActionView) -> (Map<Seq<char>, WorkspaceFile>, InitEventView) {
    match a {
        InitActionView::CheckExists(p) => (ws, InitEventView::Exists(ws.dom().contains(p))),
        InitActionView::ReadConfig(p) => (
            ws,
            InitEventView::ConfigRead(
                if ws.dom().contains(p) && ws[p] is Config {
                    Ok(ws[p]->Config_0)
                } else {
                    Err(WorkflowErrorView::Io(p))
                },
            ),
        ),
        InitActionView::ReadState(p) => (
            ws,
            InitEventView::StateRead(
                if ws.dom().contains(p) && ws[p] is State {
                    Ok(ws[p]->State_0)
                } else {
                    Err(WorkflowErrorView::Io(p))
                },
            ),
        ),
        InitActionView::WriteConfig(p, c) => (ws.insert(p, WorkspaceFile::Config(c)), InitEventView::Written(Ok(()))),
        InitActionView::WriteState(p, st) => (ws.insert(p, WorkspaceFile::State(st)), InitEventView::Written(Ok(()))),
        InitActionView::WriteArtifact(p, t) => (ws.insert(p, WorkspaceFile::Text(t)), InitEventView::Written(Ok(()))),
        // A run ends at its outcome and asks nothing more.
        InitActionView::Finish(_) => (ws, InitEventView::Written(Ok(()))),
    }
}

/// Initialization run against the workspace `ws` from session `s` with
/// pending action `a`, each action answered by the workspace, for at most
/// `fuel` steps: its outcome and the workspace it leaves, or `None` if it
/// has not finished by then.
pub open spec fn run_init(
    s: InitSessionView,
    a: InitActionView,
    ws: Map<Seq<char>, WorkspaceFile>,
    fuel: nat,
) -> Option<(Result<InitReportView, WorkflowErrorView>, Map<Seq<char>, WorkspaceFile>)>
    decreases fuel,
{
    match a {
        InitActionView::Finish(outcome) => Some((outcome, ws)),
        _ => if fuel == 0 {
            None
        } else {
            let (ws2, ev) = workspace_answer(ws, a);
            let (s2, a2) = spec_init_step(s, ev);
            run_init(s2, a2, ws2, (fuel - 1) as nat)
        },
    }
}

/// The workspace holds, at the session's configuration path, the session's
/// configuration.
pub open spec fn holds_config(ws: Map<Seq<char>, WorkspaceFile>, s: InitSessionView) -> bool {
    ws.dom().contains(s.config_path) && ws[s.config_path] == WorkspaceFile::Config(s.config)
}

/// The workspace holds the session's configuration, a state that fits it,
/// and every artifact ensured so far.
pub open spec fn holds_settled_files(ws: Map<Seq<char>, WorkspaceFile>, s: InitSessionView) -> bool {
    &&& holds_config(ws, s)
    &&& ws.dom().contains(s.state_path)
    &&& ws[s.state_path] is State
    &&& state_fits(ws[s.state_path]->State_0, s.config)
    &&& forall|i: int| 0 <= i < s.artifacts.len() ==> ws.dom().contains(#[trigger] s.artifacts[i].path)
}

/// How a run that started from `spec_init_start` stands: the session is
/// consistent, the pending action is the one its stage waits on, and the
/// workspace holds what the run has settled so far.
pub open spec fn run_consistent(s: InitSessionView, a: InitActionView, ws: Map<Seq<char>, WorkspaceFile>) -> bool {
    let k = s.artifacts.len() as int;
    &&& session_ok(s)
    &&& s.config_path != s.state_path
    &&& match s.stage {
        InitStage::CheckConfig => a == InitActionView::CheckExists(s.config_path),
        InitStage::ReadTemplate => a is ReadConfig,
        InitStage::ReadExistingConfig => a == InitActionView::ReadConfig(s.config_path),
        InitStage::WriteConfig => a == InitActionView::WriteConfig(s.config_path, s.config),
        InitStage::CheckState => a == InitActionView::CheckExists(s.state_path) && holds_config(ws, s),
        InitStage::ReadState => a == InitActionView::ReadState(s.state_path) && holds_config(ws, s),
        InitStage::WriteState => {
            &&& a == InitActionView::WriteState(s.state_path, spec_pending_for(s.config))
            &&& state_fits(spec_pending_for(s.config), s.config)
            &&& holds_config(ws, s)
        },
        InitStage::CheckArtifact => {
            &&& a == InitActionView::CheckExists(artifact_location(s.cwd, s.config.phases[k]))
            &&& holds_settled_files(ws, s)
        },
        InitStage::WriteArtifact => {
            &&& a == InitActionView::WriteArtifact(
                artifact_location(s.cwd, s.config.phases[k]),
                spec_artifact_stub(s.config.phases[k]),
            )
            &&& !ws.dom().contains(artifact_location(s.cwd, s.config.phases[k]))
            &&& holds_settled_files(ws, s)
        },
        InitStage::Done => {
            &&& a is Finish
            &&& a->Finish_0 is Ok ==> {
                &&& a->Finish_0->Ok_0 == report_of(s)
                &&& config_valid(s.config)
                &&& s.artifacts.len() == s.config.phases.len()
                &&& holds_settled_files(ws, s)
            }
        },
    }
}

/// The configuration and state paths of a workspace differ.
proof fn lemma_config_and_state_paths_differ(cwd: Seq<char>)
    ensures
        path_joined(cwd, DEFAULT_WORKFLOW_CONFIG_RELATIVE_PATH@) != path_joined(cwd, DEFAULT_WORKFLOW_STATE_RELATIVE_PATH@),
{
    reveal_strlit(".claw/workflow.json");
    reveal_strlit(".claw/workflow-state.json");
    assert(path_joined(cwd, DEFAULT_WORKFLOW_CONFIG_RELATIVE_PATH@).len() != path_joined(cwd, DEFAULT_WORKFLOW_STATE_RELATIVE_PATH@).len());
}

/// A run starts consistent.
proof fn lemma_run_starts_consistent(cwd: Seq<char>, template_path: Option<Seq<char>>, force: bool, ws: Map<Seq<char>, WorkspaceFile>)
    ensures
        run_consistent(spec_init_start(cwd, template_path, force).0, spec_init_start(cwd, template_path, force).1, ws),
{
    lemma_config_and_state_paths_differ(cwd);
}

/// One answered step keeps a run consistent.
#[verifier::rlimit(40)]
proof fn lemma_run_step(s: InitSessionView, a: InitActionView, ws: Map<Seq<char>, WorkspaceFile>)
    requires
        run_consistent(s, a, ws),
        !(a is Finish),
    ensures
        ({
            let (ws2, ev) = workspace_answer(ws, a);
            let (s2, a2) = spec_init_step(s, ev);
            run_consistent(s2, a2, ws2) && s2.cwd == s.cwd
        }),
{
    let (ws2, ev) = workspace_answer(ws, a);
    assert(answers(s.stage, ev));
    law_init_writes_only_valid_files(s, ev);
    law_claw_default_valid();
    lemma_config_problem_iff_valid(s.config);
    match ev {
        InitEventView::ConfigRead(Ok(c)) => {
            lemma_config_problem_iff_valid(c);
        },
        InitEventView::StateRead(Ok(st)) => {
            lemma_state_problem_iff_fits(st, s.config);
        },
        _ => {},
    }
    let (s2, a2) = spec_init_step(s, ev);
    lemma_config_problem_iff_valid(s2.config);
    if s.stage == InitStage::WriteArtifact || s.stage == InitStage::CheckArtifact {
        let k = s.artifacts.len() as int;
        assert forall|i: int| 0 <= i < s2.artifacts.len() implies ws2.dom().contains(#[trigger] s2.artifacts[i].path) by {
            if i < k {
                assert(s2.artifacts[i] == s.artifacts[i]);
            }
        }
    }
}

/// The workspace `ws` is what a successful initialization of `cwd` that
/// reported `r` leaves: a valid configuration at the configuration path, a
/// state that fits it at the state path, and each phase's artifact, in
/// order, at its path inside the workspace.
pub open spec fn initialized(ws: Map<Seq<char>, WorkspaceFile>, cwd: Seq<char>, r: InitReportView) -> bool {
    &&& r.config_path == path_joined(cwd, DEFAULT_WORKFLOW_CONFIG_RELATIVE_PATH@)
    &&& r.state_path == path_joined(cwd, DEFAULT_WORKFLOW_STATE_RELATIVE_PATH@)
    &&& ws.dom().contains(r.config_path)
    &&& ws[r.config_path] is Config
    &&& {
        let c = ws[r.config_path]->Config_0;
        &&& config_valid(c)
        &&& ws.dom().contains(r.state_path)
        &&& ws[r.state_path] is State
        &&& state_fits(ws[r.state_path]->State_0, c)
        &&& r.artifacts.len() == c.phases.len()
        &&& forall|i: int| 0 <= i < r.artifacts.len() ==> {
            &&& (#[trigger] r.artifacts[i]).path == artifact_location(cwd, c.phases[i])
            &&& ws.dom().contains(r.artifacts[i].path)
        }
    }
}

/// A consistent run that succeeds leaves its workspace initialized.
proof fn lemma_run_settles(s: InitSessionView, a: InitActionView, ws: Map<Seq<char>, WorkspaceFile>, fuel: nat)
    requires
        run_consistent(s, a, ws),
    ensures
        match run_init(s, a, ws, fuel) {
            Some((Ok(r), ws1)) => initialized(ws1, s.cwd, r),
            _ => true,
        },
    decreases fuel,
{
    match a {
        InitActionView::Finish(_) => {
            if a->Finish_0 is Ok {
                let r = report_of(s);
                assert forall|i: int| 0 <= i < r.artifacts.len() implies {
                    &&& (#[trigger] r.artifacts[i]).path == artifact_location(s.cwd, s.config.phases[i])
                    &&& ws.dom().contains(r.artifacts[i].path)
                } by {
                    assert(s.artifacts[i] == r.artifacts[i]);
                }
            }
        },
        _ => {
            if fuel > 0 {
                lemma_run_step(s, a, ws);
                let (ws2, ev) = workspace_answer(ws, a);
                let (s2, a2) = spec_init_step(s, ev);
                lemma_run_settles(s2, a2, ws2, (fuel - 1) as nat);
            }
        },
    }
}

/// Each phase's artifact at its path inside `cwd`, found in place.
pub open spec fn found_artifacts(cwd: Seq<char>, c: ConfigView) -> Seq<ArtifactStatusView> {
    Seq::new(
        c.phases.len(),
        |i: int| ArtifactStatusView { path: artifact_location(cwd, c.phases[i]), status: WorkflowFileStatus::Skipped },
    )
}

/// When every artifact is in place, initialization finds them one after
/// the other, writes none, and reports them all as skipped.
proof fn lemma_rerun_artifacts(s: InitSessionView, ws: Map<Seq<char>, WorkspaceFile>, k: nat)
    requires
        k <= s.config.phases.len(),
        s.artifacts =~= found_artifacts(s.cwd, s.config).take(k as int),
        forall|i: int| 0 <= i < s.config.phases.len() ==> ws.dom().contains(#[trigger] artifact_location(s.cwd, s.config.phases[i])),
    ensures
        run_init(next_artifact(s).0, next_artifact(s).1, ws, (s.config.phases.len() - k) as nat)
            == Some((
                Ok::<InitReportView, WorkflowErrorView>(
                    report_of(InitSessionView { artifacts: found_artifacts(s.cwd, s.config), ..s }),
                ),
                ws,
            )),
    decreases s.config.phases.len() - k,
{
    let n = s.config.phases.len();
    let all = found_artifacts(s.cwd, s.config);
    if k == n {
        assert(s.artifacts =~= all);
    } else {
        let (s1, a1) = next_artifact(s);
        let p = artifact_location(s.cwd, s.config.phases[k as int]);
        assert(a1 == InitActionView::CheckExists(p));
        assert(ws.dom().contains(p));
        let s2 = InitSessionView {
            artifacts: s1.artifacts.push(ArtifactStatusView { path: p, status: WorkflowFileStatus::Skipped }),
            ..s1
        };
        assert(spec_init_step(s1, InitEventView::Exists(true)) == next_artifact(s2));
        assert(s2.artifacts =~= all.take(k + 1 as int));
        lemma_rerun_artifacts(s2, ws, (k + 1) as nat);
        assert(report_of(InitSessionView { artifacts: all, ..s2 }) == report_of(InitSessionView { artifacts: all, ..s }));
    }
}

/// The report of an initialization that found every file of `r` in place.
pub open spec fn all_skipped(r: InitReportView) -> InitReportView {
    InitReportView {
        config_path: r.config_path,
        state_path: r.state_path,
        config_status: WorkflowFileStatus::Skipped,
        state_status: WorkflowFileStatus::Skipped,
        artifacts: Seq::new(
            r.artifacts.len(),
            |i: int| ArtifactStatusView { path: r.artifacts[i].path, status: WorkflowFileStatus::Skipped },
        ),
    }
}

/// Initializing, with the default options, a workspace that holds what a
/// successful initialization reported finds everything in place.
#[verifier::rlimit(40)]
proof fn lemma_rerun(cwd: Seq<char>, ws: Map<Seq<char>, WorkspaceFile>, r: InitReportView)
    requires
        initialized(ws, cwd, r),
    ensures
        run_init(spec_init_start(cwd, None, false).0, spec_init_start(cwd, None, false).1, ws, 4 + r.artifacts.len())
            == Some((Ok::<InitReportView, WorkflowErrorView>(all_skipped(r)), ws)),
{
    let n = r.artifacts.len();
    let c = ws[r.config_path]->Config_0;
    let st = ws[r.state_path]->State_0;
    lemma_config_problem_iff_valid(c);
    lemma_state_problem_iff_fits(st, c);
    let (s0, a0) = spec_init_start(cwd, None, false);
    assert(a0 == InitActionView::CheckExists(r.config_path));
    let (s1, a1) = spec_init_step(s0, InitEventView::Exists(true));
    assert(a1 == InitActionView::ReadConfig(r.config_path));
    assert(run_init(s0, a0, ws, 4 + n) == run_init(s1, a1, ws, 3 + n));
    let (s2, a2) = spec_init_step(s1, InitEventView::ConfigRead(Ok(c)));
    assert(a2 == InitActionView::CheckExists(r.state_path));
    assert(s2.config == c);
    assert(run_init(s1, a1, ws, 3 + n) == run_init(s2, a2, ws, 2 + n));
    let (s3, a3) = spec_init_step(s2, InitEventView::Exists(true));
    assert(a3 == InitActionView::ReadState(r.state_path));
    assert(run_init(s2, a2, ws, 2 + n) == run_init(s3, a3, ws, 1 + n));
    let s4 = InitSessionView { state_status: WorkflowFileStatus::Skipped, ..s3 };
    assert(spec_init_step(s3, InitEventView::StateRead(Ok(st))) == next_artifact(s4));
    assert(run_init(s3, a3, ws, 1 + n) == run_init(next_artifact(s4).0, next_artifact(s4).1, ws, n));
    assert(s4.artifacts =~= found_artifacts(cwd, c).take(0));
    assert forall|i: int| 0 <= i < c.phases.len() implies ws.dom().contains(#[trigger] artifact_location(cwd, c.phases[i])) by {
        assert(r.artifacts[i].path == artifact_location(cwd, c.phases[i]));
    }
    lemma_rerun_artifacts(s4, ws, 0);
    assert(found_artifacts(cwd, c) =~= all_skipped(r).artifacts);
}

/// Initializing again a workspace that an initialization has completed,
/// with nothing changed since, changes nothing: with the default options it
/// reads the configuration and the state back, finds every artifact, writes
/// no file, and reports the same paths, in the same order, all skipped.
pub proof fn law_reinit_changes_nothing(
    cwd: Seq<char>,
    template_path: Option<Seq<char>>,
    force: bool,
    ws: Map<Seq<char>, WorkspaceFile>,
    fuel: nat,
    r: InitReportView,
    ws1: Map<Seq<char>, WorkspaceFile>,
)
    requires
        run_init(spec_init_start(cwd, template_path, force).0, spec_init_start(cwd, template_path, force).1, ws, fuel)
            == Some((Ok::<InitReportView, WorkflowErrorView>(r), ws1)),
    ensures
        run_init(spec_init_start(cwd, None, false).0, spec_init_start(cwd, None, false).1, ws1, 4 + r.artifacts.len())
            == Some((Ok::<InitReportView, WorkflowErrorView>(all_skipped(r)), ws1)),
{
    lemma_run_starts_consistent(cwd, template_path, force, ws);
    lemma_run_settles(spec_init_start(cwd, template_path, force).0, spec_init_start(cwd, template_path, force).1, ws, fuel);
    lemma_rerun(cwd, ws1, r);
}

/// The arguments that follow `gate` name an action of `gate` and its options.
proof fn lemma_parse_gate_args(rest: Seq<Seq<char>>)
    ensures
        spec_parse_workflow_args(seq!["gate"@] + rest) == spec_parse_gate(rest),
{
    reveal_strlit("gate");
    reveal_strlit("init");
    reveal_strlit("status");
    reveal_strlit("config");
    let args = seq!["gate"@] + rest;
    assert(args[0] == "gate"@);
    assert(args[0] != "init"@ && args[0] != "status"@ && args[0] != "config"@) by {
        assert("gate"@[0] != "init"@[0]);
        assert("gate"@.len() != "status"@.len());
        assert("gate"@.len() != "config"@.len());
    }
    assert(args.skip(1) =~= rest);
}

/// An option value given after `--phase=`.
proof fn lemma_phase_eq_option(v: Seq<char>)
    ensures
        "--phase="@ + v != "--phase"@,
        "--phase="@.is_prefix_of("--phase="@ + v),
        ("--phase="@ + v).skip("--phase="@.len() as int) == v,
{
    reveal_strlit("--phase=");
    reveal_strlit("--phase");
    assert(("--phase="@ + v).subrange(0, "--phase="@.len() as int) =~= "--phase="@);
    assert(("--phase="@ + v).skip("--phase="@.len() as int) =~= v);
}

/// A word that does not start with `--` is no option.
proof fn lemma_plain_word_is_no_option(v: Seq<char>)
    requires
        !"--"@.is_prefix_of(v),
    ensures
        v != "--phase"@,
        !"--phase="@.is_prefix_of(v),
        v != "--note"@,
        !"--note="@.is_prefix_of(v),
        v != "--reason"@,
        !"--reason="@.is_prefix_of(v),
{
    reveal_strlit("--");
    reveal_strlit("--phase");
    reveal_strlit("--phase=");
    reveal_strlit("--note");
    reveal_strlit("--note=");
    reveal_strlit("--reason");
    reveal_strlit("--reason=");
    if v.len() >= 2 {
        assert(!(v.subrange(0, 2) =~= "--"@));
    }
}

/// The option names differ from one another.
proof fn lemma_option_names_differ()
    ensures
        "--phase"@ != "--note"@,
        !"--phase="@.is_prefix_of("--note"@),
        "--phase"@ != "--reason"@,
        !"--phase="@.is_prefix_of("--reason"@),
        "approve"@ != "return"@,
{
    reveal_strlit("--phase");
    reveal_strlit("--phase=");
    reveal_strlit("--note");
    reveal_strlit("--reason");
    reveal_strlit("approve");
    reveal_strlit("return");
    assert("--phase"@[2] != "--note"@[2]);
    assert("--phase"@[2] != "--reason"@[2]);
    assert("--reason"@.subrange(0, 8)[2] != "--phase="@[2]);
    assert("approve"@[0] != "return"@[0]);
}

/// `workflow gate approve` approves the phase it names, whether named by
/// `--phase V`, `--phase=V` or as a plain word, and carries the note given
/// with `--note`; with no phase named it approves the current gate.
pub proof fn law_approve_names_phase(v: Seq<char>, n: Seq<char>)
    ensures
        spec_parse_workflow_args(seq!["gate"@, "approve"@, "--phase"@, v])
            == Ok::<CliCommandView, Seq<char>>((CliCommandView::GateApprove { phase_id: Some(v), note: None })),
        spec_parse_workflow_args(seq!["gate"@, "approve"@, "--phase="@ + v])
            == Ok::<CliCommandView, Seq<char>>((CliCommandView::GateApprove { phase_id: Some(v), note: None })),
        !"--"@.is_prefix_of(v) ==> spec_parse_workflow_args(seq!["gate"@, "approve"@, v])
            == Ok::<CliCommandView, Seq<char>>((CliCommandView::GateApprove { phase_id: Some(v), note: None })),
        spec_parse_workflow_args(seq!["gate"@, "approve"@, "--phase"@, v, "--note"@, n])
            == Ok::<CliCommandView, Seq<char>>((CliCommandView::GateApprove { phase_id: Some(v), note: Some(n) })),
        spec_parse_workflow_args(seq!["gate"@, "approve"@, "--note"@, n])
            == Ok::<CliCommandView, Seq<char>>((CliCommandView::GateApprove { phase_id: None, note: Some(n) })),
{
    lemma_option_names_differ();
    lemma_phase_eq_option(v);
    let a1 = seq!["approve"@, "--phase"@, v];
    lemma_parse_gate_args(a1);
    assert(seq!["gate"@] + a1 =~= seq!["gate"@, "approve"@, "--phase"@, v]);
    assert(spec_parse_approve_from(a1, 3, Some(v), None) is Ok);
    let a2 = seq!["approve"@, "--phase="@ + v];
    lemma_parse_gate_args(a2);
    assert(seq!["gate"@] + a2 =~= seq!["gate"@, "approve"@, "--phase="@ + v]);
    assert(spec_parse_approve_from(a2, 2, Some(v), None) is Ok);
    let a3 = seq!["approve"@, v];
    lemma_parse_gate_args(a3);
    assert(seq!["gate"@] + a3 =~= seq!["gate"@, "approve"@, v]);
    if !"--"@.is_prefix_of(v) {
        lemma_plain_word_is_no_option(v);
        assert(spec_parse_approve_from(a3, 2, Some(v), None) is Ok);
    }
    let a4 = seq!["approve"@, "--phase"@, v, "--note"@, n];
    lemma_parse_gate_args(a4);
    assert(seq!["gate"@] + a4 =~= seq!["gate"@, "approve"@, "--phase"@, v, "--note"@, n]);
    assert(spec_parse_approve_from(a4, 5, Some(v), Some(n)) is Ok);
    assert(spec_parse_approve_from(a4, 3, Some(v), None) == spec_parse_approve_from(a4, 5, Some(v), Some(n)));
    let a5 = seq!["approve"@, "--note"@, n];
    lemma_parse_gate_args(a5);
    assert(seq!["gate"@] + a5 =~= seq!["gate"@, "approve"@, "--note"@, n]);
    assert(spec_parse_approve_from(a5, 3, None, Some(n)) is Ok);
}

/// `workflow gate return` reopens the phase it names, whether named by
/// `--phase V`, `--phase=V` or as a plain word, with the reason given by
/// `--reason`; with no phase named it returns the current gate.
pub proof fn law_return_names_phase(v: Seq<char>, r: Seq<char>)
    ensures
        spec_parse_workflow_args(seq!["gate"@, "return"@, "--phase"@, v, "--reason"@, r])
            == Ok::<CliCommandView, Seq<char>>((CliCommandView::GateReturn { phase_id: Some(v), reason: r })),
        spec_parse_workflow_args(seq!["gate"@, "return"@, "--phase="@ + v, "--reason"@, r])
            == Ok::<CliCommandView, Seq<char>>((CliCommandView::GateReturn { phase_id: Some(v), reason: r })),
        !"--"@.is_prefix_of(v) ==> spec_parse_workflow_args(seq!["gate"@, "return"@, v, "--reason"@, r])
            == Ok::<CliCommandView, Seq<char>>((CliCommandView::GateReturn { phase_id: Some(v), reason: r })),
        spec_parse_workflow_args(seq!["gate"@, "return"@, "--reason"@, r])
            == Ok::<CliCommandView, Seq<char>>((CliCommandView::GateReturn { phase_id: None, reason: r })),
{
    lemma_option_names_differ();
    lemma_phase_eq_option(v);
    let a1 = seq!["return"@, "--phase"@, v, "--reason"@, r];
    lemma_parse_gate_args(a1);
    assert(seq!["gate"@] + a1 =~= seq!["gate"@, "return"@, "--phase"@, v, "--reason"@, r]);
    assert(spec_parse_return_from(a1, 5, Some(v), Some(r)) is Ok);
    assert(spec_parse_return_from(a1, 3, Some(v), None) == spec_parse_return_from(a1, 5, Some(v), Some(r)));
    let a2 = seq!["return"@, "--phase="@ + v, "--reason"@, r];
    lemma_parse_gate_args(a2);
    assert(seq!["gate"@] + a2 =~= seq!["gate"@, "return"@, "--phase="@ + v, "--reason"@, r]);
    assert(spec_parse_return_from(a2, 4, Some(v), Some(r)) is Ok);
    assert(spec_parse_return_from(a2, 2, Some(v), None) == spec_parse_return_from(a2, 4, Some(v), Some(r)));
    let a3 = seq!["return"@, v, "--reason"@, r];
    lemma_parse_gate_args(a3);
    assert(seq!["gate"@] + a3 =~= seq!["gate"@, "return"@, v, "--reason"@, r]);
    if !"--"@.is_prefix_of(v) {
        lemma_plain_word_is_no_option(v);
        assert(spec_parse_return_from(a3, 4, Some(v), Some(r)) is Ok);
        assert(spec_parse_return_from(a3, 2, Some(v), None) == spec_parse_return_from(a3, 4, Some(v), Some(r)));
    }
    let a4 = seq!["return"@, "--reason"@, r];
    lemma_parse_gate_args(a4);
    assert(seq!["gate"@] + a4 =~= seq!["gate"@, "return"@, "--reason"@, r]);
    assert(spec_parse_return_from(a4, 3, None, Some(r)) is Ok);
}

/// Whether initializing in session `s` writes the configuration: always
/// with a template, and otherwise only when the workspace `ws0` it started
/// from had none.
pub open spec fn writes_config(s: InitSessionView, ws0: Map<Seq<char>, WorkspaceFile>) -> bool {
    s.template_path is Some || !ws0.dom().contains(s.config_path)
}

/// Whether the workspace `ws0` held, at the state path, a state that fits `c`.
pub open spec fn keeps_state(s: InitSessionView, ws0: Map<Seq<char>, WorkspaceFile>, c: ConfigView) -> bool {
    &&& ws0.dom().contains(s.state_path)
    &&& ws0[s.state_path] is State
    &&& state_fits(ws0[s.state_path]->State_0, c)
}

/// Created when the configuration is written, skipped when it is kept.
pub open spec fn config_status_for(s: InitSessionView, ws0: Map<Seq<char>, WorkspaceFile>) -> WorkflowFileStatus {
    if writes_config(s, ws0) {
        WorkflowFileStatus::Created
    } else {
        WorkflowFileStatus::Skipped
    }
}

/// Skipped when the state is kept, created when it is written.
pub open spec fn state_status_for(s: InitSessionView, ws0: Map<Seq<char>, WorkspaceFile>, c: ConfigView) -> WorkflowFileStatus {
    if keeps_state(s, ws0, c) {
        WorkflowFileStatus::Skipped
    } else {
        WorkflowFileStatus::Created
    }
}

/// `ws` has at path `p` what `ws0` had.
pub open spec fn same_file(ws: Map<Seq<char>, WorkspaceFile>, ws0: Map<Seq<char>, WorkspaceFile>, p: Seq<char>) -> bool {
    &&& ws.dom().contains(p) == ws0.dom().contains(p)
    &&& ws0.dom().contains(p) ==> ws[p] == ws0[p]
}

/// The statuses a run that started from the workspace `ws0` has recorded
/// so far agree with what it wrote.
pub open spec fn statuses_tracked(
    s: InitSessionView,
    a: InitActionView,
    ws: Map<Seq<char>, WorkspaceFile>,
    ws0: Map<Seq<char>, WorkspaceFile>,
) -> bool {
    match s.stage {
        InitStage::CheckConfig => {
            &&& ws == ws0
            &&& s.config_status == WorkflowFileStatus::Skipped
            &&& s.state_status == WorkflowFileStatus::Skipped
        },
        InitStage::ReadTemplate | InitStage::WriteConfig => {
            &&& writes_config(s, ws0)
            &&& s.config_status == WorkflowFileStatus::Skipped
            &&& s.state_status == WorkflowFileStatus::Skipped
            &&& same_file(ws, ws0, s.state_path)
        },
        InitStage::ReadExistingConfig => {
            &&& !writes_config(s, ws0)
            &&& s.config_status == WorkflowFileStatus::Skipped
            &&& s.state_status == WorkflowFileStatus::Skipped
            &&& same_file(ws, ws0, s.state_path)
        },
        InitStage::CheckState | InitStage::ReadState => {
            &&& s.config_status == config_status_for(s, ws0)
            &&& s.state_status == WorkflowFileStatus::Skipped
            &&& same_file(ws, ws0, s.state_path)
        },
        InitStage::WriteState => {
            &&& s.config_status == config_status_for(s, ws0)
            &&& !keeps_state(s, ws0, s.config)
        },
        InitStage::CheckArtifact | InitStage::WriteArtifact => {
            &&& s.config_status == config_status_for(s, ws0)
            &&& s.state_status == state_status_for(s, ws0, s.config)
        },
        InitStage::Done => a->Finish_0 is Ok ==> {
            &&& s.config_status == config_status_for(s, ws0)
            &&& s.state_status == state_status_for(s, ws0, s.config)
        },
    }
}

/// One answered step keeps the statuses in agreement with the writes.
#[verifier::rlimit(40)]
proof fn lemma_statuses_step(s: InitSessionView, a: InitActionView, ws: Map<Seq<char>, WorkspaceFile>, ws0: Map<Seq<char>, WorkspaceFile>)
    requires
        run_consistent(s, a, ws),
        statuses_tracked(s, a, ws, ws0),
        !(a is Finish),
    ensures
        ({
            let (ws2, ev) = workspace_answer(ws, a);
            let (s2, a2) = spec_init_step(s, ev);
            &&& statuses_tracked(s2, a2, ws2, ws0)
            &&& s2.template_path == s.template_path
            &&& s2.config_path == s.config_path
            &&& s2.state_path == s.state_path
        }),
{
    let (ws2, ev) = workspace_answer(ws, a);
    assert(answers(s.stage, ev));
    lemma_config_problem_iff_valid(s.config);
    match ev {
        InitEventView::ConfigRead(Ok(c)) => {
            lemma_config_problem_iff_valid(c);
        },
        InitEventView::StateRead(Ok(st)) => {
            lemma_state_problem_iff_fits(st, s.config);
        },
        _ => {},
    }
}

/// A consistent run reports as created exactly the configuration and state
/// files it wrote.
proof fn lemma_run_reports(
    s: InitSessionView,
    a: InitActionView,
    ws: Map<Seq<char>, WorkspaceFile>,
    ws0: Map<Seq<char>, WorkspaceFile>,
    fuel: nat,
)
    requires
        run_consistent(s, a, ws),
        statuses_tracked(s, a, ws, ws0),
    ensures
        match run_init(s, a, ws, fuel) {
            Some((Ok(r), ws1)) => {
                &&& r.config_status == config_status_for(s, ws0)
                &&& r.state_status == state_status_for(s, ws0, ws1[s.config_path]->Config_0)
            },
            _ => true,
        },
    decreases fuel,
{
    match a {
        InitActionView::Finish(_) => {},
        _ => {
            if fuel > 0 {
                lemma_run_step(s, a, ws);
                lemma_statuses_step(s, a, ws, ws0);
                let (ws2, ev) = workspace_answer(ws, a);
                let (s2, a2) = spec_init_step(s, ev);
                lemma_run_reports(s2, a2, ws2, ws0, (fuel - 1) as nat);
            }
        },
    }
}

/// Initialization reports a file as created exactly when it wrote it: the
/// configuration is created when a template is given or none existed, and
/// skipped when the existing one was kept; the state is skipped when the
/// workspace already held a state that fits the configuration, and created
/// otherwise.
pub proof fn law_init_reports_what_it_wrote(
    cwd: Seq<char>,
    template_path: Option<Seq<char>>,
    force: bool,
    ws: Map<Seq<char>, WorkspaceFile>,
    fuel: nat,
    r: InitReportView,
    ws1: Map<Seq<char>, WorkspaceFile>,
)
    requires
        run_init(spec_init_start(cwd, template_path, force).0, spec_init_start(cwd, template_path, force).1, ws, fuel)
            == Some((Ok::<InitReportView, WorkflowErrorView>(r), ws1)),
    ensures
        r.config_status == if template_path is Some || !ws.dom().contains(r.config_path) {
            WorkflowFileStatus::Created
        } else {
            WorkflowFileStatus::Skipped
        },
        r.state_status == if ws.dom().contains(r.state_path) && ws[r.state_path] is State
            && state_fits(ws[r.state_path]->State_0, ws1[r.config_path]->Config_0) {
            WorkflowFileStatus::Skipped
        } else {
            WorkflowFileStatus::Created
        },
{
    let (s0, a0) = spec_init_start(cwd, template_path, force);
    lemma_run_starts_consistent(cwd, template_path, force, ws);
    lemma_run_settles(s0, a0, ws, fuel);
    lemma_run_reports(s0, a0, ws, ws, fuel);
}

/// Whether the path of artifact `j` of `arts` was already in place when
/// initialization came to it: in the workspace `ws0` it started from, the
/// configuration or state path, or the path of an earlier artifact.
pub open spec fn found_in_place(
    arts: Seq<ArtifactStatusView>,
    j: int,
    ws0: Map<Seq<char>, WorkspaceFile>,
    config_path: Seq<char>,
    state_path: Seq<char>,
) -> bool {
    let p = arts[j].path;
    ||| ws0.dom().contains(p)
    ||| p == config_path
    ||| p == state_path
    ||| exists|i: int| 0 <= i < j && (#[trigger] arts[i]).path == p
}

/// The files of a run that started from `ws0`: it removes none, adds only
/// the configuration, the state and the artifacts ensured so far, and each
/// artifact's status says whether it was found in place.
pub open spec fn artifacts_tracked(s: InitSessionView, ws: Map<Seq<char>, WorkspaceFile>, ws0: Map<Seq<char>, WorkspaceFile>) -> bool {
    &&& forall|p: Seq<char>| #[trigger] ws0.dom().contains(p) ==> ws.dom().contains(p)
    &&& forall|p: Seq<char>| #[trigger] ws.dom().contains(p) ==> {
        ||| ws0.dom().contains(p)
        ||| p == s.config_path
        ||| p == s.state_path
        ||| exists|j: int| 0 <= j < s.artifacts.len() && (#[trigger] s.artifacts[j]).path == p
    }
    &&& forall|j: int| 0 <= j < s.artifacts.len() ==> (#[trigger] s.artifacts[j]).status == if found_in_place(
        s.artifacts,
        j,
        ws0,
        s.config_path,
        s.state_path,
    ) {
        WorkflowFileStatus::Skipped
    } else {
        WorkflowFileStatus::Created
    }
}

/// One answered step keeps the artifacts' statuses in agreement with the
/// files.
#[verifier::rlimit(60)]
proof fn lemma_artifacts_step(s: InitSessionView, a: InitActionView, ws: Map<Seq<char>, WorkspaceFile>, ws0: Map<Seq<char>, WorkspaceFile>)
    requires
        run_consistent(s, a, ws),
        artifacts_tracked(s, ws, ws0),
        !(a is Finish),
    ensures
        ({
            let (ws2, ev) = workspace_answer(ws, a);
            let (s2, a2) = spec_init_step(s, ev);
            &&& artifacts_tracked(s2, ws2, ws0)
            &&& s2.config_path == s.config_path
            &&& s2.state_path == s.state_path
        }),
{
    let (ws2, ev) = workspace_answer(ws, a);
    assert(answers(s.stage, ev));
    let (s2, a2) = spec_init_step(s, ev);
    let k = s.artifacts.len() as int;
    if s.stage == InitStage::CheckArtifact || s.stage == InitStage::WriteArtifact {
        let p = artifact_location(s.cwd, s.config.phases[k]);
        if s2.artifacts.len() == k + 1 {
            assert(s2.artifacts == s.artifacts.push(s2.artifacts[k]));
            assert(s2.artifacts[k].path == p);
            assert forall|j: int| 0 <= j < k implies #[trigger] s2.artifacts[j] == s.artifacts[j] by {}
            assert forall|j: int| 0 <= j < k implies found_in_place(s2.artifacts, j, ws0, s.config_path, s.state_path)
                == found_in_place(s.artifacts, j, ws0, s.config_path, s.state_path) by {
                if found_in_place(s.artifacts, j, ws0, s.config_path, s.state_path) && !ws0.dom().contains(s.artifacts[j].path)
                    && s.artifacts[j].path != s.config_path && s.artifacts[j].path != s.state_path {
                    let i = choose|i: int| 0 <= i < j && (#[trigger] s.artifacts[i]).path == s.artifacts[j].path;
                    assert(s2.artifacts[i] == s.artifacts[i]);
                }
                if found_in_place(s2.artifacts, j, ws0, s.config_path, s.state_path) && !ws0.dom().contains(s.artifacts[j].path)
                    && s.artifacts[j].path != s.config_path && s.artifacts[j].path != s.state_path {
                    let i = choose|i: int| 0 <= i < j && (#[trigger] s2.artifacts[i]).path == s2.artifacts[j].path;
                    assert(s2.artifacts[i] == s.artifacts[i]);
                }
            }
            if s.stage == InitStage::CheckArtifact {
                assert(ws.dom().contains(p));
                if !ws0.dom().contains(p) && p != s.config_path && p != s.state_path {
                    let j = choose|j: int| 0 <= j < s.artifacts.len() && (#[trigger] s.artifacts[j]).path == p;
                    assert(s2.artifacts[j].path == p);
                }
                assert(found_in_place(s2.artifacts, k, ws0, s.config_path, s.state_path));
            } else {
                assert(!ws0.dom().contains(p));
                assert(p != s.config_path);
                assert(p != s.state_path);
                assert forall|i: int| 0 <= i < k implies (#[trigger] s2.artifacts[i]).path != p by {
                    assert(ws.dom().contains(s.artifacts[i].path));
                }
                assert(!found_in_place(s2.artifacts, k, ws0, s.config_path, s.state_path));
            }
            assert forall|q: Seq<char>| #[trigger] ws2.dom().contains(q) implies {
                ||| ws0.dom().contains(q)
                ||| q == s2.config_path
                ||| q == s2.state_path
                ||| exists|j: int| 0 <= j < s2.artifacts.len() && (#[trigger] s2.artifacts[j]).path == q
            } by {
                if q == p {
                    assert(s2.artifacts[k].path == q);
                } else if ws.dom().contains(q) && !ws0.dom().contains(q) && q != s.config_path && q != s.state_path {
                    let j = choose|j: int| 0 <= j < s.artifacts.len() && (#[trigger] s.artifacts[j]).path == q;
                    assert(s2.artifacts[j].path == q);
                }
            }
        } else {
            assert(s2.artifacts == s.artifacts);
        }
    }
}

/// A consistent run reports as created exactly the artifacts it wrote.
proof fn lemma_run_reports_artifacts(
    s: InitSessionView,
    a: InitActionView,
    ws: Map<Seq<char>, WorkspaceFile>,
    ws0: Map<Seq<char>, WorkspaceFile>,
    fuel: nat,
)
    requires
        run_consistent(s, a, ws),
        artifacts_tracked(s, ws, ws0),
    ensures
        match run_init(s, a, ws, fuel) {
            Some((Ok(r), ws1)) => forall|j: int| 0 <= j < r.artifacts.len() ==> (#[trigger] r.artifacts[j]).status
                == if found_in_place(r.artifacts, j, ws0, s.config_path, s.state_path) {
                WorkflowFileStatus::Skipped
            } else {
                WorkflowFileStatus::Created
            },
            _ => true,
        },
    decreases fuel,
{
    match a {
        InitActionView::Finish(_) => {},
        _ => {
            if fuel > 0 {
                lemma_run_step(s, a, ws);
                lemma_artifacts_step(s, a, ws, ws0);
                let (ws2, ev) = workspace_answer(ws, a);
                let (s2, a2) = spec_init_step(s, ev);
                lemma_run_reports_artifacts(s2, a2, ws2, ws0, (fuel - 1) as nat);
            }
        },
    }
}

/// Initialization never writes over a file: it reports an artifact as
/// skipped exactly when its path was already in place (in the workspace
/// it started from, the configuration or state path, or the path of an
/// earlier artifact), and as created, by writing it, otherwise.
pub proof fn law_init_writes_only_missing_artifacts(
    cwd: Seq<char>,
    template_path: Option<Seq<char>>,
    force: bool,
    ws: Map<Seq<char>, WorkspaceFile>,
    fuel: nat,
    r: InitReportView,
    ws1: Map<Seq<char>, WorkspaceFile>,
)
    requires
        run_init(spec_init_start(cwd, template_path, force).0, spec_init_start(cwd, template_path, force).1, ws, fuel)
            == Some((Ok::<InitReportView, WorkflowErrorView>(r), ws1)),
    ensures
        forall|j: int| 0 <= j < r.artifacts.len() ==> {
            &&& (#[trigger] r.artifacts[j]).status == WorkflowFileStatus::Created
                ==> !ws.dom().contains(r.artifacts[j].path)
            &&& (r.artifacts[j].status == WorkflowFileStatus::Skipped
                <==> found_in_place(r.artifacts, j, ws, r.config_path, r.state_path))
        },
{
    let (s0, a0) = spec_init_start(cwd, template_path, force);
    lemma_run_starts_consistent(cwd, template_path, force, ws);
    lemma_run_settles(s0, a0, ws, fuel);
    lemma_run_reports_artifacts(s0, a0, ws, ws, fuel);
}

/// `workflow init` takes a template with `--config P` or `--config=P`
/// (refused when blank), forcing with `--force`; `workflow status` and
/// `workflow config` take nothing else.
pub proof fn law_init_options(p: Seq<char>)
    ensures
        spec_parse_workflow_args(seq!["init"@])
            == Ok::<CliCommandView, Seq<char>>((CliCommandView::Init { template_path: None, force: false })),
        spec_parse_workflow_args(seq!["init"@, "--force"@])
            == Ok::<CliCommandView, Seq<char>>((CliCommandView::Init { template_path: None, force: true })),
        trimmed(p).len() > 0 ==> spec_parse_workflow_args(seq!["init"@, "--config"@, p, "--force"@])
            == Ok::<CliCommandView, Seq<char>>((CliCommandView::Init { template_path: Some(p), force: true })),
        trimmed(p).len() > 0 ==> spec_parse_workflow_args(seq!["init"@, "--config="@ + p])
            == Ok::<CliCommandView, Seq<char>>((CliCommandView::Init { template_path: Some(p), force: false })),
        trimmed(p).len() == 0 ==> spec_parse_workflow_args(seq!["init"@, "--config"@, p]) is Err,
        spec_parse_workflow_args(seq!["status"@]) == Ok::<CliCommandView, Seq<char>>(CliCommandView::Status),
        spec_parse_workflow_args(seq!["config"@]) == Ok::<CliCommandView, Seq<char>>(CliCommandView::Config),
        spec_parse_workflow_args(seq!["status"@, p]) is Err,
        spec_parse_workflow_args(seq!["config"@, p]) is Err,
{
    reveal_strlit("init");
    reveal_strlit("status");
    reveal_strlit("config");
    reveal_strlit("--config");
    reveal_strlit("--config=");
    reveal_strlit("--force");
    assert("status"@[0] != "init"@[0]);
    assert("config"@[0] != "init"@[0]);
    assert("config"@[0] != "status"@[0]);
    assert("--force"@.len() != "--config"@.len());
    assert("--force"@.subrange(0, 7)[2] != "--config="@[2]);
    let v = "--config="@ + p;
    assert(v.subrange(0, "--config="@.len() as int) =~= "--config="@);
    assert(v.skip("--config="@.len() as int) =~= p);
    assert(v.len() != "--config"@.len());
    let a3 = seq!["init"@, "--config"@, p, "--force"@];
    if trimmed(p).len() > 0 {
        assert(spec_parse_init_from(a3, 4, Some(p), true) is Ok);
        assert(spec_parse_init_from(a3, 3, Some(p), false) == spec_parse_init_from(a3, 4, Some(p), true));
        assert(spec_parse_init_from(seq!["init"@, v], 2, Some(p), false) is Ok);
    }
    assert(spec_parse_init_from(seq!["init"@, "--force"@], 2, None, true) is Ok);
}

} // verus!
