//! The text shown for each `workflow` command, and error messages.
use vstd::prelude::*;
use vstd::string::*;
use crate::model::{
    opt_str, ConfigView, InitReportView, MutationResultView, PhaseSnapshotView, SnapshotView,
    WorkflowConfig, WorkflowError, WorkflowErrorView, WorkflowInitReport, WorkflowMutationResult,
    WorkflowPhaseSnapshot, WorkflowSnapshot,
};
use crate::paths::{display_path, shown_relative_to};
use crate::text::{decimal, join, joined, owned, padded, push_decimal, push_padded, str_eq};

verus! {

// ---------------------------------------------------------------------------
// Error messages.
// ---------------------------------------------------------------------------

/// The message an error is shown with.
pub open spec fn error_message(e: WorkflowErrorView) -> Seq<char> {
    match e {
        WorkflowErrorView::NotConfigured(path) => "workflow is not initialized (expected "@ + path
            + "). Run `claw workflow init` first."@,
        WorkflowErrorView::Io(m) => m,
        WorkflowErrorView::Json(m) => m,
        WorkflowErrorView::InvalidConfig(m) => m,
        WorkflowErrorView::InvalidState(m) => m,
        WorkflowErrorView::Gate(m) => m,
    }
}

impl WorkflowError {
    /// The message this error is shown with.
    pub fn message(&self) -> (r: String)
        ensures
            r@ == error_message(self@),
    {
        match self {
            WorkflowError::NotConfigured(path) => {
                let mut m = owned("workflow is not initialized (expected ");
                m.append(path.as_str());
                m.append("). Run `claw workflow init` first.");
                m
            },
            WorkflowError::Io(m) => owned(m.as_str()),
            WorkflowError::Json(m) => owned(m.as_str()),
            WorkflowError::InvalidConfig(m) => owned(m.as_str()),
            WorkflowError::InvalidState(m) => owned(m.as_str()),
            WorkflowError::Gate(m) => owned(m.as_str()),
        }
    }
}

// ---------------------------------------------------------------------------
// Shared pieces.
// ---------------------------------------------------------------------------

fn line_with(label: &str, value: &str) -> (r: String)
    ensures
        r@ == label@ + value@,
{
    let mut l = owned(label);
    l.append(value);
    l
}

fn push_line(lines: &mut Vec<String>, line: String)
    ensures
        final(lines).deep_view() == old(lines).deep_view().push(line@),
{
    let ghost before = lines.deep_view();
    lines.push(line);
    assert(lines.deep_view() =~= before.push(line@));
}

/// The summary line of a snapshot.
pub open spec fn summary_line(approved: nat, total: nat, ledger: nat) -> Seq<char> {
    "  Summary          "@ + decimal(approved) + " approved / "@ + decimal(total) + " total · "@
        + decimal(ledger) + " ledger entries"@
}

fn render_summary_line(s: &WorkflowSnapshot) -> (r: String)
    ensures
        r@ == summary_line(s@.approved_count, s@.total_phases, s@.ledger_entries),
{
    let mut l = owned("  Summary          ");
    push_decimal(&mut l, s.approved_count as u64);
    l.append(" approved / ");
    push_decimal(&mut l, s.total_phases as u64);
    l.append(" total · ");
    push_decimal(&mut l, s.ledger_entries as u64);
    l.append(" ledger entries");
    l
}

/// The current gate's id, or `<complete>`.
pub open spec fn gate_label(current: Option<Seq<char>>) -> Seq<char> {
    match current {
        Some(id) => id,
        None => "<complete>"@,
    }
}

fn current_gate_label(current: &Option<String>) -> (r: String)
    ensures
        r@ == gate_label(opt_str(*current)),
{
    match current {
        Some(id) => owned(id.as_str()),
        None => owned("<complete>"),
    }
}

// ---------------------------------------------------------------------------
// `workflow init`.
// ---------------------------------------------------------------------------

pub open spec fn init_report_lines(cwd: Seq<char>, r: InitReportView) -> Seq<Seq<char>> {
    seq![
        "Workflow init"@,
        "  Config           "@ + shown_relative_to(cwd, r.config_path) + " ("@ + r.config_status.spec_name() + ")"@,
        "  State            "@ + shown_relative_to(cwd, r.state_path) + " ("@ + r.state_status.spec_name() + ")"@,
        "  Artifacts        "@ + decimal(r.artifacts.len()),
    ] + Seq::new(r.artifacts.len(), |i: int| artifact_line(cwd, r.artifacts[i]))
        + seq!["  Next step        claw workflow status"@]
}

pub open spec fn artifact_line(cwd: Seq<char>, a: crate::model::ArtifactStatusView) -> Seq<char> {
    "  "@ + padded(shown_relative_to(cwd, a.path), 16) + " "@ + a.status.spec_name()
}

/// The text of an initialization report, with paths shown relative to `cwd`.
pub fn render_init_report(cwd: &str, report: &WorkflowInitReport) -> (r: String)
    ensures
        r@ == joined(init_report_lines(cwd@, report@), "\n"@),
{
    let ghost rv = report@;
    let mut lines: Vec<String> = Vec::new();
    push_line(&mut lines, owned("Workflow init"));
    let mut l = line_with("  Config           ", display_path(cwd, report.config_path.as_str()).as_str());
    l.append(" (");
    l.append(report.config_status.as_str());
    l.append(")");
    push_line(&mut lines, l);
    let mut l = line_with("  State            ", display_path(cwd, report.state_path.as_str()).as_str());
    l.append(" (");
    l.append(report.state_status.as_str());
    l.append(")");
    push_line(&mut lines, l);
    let mut l = owned("  Artifacts        ");
    push_decimal(&mut l, report.artifacts.len() as u64);
    push_line(&mut lines, l);
    let ghost head = lines.deep_view();
    let ghost f = |k: int| artifact_line(cwd@, rv.artifacts[k]);
    let mut i: usize = 0;
    while i < report.artifacts.len()
        invariant
            rv == report@,
            f == (|k: int| artifact_line(cwd@, rv.artifacts[k])),
            i <= report.artifacts@.len(),
            lines.deep_view() == head + Seq::new(i as nat, f),
        decreases report.artifacts.len() - i,
    {
        let artifact = &report.artifacts[i];
        assert(rv.artifacts[i as int] == artifact@);
        let mut l = owned("  ");
        push_padded(&mut l, display_path(cwd, artifact.path.as_str()).as_str(), 16);
        l.append(" ");
        l.append(artifact.status.as_str());
        assert(l@ =~= artifact_line(cwd@, artifact@));
        push_line(&mut lines, l);
        assert(Seq::new((i + 1) as nat, f) =~= Seq::new(i as nat, f).push(f(i as int)));
        assert(lines.deep_view() =~= head + Seq::new((i + 1) as nat, f));
        i = i + 1;
    }
    push_line(&mut lines, owned("  Next step        claw workflow status"));
    assert(lines.deep_view() =~= init_report_lines(cwd@, rv));
    join(&lines, "\n")
}

// ---------------------------------------------------------------------------
// `workflow config`.
// ---------------------------------------------------------------------------

pub open spec fn config_phase_lines(p: crate::model::PhaseDefinitionView) -> Seq<Seq<char>> {
    seq![
        "  "@ + padded(p.id, 12) + " "@ + padded(p.title, 26) + " "@ + padded(p.role, 14) + " "@ + p.artifact_path,
        "  Summary         "@ + p.summary,
    ]
}

pub open spec fn config_lines(cwd: Seq<char>, config_path: Seq<char>, c: ConfigView) -> Seq<Seq<char>> {
    seq![
        "Workflow config"@,
        "  Path             "@ + shown_relative_to(cwd, config_path),
        "  Version          "@ + decimal(c.schema_version as nat),
        "  Phases           "@ + decimal(c.phases.len()),
        Seq::<char>::empty(),
        "Phases"@,
    ] + Seq::new(c.phases.len(), |i: int| config_phase_lines(c.phases[i])).flatten_alt()
}

/// The text describing a configuration stored at `config_path`.
pub fn render_config(cwd: &str, config_path: &str, config: &WorkflowConfig) -> (r: String)
    ensures
        r@ == joined(config_lines(cwd@, config_path@, config@), "\n"@),
{
    let ghost cv = config@;
    let ghost groups = Seq::new(cv.phases.len(), |i: int| config_phase_lines(cv.phases[i]));
    let mut lines: Vec<String> = Vec::new();
    push_line(&mut lines, owned("Workflow config"));
    push_line(&mut lines, line_with("  Path             ", display_path(cwd, config_path).as_str()));
    let mut l = owned("  Version          ");
    push_decimal(&mut l, config.schema_version as u64);
    push_line(&mut lines, l);
    let mut l = owned("  Phases           ");
    push_decimal(&mut l, config.phases.len() as u64);
    push_line(&mut lines, l);
    push_line(&mut lines, String::new());
    push_line(&mut lines, owned("Phases"));
    let ghost head = lines.deep_view();
    let mut i: usize = 0;
    while i < config.phases.len()
        invariant
            cv == config@,
            groups == Seq::new(cv.phases.len(), |i: int| config_phase_lines(cv.phases[i])),
            i <= config.phases@.len(),
            lines.deep_view() == head + groups.take(i as int).flatten_alt(),
        decreases config.phases.len() - i,
    {
        let phase = &config.phases[i];
        assert(cv.phases[i as int] == phase@);
        let mut l = owned("  ");
        push_padded(&mut l, phase.id.as_str(), 12);
        l.append(" ");
        push_padded(&mut l, phase.title.as_str(), 26);
        l.append(" ");
        push_padded(&mut l, phase.role.as_str(), 14);
        l.append(" ");
        l.append(phase.artifact_path.as_str());
        push_line(&mut lines, l);
        push_line(&mut lines, line_with("  Summary         ", phase.summary.as_str()));
        assert(groups.take(i + 1).drop_last() =~= groups.take(i as int));
        assert(lines.deep_view() =~= head + groups.take(i + 1).flatten_alt());
        i = i + 1;
    }
    assert(groups.take(config.phases.len() as int) =~= groups);
    assert(lines.deep_view() =~= config_lines(cwd@, config_path@, cv));
    join(&lines, "\n")
}

// ---------------------------------------------------------------------------
// `workflow status`.
// ---------------------------------------------------------------------------

pub open spec fn snapshot_phase_lines(p: PhaseSnapshotView) -> Seq<Seq<char>> {
    let first = "  "@ + padded(p.id, 12) + " "@ + padded(p.status.spec_name(), 9) + " "@ + padded(p.title, 24)
        + " "@ + p.artifact_path;
    match p.note {
        Some(note) => seq![first, "  Note             "@ + note],
        None => seq![first],
    }
}

pub open spec fn snapshot_lines(cwd: Seq<char>, s: SnapshotView) -> Seq<Seq<char>> {
    seq![
        "Workflow"@,
        "  Config           "@ + shown_relative_to(cwd, s.config_path),
        "  State            "@ + shown_relative_to(cwd, s.state_path),
        "  Current gate     "@ + gate_label(s.current_phase_id),
        summary_line(s.approved_count, s.total_phases, s.ledger_entries),
        Seq::<char>::empty(),
        "Phases"@,
    ] + Seq::new(s.phases.len(), |i: int| snapshot_phase_lines(s.phases[i])).flatten_alt()
}

/// The text describing a workflow snapshot, with paths shown relative to `cwd`.
pub fn render_snapshot(cwd: &str, snapshot: &WorkflowSnapshot) -> (r: String)
    ensures
        r@ == joined(snapshot_lines(cwd@, snapshot@), "\n"@),
{
    let ghost sv = snapshot@;
    let ghost groups = Seq::new(sv.phases.len(), |i: int| snapshot_phase_lines(sv.phases[i]));
    let mut lines: Vec<String> = Vec::new();
    push_line(&mut lines, owned("Workflow"));
    push_line(&mut lines, line_with("  Config           ", display_path(cwd, snapshot.config_path.as_str()).as_str()));
    push_line(&mut lines, line_with("  State            ", display_path(cwd, snapshot.state_path.as_str()).as_str()));
    push_line(&mut lines, line_with("  Current gate     ", current_gate_label(&snapshot.current_phase_id).as_str()));
    push_line(&mut lines, render_summary_line(snapshot));
    push_line(&mut lines, String::new());
    push_line(&mut lines, owned("Phases"));
    let ghost head = lines.deep_view();
    let mut i: usize = 0;
    while i < snapshot.phases.len()
        invariant
            sv == snapshot@,
            groups == Seq::new(sv.phases.len(), |i: int| snapshot_phase_lines(sv.phases[i])),
            i <= snapshot.phases@.len(),
            lines.deep_view() == head + groups.take(i as int).flatten_alt(),
        decreases snapshot.phases.len() - i,
    {
        let phase = &snapshot.phases[i];
        assert(sv.phases[i as int] == phase@);
        let mut l = owned("  ");
        push_padded(&mut l, phase.id.as_str(), 12);
        l.append(" ");
        push_padded(&mut l, phase.status.as_str(), 9);
        l.append(" ");
        push_padded(&mut l, phase.title.as_str(), 24);
        l.append(" ");
        l.append(phase.artifact_path.as_str());
        push_line(&mut lines, l);
        match &phase.note {
            Some(note) => push_line(&mut lines, line_with("  Note             ", note.as_str())),
            None => {},
        }
        assert(groups.take(i + 1).drop_last() =~= groups.take(i as int));
        assert(lines.deep_view() =~= head + groups.take(i + 1).flatten_alt());
        i = i + 1;
    }
    assert(groups.take(snapshot.phases.len() as int) =~= groups);
    assert(lines.deep_view() =~= snapshot_lines(cwd@, sv));
    join(&lines, "\n")
}

// ---------------------------------------------------------------------------
// `workflow gate approve` and `workflow gate return`.
// ---------------------------------------------------------------------------

/// The first phase of a snapshot with id `id`.
pub open spec fn find_phase_from(phases: Seq<PhaseSnapshotView>, id: Seq<char>, i: int) -> Option<int>
    decreases phases.len() - i,
{
    if i < 0 || i >= phases.len() {
        None
    } else if phases[i].id == id {
        Some(i)
    } else {
        find_phase_from(phases, id, i + 1)
    }
}

pub proof fn lemma_find_phase_from(phases: Seq<PhaseSnapshotView>, id: Seq<char>, i: int)
    requires
        0 <= i <= phases.len(),
    ensures
        find_phase_from(phases, id, i) matches Some(k) ==> i <= k < phases.len(),
    decreases phases.len() - i,
{
    if i < phases.len() && phases[i].id != id {
        lemma_find_phase_from(phases, id, i + 1);
    }
}

fn find_phase(phases: &Vec<WorkflowPhaseSnapshot>, id: &str) -> (r: Option<usize>)
    ensures
        match r {
            Some(k) => find_phase_from(phases@.map_values(|p: WorkflowPhaseSnapshot| p@), id@, 0) == Some(k as int),
            None => find_phase_from(phases@.map_values(|p: WorkflowPhaseSnapshot| p@), id@, 0) is None,
        },
{
    let ghost pv = phases@.map_values(|p: WorkflowPhaseSnapshot| p@);
    let mut i: usize = 0;
    while i < phases.len()
        invariant
            pv == phases@.map_values(|p: WorkflowPhaseSnapshot| p@),
            i <= phases@.len(),
            find_phase_from(pv, id@, i as int) == find_phase_from(pv, id@, 0),
        decreases phases.len() - i,
    {
        assert(pv[i as int] == phases@[i as int]@);
        if str_eq(phases[i].id.as_str(), id) {
            return Some(i);
        }
        i = i + 1;
    }
    None
}

pub open spec fn mutation_lines(r: MutationResultView) -> Seq<Seq<char>> {
    let phases = r.snapshot.phases;
    let gate = gate_label(r.snapshot.current_phase_id);
    let artifact = match find_phase_from(phases, r.phase_id, 0) {
        Some(i) => phases[i].artifact_path,
        None => "<unknown>"@,
    };
    let note = match r.note {
        Some(n) => n,
        None => "<none>"@,
    };
    seq![
        "Workflow gate updated"@,
        "  Phase            "@ + r.phase_id,
        "  Decision         "@ + r.action.spec_name(),
        "  Artifact         "@ + artifact,
        "  Note             "@ + note,
        "  Current gate     "@ + gate,
        summary_line(r.snapshot.approved_count, r.snapshot.total_phases, r.snapshot.ledger_entries),
    ] + match find_phase_from(phases, gate, 0) {
        Some(i) => seq!["  Next artifact    "@ + phases[i].artifact_path],
        None => Seq::empty(),
    }
}

/// The text describing a gate decision.
pub fn render_mutation_result(result: &WorkflowMutationResult) -> (r: String)
    ensures
        r@ == joined(mutation_lines(result@), "\n"@),
{
    let ghost rv = result@;
    let ghost pv = result.snapshot.phases@.map_values(|p: WorkflowPhaseSnapshot| p@);
    assert(pv == rv.snapshot.phases);
    proof {
        lemma_find_phase_from(pv, rv.phase_id, 0);
    }
    let current_gate = current_gate_label(&result.snapshot.current_phase_id);
    let artifact_path = match find_phase(&result.snapshot.phases, result.phase_id.as_str()) {
        Some(i) => {
            assert(pv[i as int] == result.snapshot.phases@[i as int]@);
            owned(result.snapshot.phases[i].artifact_path.as_str())
        },
        None => owned("<unknown>"),
    };
    let note = match &result.note {
        Some(n) => owned(n.as_str()),
        None => owned("<none>"),
    };
    let mut lines: Vec<String> = Vec::new();
    push_line(&mut lines, owned("Workflow gate updated"));
    push_line(&mut lines, line_with("  Phase            ", result.phase_id.as_str()));
    push_line(&mut lines, line_with("  Decision         ", result.action.as_str()));
    push_line(&mut lines, line_with("  Artifact         ", artifact_path.as_str()));
    push_line(&mut lines, line_with("  Note             ", note.as_str()));
    push_line(&mut lines, line_with("  Current gate     ", current_gate.as_str()));
    push_line(&mut lines, render_summary_line(&result.snapshot));
    proof {
        lemma_find_phase_from(pv, current_gate@, 0);
    }
    match find_phase(&result.snapshot.phases, current_gate.as_str()) {
        Some(i) => {
            assert(pv[i as int] == result.snapshot.phases@[i as int]@);
            push_line(&mut lines, line_with("  Next artifact    ", result.snapshot.phases[i].artifact_path.as_str()));
        },
        None => {},
    }
    assert(lines.deep_view() =~= mutation_lines(rv));
    join(&lines, "\n")
}

} // verus!
