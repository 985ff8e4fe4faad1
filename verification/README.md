# claw_workflow

Gated workflows for a workspace. A workflow configuration lists phases
(scope, plan, implement, review, verify by default); each phase ends at a
gate that is approved or sent back, and every decision is appended to a
numbered ledger. The state lives in `.claw/workflow-state.json`, the
configuration in `.claw/workflow.json`.

Layout:

- `src/` is the verified library (Verus). Its functions compute; they do
  not touch the file system or the clock. Initialization is a step function:
  it names the next file action, and takes back what happened.
- `src/laws.rs` states and proves what holds across calls: approvals form a
  prefix of the phases, an approval advances to the next gate, a return
  reopens a gate and resets the phases after it, the ledger only grows by
  numbered entries, the built-in workflow is valid, initialization writes
  only valid files and always finishes, and splitting plain words joined by
  spaces gives them back.
- `app/` reads and writes the JSON files (serde), reads the clock, runs the
  initialization steps, and renders command output as text or JSON.
- `tests/` exercises the library, with an in-memory workspace standing in
  for the file system.
