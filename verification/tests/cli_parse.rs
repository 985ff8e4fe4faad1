use claw_workflow::cli::{parse_workflow_args, split_repl_args, WorkflowCliCommand};

#[test]
fn parses_init_command() {
    assert_eq!(
        parse_workflow_args(&["init".to_string()]).expect("init should parse"),
        WorkflowCliCommand::Init {
            template_path: None,
            force: false
        }
    );
    assert_eq!(
        parse_workflow_args(&[
            "init".to_string(),
            "--config".to_string(),
            "configs/workflow.json".to_string(),
            "--force".to_string(),
        ])
        .expect("init with custom template should parse"),
        WorkflowCliCommand::Init {
            template_path: Some("configs/workflow.json".to_string()),
            force: true
        }
    );
    assert_eq!(
        parse_workflow_args(&[
            "init".to_string(),
            "--config=templates/custom.json".to_string()
        ])
        .expect("init with inline config should parse"),
        WorkflowCliCommand::Init {
            template_path: Some("templates/custom.json".to_string()),
            force: false
        }
    );
    assert_eq!(
        parse_workflow_args(&["init".to_string(), "--config".to_string(), "".to_string()])
            .expect_err("empty --config value should be rejected"),
        "workflow init --config requires a non-empty path".to_string()
    );
    assert_eq!(
        parse_workflow_args(&["init".to_string(), "--config=".to_string()])
            .expect_err("empty --config= value should be rejected"),
        "workflow init --config requires a non-empty path".to_string()
    );
}

#[test]
fn parses_status_command() {
    assert_eq!(
        parse_workflow_args(&["status".to_string()]).expect("status should parse"),
        WorkflowCliCommand::Status
    );
}

#[test]
fn parses_config_command() {
    assert_eq!(
        parse_workflow_args(&["config".to_string()]).expect("config should parse"),
        WorkflowCliCommand::Config
    );
}

#[test]
fn parses_gate_return_with_phase_and_reason() {
    assert_eq!(
        parse_workflow_args(&[
            "gate".to_string(),
            "return".to_string(),
            "plan".to_string(),
            "--reason".to_string(),
            "missing coverage".to_string(),
        ])
        .expect("gate return should parse"),
        WorkflowCliCommand::GateReturn {
            phase_id: Some("plan".to_string()),
            reason: "missing coverage".to_string(),
        }
    );
}

fn words(items: &[&str]) -> Vec<String> {
    items.iter().map(|s| s.to_string()).collect()
}

#[test]
fn parse_rejects_missing_and_unknown_subcommands() {
    assert_eq!(
        parse_workflow_args(&[]).expect_err("no subcommand"),
        "workflow requires a subcommand: init, status, config, or gate"
    );
    assert_eq!(
        parse_workflow_args(&words(&["launch"])).expect_err("unknown subcommand"),
        "unknown workflow subcommand: launch"
    );
    assert_eq!(
        parse_workflow_args(&words(&["status", "extra"])).expect_err("status takes nothing"),
        "workflow status does not accept additional arguments"
    );
    assert_eq!(
        parse_workflow_args(&words(&["config", "extra"])).expect_err("config takes nothing"),
        "workflow config does not accept additional arguments"
    );
    assert_eq!(
        parse_workflow_args(&words(&["gate"])).expect_err("gate needs an action"),
        "workflow gate requires `approve` or `return`"
    );
    assert_eq!(
        parse_workflow_args(&words(&["gate", "skip"])).expect_err("unknown action"),
        "unknown workflow gate action: skip"
    );
}

#[test]
fn parse_init_rejects_bad_options() {
    assert_eq!(
        parse_workflow_args(&words(&["init", "--config"])).expect_err("missing value"),
        "missing value for workflow init --config"
    );
    assert_eq!(
        parse_workflow_args(&words(&["init", "--config", "   "])).expect_err("blank value"),
        "workflow init --config requires a non-empty path"
    );
    assert_eq!(
        parse_workflow_args(&words(&["init", "--verbose"])).expect_err("unknown option"),
        "unknown workflow init option: --verbose"
    );
}

#[test]
fn parse_gate_approve_forms() {
    assert_eq!(
        parse_workflow_args(&words(&["gate", "approve"])).expect("bare approve"),
        WorkflowCliCommand::GateApprove { phase_id: None, note: None }
    );
    assert_eq!(
        parse_workflow_args(&words(&["gate", "approve", "scope", "--note", "done"])).expect("positional phase"),
        WorkflowCliCommand::GateApprove {
            phase_id: Some("scope".to_string()),
            note: Some("done".to_string())
        }
    );
    assert_eq!(
        parse_workflow_args(&words(&["gate", "approve", "--phase=plan", "--note=ok"])).expect("inline values"),
        WorkflowCliCommand::GateApprove {
            phase_id: Some("plan".to_string()),
            note: Some("ok".to_string())
        }
    );
    assert_eq!(
        parse_workflow_args(&words(&["gate", "approve", "scope", "plan"])).expect_err("two phases"),
        "unknown workflow gate approve option: plan"
    );
    assert_eq!(
        parse_workflow_args(&words(&["gate", "approve", "--phase"])).expect_err("missing phase"),
        "missing value for workflow gate approve --phase"
    );
    assert_eq!(
        parse_workflow_args(&words(&["gate", "approve", "--note"])).expect_err("missing note"),
        "missing value for workflow gate approve --note"
    );
}

#[test]
fn parse_gate_return_needs_reason() {
    assert_eq!(
        parse_workflow_args(&words(&["gate", "return", "scope"])).expect_err("no reason"),
        "workflow gate return requires --reason \"...\" to explain the rollback"
    );
    assert_eq!(
        parse_workflow_args(&words(&["gate", "return", "--reason=redo", "--phase", "scope"])).expect("inline reason"),
        WorkflowCliCommand::GateReturn {
            phase_id: Some("scope".to_string()),
            reason: "redo".to_string()
        }
    );
    assert_eq!(
        parse_workflow_args(&words(&["gate", "return", "--reason"])).expect_err("missing reason value"),
        "missing value for workflow gate return --reason"
    );
    assert_eq!(
        parse_workflow_args(&words(&["gate", "return", "--bogus"])).expect_err("unknown option"),
        "unknown workflow gate return option: --bogus"
    );
}

#[test]
fn split_repl_args_handles_quotes_and_escapes() {
    assert_eq!(
        split_repl_args("gate return plan --reason \"missing coverage\"").expect("splits"),
        words(&["gate", "return", "plan", "--reason", "missing coverage"])
    );
    assert_eq!(
        split_repl_args("  a   'b c'  d\\ e ").expect("splits"),
        words(&["a", "b c", "d e"])
    );
    assert_eq!(split_repl_args("\"a\\\"b\"").expect("escaped quote"), words(&["a\"b"]));
    assert_eq!(split_repl_args("''").expect("empty quoted"), words(&[""]));
    assert_eq!(split_repl_args("").expect("empty line"), Vec::<String>::new());
    assert_eq!(split_repl_args("x\ty\u{3000}z").expect("unicode space"), words(&["x", "y", "z"]));
}

#[test]
fn split_repl_args_reports_errors() {
    assert_eq!(
        split_repl_args("abc\\").expect_err("dangling"),
        "workflow arguments end with dangling backslash"
    );
    assert_eq!(
        split_repl_args("\"abc\\").expect_err("dangling in quotes"),
        "workflow arguments end with dangling backslash inside quotes"
    );
    assert_eq!(
        split_repl_args("'abc").expect_err("unmatched single"),
        "workflow arguments contain unmatched ' quote"
    );
    assert_eq!(
        split_repl_args("\"abc").expect_err("unmatched double"),
        "workflow arguments contain unmatched \" quote"
    );
}

#[test]
fn split_plain_words_round_trip() {
    let original = words(&["gate", "approve", "--phase=scope", "--note=ok"]);
    assert_eq!(split_repl_args(&original.join(" ")).expect("splits"), original);
}

#[test]
fn split_without_quotes_is_whitespace_split() {
    for line in ["", "   ", "a", "  init  --force\t\n x ", "gate\u{2003}approve   scope"] {
        let expected: Vec<String> = line.split_whitespace().map(String::from).collect();
        assert_eq!(split_repl_args(line).expect("no quoting never fails"), expected);
    }
}

#[test]
fn split_fails_only_on_open_quote_or_trailing_backslash() {
    assert!(split_repl_args("a 'b' \\ \"c\\\"\"").is_ok());
    assert!(split_repl_args("'a\\'").is_ok());
    assert!(split_repl_args("a \"b").is_err());
    assert!(split_repl_args("a\\").is_err());
    assert!(split_repl_args("\"a\\\"").is_err());
}
