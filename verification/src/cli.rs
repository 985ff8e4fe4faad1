//! The `workflow` command line: splitting a REPL line into arguments and
//! parsing the arguments into a command.
use vstd::prelude::*;
use vstd::string::*;
use crate::text::{
    char_count, chars_of, char_is_white_space, is_blank, is_white_space, owned, push_char, skip_chars,
    starts_with, str_eq, trimmed,
};

verus! {

/// A `workflow` command as given on the command line.
#[derive(Debug, Clone, PartialEq, Eq)]
pub enum WorkflowCliCommand {
    Init { template_path: Option<String>, force: bool },
    Status,
    Config,
    GateApprove { phase_id: Option<String>, note: Option<String> },
    GateReturn { phase_id: Option<String>, reason: String },
}

/// The value of a `WorkflowCliCommand`, with text as character sequences.
pub enum CliCommandView {
    Init { template_path: Option<Seq<char>>, force: bool },
    Status,
    Config,
    GateApprove { phase_id: Option<Seq<char>>, note: Option<Seq<char>> },
    GateReturn { phase_id: Option<Seq<char>>, reason: Seq<char> },
}

impl View for WorkflowCliCommand {
    type V = CliCommandView;

    open spec fn view(&self) -> CliCommandView {
        match self {
            WorkflowCliCommand::Init { template_path, force } => CliCommandView::Init {
                template_path: crate::model::opt_str(*template_path),
                force: *force,
            },
            WorkflowCliCommand::Status => CliCommandView::Status,
            WorkflowCliCommand::Config => CliCommandView::Config,
            WorkflowCliCommand::GateApprove { phase_id, note } => CliCommandView::GateApprove {
                phase_id: crate::model::opt_str(*phase_id),
                note: crate::model::opt_str(*note),
            },
            WorkflowCliCommand::GateReturn { phase_id, reason } => CliCommandView::GateReturn {
                phase_id: crate::model::opt_str(*phase_id),
                reason: reason@,
            },
        }
    }
}

/// The view of a parse result.
pub open spec fn parsed_view(r: Result<WorkflowCliCommand, String>) -> Result<CliCommandView, Seq<char>> {
    match r {
        Ok(c) => Ok(c@),
        Err(e) => Err(e@),
    }
}

// ---------------------------------------------------------------------------
// Splitting a line into arguments.
// ---------------------------------------------------------------------------

/// The quote that is open while splitting a line.
#[derive(Debug, Clone, Copy, PartialEq, Eq, Structural)]
pub enum QuoteKind {
    Single,
    Double,
}

impl QuoteKind {
    pub open spec fn spec_char(self) -> char {
        match self {
            QuoteKind::Single => '\'',
            QuoteKind::Double => '"',
        }
    }
}

/// Where the splitter stands: the arguments so far, the argument being read,
/// whether one is being read, and the open quote.
pub struct SplitState {
    pub args: Seq<Seq<char>>,
    pub token: Seq<char>,
    pub started: bool,
    pub quote: Option<QuoteKind>,
}

pub open spec fn split_start() -> SplitState {
    SplitState { args: Seq::empty(), token: Seq::empty(), started: false, quote: None }
}

pub open spec fn dangling_backslash_message() -> Seq<char> {
    "workflow arguments end with dangling backslash"@
}

pub open spec fn dangling_backslash_in_quotes_message() -> Seq<char> {
    "workflow arguments end with dangling backslash inside quotes"@
}

pub open spec fn unmatched_quote_message(q: QuoteKind) -> Seq<char> {
    "workflow arguments contain unmatched "@ + seq![q.spec_char()] + " quote"@
}

/// The same state with `c` added to the argument being read.
pub open spec fn with_char(st: SplitState, c: char) -> SplitState {
    SplitState { token: st.token.push(c), started: true, ..st }
}

/// The arguments of `line[i..]`, read from state `st`: outside quotes white
/// space separates arguments, `\` takes the next character literally, and
/// `'` or `"` open a quote; inside single quotes every character is literal;
/// inside double quotes `\` takes the next character literally.
pub open spec fn split_from(line: Seq<char>, i: int, st: SplitState) -> Result<Seq<Seq<char>>, Seq<char>>
    decreases line.len() - i,
{
    if i < 0 || i >= line.len() {
        match st.quote {
            Some(q) => Err(unmatched_quote_message(q)),
            None => Ok(if st.started { st.args.push(st.token) } else { st.args }),
        }
    } else {
        let c = line[i];
        match st.quote {
            None => {
                if c == '\'' {
                    split_from(line, i + 1, SplitState { quote: Some(QuoteKind::Single), started: true, ..st })
                } else if c == '"' {
                    split_from(line, i + 1, SplitState { quote: Some(QuoteKind::Double), started: true, ..st })
                } else if c == '\\' {
                    if i + 1 >= line.len() {
                        Err(dangling_backslash_message())
                    } else {
                        split_from(line, i + 2, with_char(st, line[i + 1]))
                    }
                } else if is_white_space(c) {
                    if st.started {
                        split_from(line, i + 1, SplitState { args: st.args.push(st.token), token: Seq::empty(), started: false, quote: None })
                    } else {
                        split_from(line, i + 1, st)
                    }
                } else {
                    split_from(line, i + 1, with_char(st, c))
                }
            },
            Some(QuoteKind::Single) => {
                if c == '\'' {
                    split_from(line, i + 1, SplitState { quote: None, ..st })
                } else {
                    split_from(line, i + 1, with_char(st, c))
                }
            },
            Some(QuoteKind::Double) => {
                if c == '"' {
                    split_from(line, i + 1, SplitState { quote: None, ..st })
                } else if c == '\\' {
                    if i + 1 >= line.len() {
                        Err(dangling_backslash_in_quotes_message())
                    } else {
                        split_from(line, i + 2, with_char(st, line[i + 1]))
                    }
                } else {
                    split_from(line, i + 1, with_char(st, c))
                }
            },
        }
    }
}

/// The arguments of a whole line.
pub open spec fn spec_split_repl_args(line: Seq<char>) -> Result<Seq<Seq<char>>, Seq<char>> {
    split_from(line, 0, split_start())
}

pub open spec fn split_view(r: Result<Vec<String>, String>) -> Result<Seq<Seq<char>>, Seq<char>> {
    match r {
        Ok(v) => Ok(v.deep_view()),
        Err(e) => Err(e@),
    }
}

/// Splits a REPL line into arguments, shell style.
pub fn split_repl_args(input: &str) -> (r: Result<Vec<String>, String>)
    ensures
        split_view(r) == spec_split_repl_args(input@),
{
    let cs = chars_of(input);
    let n = cs.len();
    let mut args: Vec<String> = Vec::new();
    let mut token = String::new();
    let mut token_started = false;
    let mut quote: Option<QuoteKind> = None;
    let mut i: usize = 0;
    assert(args.deep_view() =~= Seq::<Seq<char>>::empty());
    assert(token@ =~= Seq::<char>::empty());
    while i < n
        invariant
            cs@ == input@,
            n == cs@.len(),
            i <= n,
            quote is Some ==> token_started,
            split_from(input@, i as int, SplitState { args: args.deep_view(), token: token@, started: token_started, quote })
                == spec_split_repl_args(input@),
        decreases n - i,
    {
        let ch = cs[i];
        let ghost st = SplitState { args: args.deep_view(), token: token@, started: token_started, quote };
        let ghost i0 = i as int;
        match quote {
            None => {
                if ch == '\'' {
                    quote = Some(QuoteKind::Single);
                    token_started = true;
                    i = i + 1;
                } else if ch == '"' {
                    quote = Some(QuoteKind::Double);
                    token_started = true;
                    i = i + 1;
                } else if ch == '\\' {
                    if i + 1 >= n {
                        return Err(owned("workflow arguments end with dangling backslash"));
                    }
                    push_char(&mut token, cs[i + 1]);
                    token_started = true;
                    i = i + 2;
                } else if char_is_white_space(ch) {
                    if token_started {
                        let ghost old_args = args.deep_view();
                        args.push(token);
                        token = String::new();
                        token_started = false;
                        assert(args.deep_view() =~= old_args.push(st.token));
                    }
                    i = i + 1;
                } else {
                    push_char(&mut token, ch);
                    token_started = true;
                    i = i + 1;
                }
            },
            Some(QuoteKind::Single) => {
                if ch == '\'' {
                    quote = None;
                } else {
                    push_char(&mut token, ch);
                }
                i = i + 1;
            },
            Some(QuoteKind::Double) => {
                if ch == '"' {
                    quote = None;
                    i = i + 1;
                } else if ch == '\\' {
                    if i + 1 >= n {
                        return Err(owned("workflow arguments end with dangling backslash inside quotes"));
                    }
                    push_char(&mut token, cs[i + 1]);
                    i = i + 2;
                } else {
                    push_char(&mut token, ch);
                    i = i + 1;
                }
            },
        }
        assert(split_from(input@, i0, st) == split_from(input@, i as int, SplitState { args: args.deep_view(), token: token@, started: token_started, quote }));
    }
    match quote {
        Some(q) => {
            let mut message = owned("workflow arguments contain unmatched ");
            match q {
                QuoteKind::Single => push_char(&mut message, '\''),
                QuoteKind::Double => push_char(&mut message, '"'),
            }
            message.append(" quote");
            assert(message@ =~= unmatched_quote_message(q));
            return Err(message);
        },
        None => {},
    }
    if token_started {
        let ghost old_args = args.deep_view();
        let ghost t = token@;
        args.push(token);
        assert(args.deep_view() =~= old_args.push(t));
    }
    Ok(args)
}


// ---------------------------------------------------------------------------
// Parsing arguments into a command.
// ---------------------------------------------------------------------------

/// The command that `args` (the words after `workflow`) ask for, or the
/// message that says why they do not parse.
pub open spec fn spec_parse_workflow_args(args: Seq<Seq<char>>) -> Result<CliCommandView, Seq<char>> {
    if args.len() == 0 {
        Err("workflow requires a subcommand: init, status, config, or gate"@)
    } else if args[0] == "init"@ {
        spec_parse_init_from(args, 1, None, false)
    } else if args[0] == "status"@ {
        if args.len() == 1 {
            Ok(CliCommandView::Status)
        } else {
            Err("workflow status does not accept additional arguments"@)
        }
    } else if args[0] == "config"@ {
        if args.len() == 1 {
            Ok(CliCommandView::Config)
        } else {
            Err("workflow config does not accept additional arguments"@)
        }
    } else if args[0] == "gate"@ {
        spec_parse_gate(args.skip(1))
    } else {
        Err("unknown workflow subcommand: "@ + args[0])
    }
}

/// `workflow gate ...`: the action, then its options.
pub open spec fn spec_parse_gate(args: Seq<Seq<char>>) -> Result<CliCommandView, Seq<char>> {
    if args.len() == 0 {
        Err("workflow gate requires `approve` or `return`"@)
    } else if args[0] == "approve"@ {
        spec_parse_approve_from(args, 1, None, None)
    } else if args[0] == "return"@ {
        spec_parse_return_from(args, 1, None, None)
    } else {
        Err("unknown workflow gate action: "@ + args[0])
    }
}

pub open spec fn empty_config_message() -> Seq<char> {
    "workflow init --config requires a non-empty path"@
}

/// `workflow init` options from index `i` on, with what was read before it.
pub open spec fn spec_parse_init_from(
    args: Seq<Seq<char>>,
    i: int,
    template_path: Option<Seq<char>>,
    force: bool,
) -> Result<CliCommandView, Seq<char>>
    decreases args.len() - i,
{
    if i < 0 || i >= args.len() {
        Ok(CliCommandView::Init { template_path, force })
    } else if args[i] == "--config"@ {
        if i + 1 >= args.len() {
            Err("missing value for workflow init --config"@)
        } else if trimmed(args[i + 1]).len() == 0 {
            Err(empty_config_message())
        } else {
            spec_parse_init_from(args, i + 2, Some(args[i + 1]), force)
        }
    } else if "--config="@.is_prefix_of(args[i]) {
        let value = args[i].skip("--config="@.len() as int);
        if trimmed(value).len() == 0 {
            Err(empty_config_message())
        } else {
            spec_parse_init_from(args, i + 1, Some(value), force)
        }
    } else if args[i] == "--force"@ {
        spec_parse_init_from(args, i + 1, template_path, true)
    } else {
        Err("unknown workflow init option: "@ + args[i])
    }
}

/// `workflow gate approve` options from index `i` on.
pub open spec fn spec_parse_approve_from(
    args: Seq<Seq<char>>,
    i: int,
    phase_id: Option<Seq<char>>,
    note: Option<Seq<char>>,
) -> Result<CliCommandView, Seq<char>>
    decreases args.len() - i,
{
    if i < 0 || i >= args.len() {
        Ok(CliCommandView::GateApprove { phase_id, note })
    } else if args[i] == "--phase"@ {
        if i + 1 >= args.len() {
            Err("missing value for workflow gate approve --phase"@)
        } else {
            spec_parse_approve_from(args, i + 2, Some(args[i + 1]), note)
        }
    } else if "--phase="@.is_prefix_of(args[i]) {
        spec_parse_approve_from(args, i + 1, Some(args[i].skip("--phase="@.len() as int)), note)
    } else if args[i] == "--note"@ {
        if i + 1 >= args.len() {
            Err("missing value for workflow gate approve --note"@)
        } else {
            spec_parse_approve_from(args, i + 2, phase_id, Some(args[i + 1]))
        }
    } else if "--note="@.is_prefix_of(args[i]) {
        spec_parse_approve_from(args, i + 1, phase_id, Some(args[i].skip("--note="@.len() as int)))
    } else if !"--"@.is_prefix_of(args[i]) && phase_id is None {
        spec_parse_approve_from(args, i + 1, Some(args[i]), note)
    } else {
        Err("unknown workflow gate approve option: "@ + args[i])
    }
}

/// `workflow gate return` options from index `i` on.
pub open spec fn spec_parse_return_from(
    args: Seq<Seq<char>>,
    i: int,
    phase_id: Option<Seq<char>>,
    reason: Option<Seq<char>>,
) -> Result<CliCommandView, Seq<char>>
    decreases args.len() - i,
{
    if i < 0 || i >= args.len() {
        match reason {
            Some(reason) => Ok(CliCommandView::GateReturn { phase_id, reason }),
            None => Err("workflow gate return requires --reason \"...\" to explain the rollback"@),
        }
    } else if args[i] == "--phase"@ {
        if i + 1 >= args.len() {
            Err("missing value for workflow gate return --phase"@)
        } else {
            spec_parse_return_from(args, i + 2, Some(args[i + 1]), reason)
        }
    } else if "--phase="@.is_prefix_of(args[i]) {
        spec_parse_return_from(args, i + 1, Some(args[i].skip("--phase="@.len() as int)), reason)
    } else if args[i] == "--reason"@ {
        if i + 1 >= args.len() {
            Err("missing value for workflow gate return --reason"@)
        } else {
            spec_parse_return_from(args, i + 2, phase_id, Some(args[i + 1]))
        }
    } else if "--reason="@.is_prefix_of(args[i]) {
        spec_parse_return_from(args, i + 1, phase_id, Some(args[i].skip("--reason="@.len() as int)))
    } else if !"--"@.is_prefix_of(args[i]) && phase_id is None {
        spec_parse_return_from(args, i + 1, Some(args[i]), reason)
    } else {
        Err("unknown workflow gate return option: "@ + args[i])
    }
}

/// `prefix` followed by `tail`.
fn message_with(prefix: &str, tail: &str) -> (r: String)
    ensures
        r@ == prefix@ + tail@,
{
    let mut m = owned(prefix);
    m.append(tail);
    m
}

/// A copy of an argument.
fn copy_arg(s: &String) -> (r: String)
    ensures
        r@ == s@,
{
    owned(s.as_str())
}

/// Parses the words after `workflow` into a command.
pub fn parse_workflow_args(args: &[String]) -> (r: Result<WorkflowCliCommand, String>)
    ensures
        parsed_view(r) == spec_parse_workflow_args(args.deep_view()),
{
    if args.len() == 0 {
        return Err(owned("workflow requires a subcommand: init, status, config, or gate"));
    }
    let subcommand = args[0].as_str();
    assert(args.deep_view()[0] == subcommand@);
    if str_eq(subcommand, "init") {
        parse_workflow_init_args(args, 1)
    } else if str_eq(subcommand, "status") {
        if args.len() == 1 {
            Ok(WorkflowCliCommand::Status)
        } else {
            Err(owned("workflow status does not accept additional arguments"))
        }
    } else if str_eq(subcommand, "config") {
        if args.len() == 1 {
            Ok(WorkflowCliCommand::Config)
        } else {
            Err(owned("workflow config does not accept additional arguments"))
        }
    } else if str_eq(subcommand, "gate") {
        let rest = &args[1..args.len()];
        assert(rest.deep_view() =~= args.deep_view().skip(1));
        parse_workflow_gate_args(rest)
    } else {
        Err(message_with("unknown workflow subcommand: ", subcommand))
    }
}

/// Parses `workflow gate ...`.
fn parse_workflow_gate_args(args: &[String]) -> (r: Result<WorkflowCliCommand, String>)
    ensures
        parsed_view(r) == spec_parse_gate(args.deep_view()),
{
    if args.len() == 0 {
        return Err(owned("workflow gate requires `approve` or `return`"));
    }
    let action = args[0].as_str();
    assert(args.deep_view()[0] == action@);
    if str_eq(action, "approve") {
        parse_gate_approve_args(args, 1)
    } else if str_eq(action, "return") {
        parse_gate_return_args(args, 1)
    } else {
        Err(message_with("unknown workflow gate action: ", action))
    }
}

/// Parses the options of `workflow init`, from `args[start]` on.
fn parse_workflow_init_args(args: &[String], start: usize) -> (r: Result<WorkflowCliCommand, String>)
    requires
        start <= args@.len(),
    ensures
        parsed_view(r) == spec_parse_init_from(args.deep_view(), start as int, None, false),
{
    let ghost dv = args.deep_view();
    let mut template_path: Option<String> = None;
    let mut force = false;
    let mut index = start;
    while index < args.len()
        invariant
            dv == args.deep_view(),
            start <= index <= args@.len(),
            spec_parse_init_from(dv, index as int, crate::model::opt_str(template_path), force)
                == spec_parse_init_from(dv, start as int, None, false),
        decreases args.len() - index,
    {
        let option = args[index].as_str();
        assert(dv[index as int] == option@);
        if str_eq(option, "--config") {
            if index + 1 >= args.len() {
                return Err(owned("missing value for workflow init --config"));
            }
            let value = &args[index + 1];
            assert(dv[index + 1] == value@);
            if is_blank(value.as_str()) {
                return Err(owned("workflow init --config requires a non-empty path"));
            }
            template_path = Some(copy_arg(value));
            index = index + 2;
        } else if starts_with(option, "--config=") {
            let value = skip_chars(option, char_count("--config="));
            if is_blank(value.as_str()) {
                return Err(owned("workflow init --config requires a non-empty path"));
            }
            template_path = Some(value);
            index = index + 1;
        } else if str_eq(option, "--force") {
            force = true;
            index = index + 1;
        } else {
            return Err(message_with("unknown workflow init option: ", option));
        }
    }
    Ok(WorkflowCliCommand::Init { template_path, force })
}

/// Parses the options of `workflow gate approve`, from `args[start]` on.
fn parse_gate_approve_args(args: &[String], start: usize) -> (r: Result<WorkflowCliCommand, String>)
    requires
        start <= args@.len(),
    ensures
        parsed_view(r) == spec_parse_approve_from(args.deep_view(), start as int, None, None),
{
    let ghost dv = args.deep_view();
    let mut phase_id: Option<String> = None;
    let mut note: Option<String> = None;
    let mut index = start;
    while index < args.len()
        invariant
            dv == args.deep_view(),
            start <= index <= args@.len(),
            spec_parse_approve_from(dv, index as int, crate::model::opt_str(phase_id), crate::model::opt_str(note))
                == spec_parse_approve_from(dv, start as int, None, None),
        decreases args.len() - index,
    {
        let option = args[index].as_str();
        assert(dv[index as int] == option@);
        if str_eq(option, "--phase") {
            if index + 1 >= args.len() {
                return Err(owned("missing value for workflow gate approve --phase"));
            }
            assert(dv[index + 1] == args@[index + 1]@);
            phase_id = Some(copy_arg(&args[index + 1]));
            index = index + 2;
        } else if starts_with(option, "--phase=") {
            phase_id = Some(skip_chars(option, char_count("--phase=")));
            index = index + 1;
        } else if str_eq(option, "--note") {
            if index + 1 >= args.len() {
                return Err(owned("missing value for workflow gate approve --note"));
            }
            assert(dv[index + 1] == args@[index + 1]@);
            note = Some(copy_arg(&args[index + 1]));
            index = index + 2;
        } else if starts_with(option, "--note=") {
            note = Some(skip_chars(option, char_count("--note=")));
            index = index + 1;
        } else if !starts_with(option, "--") && phase_id.is_none() {
            phase_id = Some(owned(option));
            index = index + 1;
        } else {
            return Err(message_with("unknown workflow gate approve option: ", option));
        }
    }
    Ok(WorkflowCliCommand::GateApprove { phase_id, note })
}

/// Parses the options of `workflow gate return`, from `args[start]` on.
fn parse_gate_return_args(args: &[String], start: usize) -> (r: Result<WorkflowCliCommand, String>)
    requires
        start <= args@.len(),
    ensures
        parsed_view(r) == spec_parse_return_from(args.deep_view(), start as int, None, None),
{
    let ghost dv = args.deep_view();
    let mut phase_id: Option<String> = None;
    let mut reason: Option<String> = None;
    let mut index = start;
    while index < args.len()
        invariant
            dv == args.deep_view(),
            start <= index <= args@.len(),
            spec_parse_return_from(dv, index as int, crate::model::opt_str(phase_id), crate::model::opt_str(reason))
                == spec_parse_return_from(dv, start as int, None, None),
        decreases args.len() - index,
    {
        let option = args[index].as_str();
        assert(dv[index as int] == option@);
        if str_eq(option, "--phase") {
            if index + 1 >= args.len() {
                return Err(owned("missing value for workflow gate return --phase"));
            }
            assert(dv[index + 1] == args@[index + 1]@);
            phase_id = Some(copy_arg(&args[index + 1]));
            index = index + 2;
        } else if starts_with(option, "--phase=") {
            phase_id = Some(skip_chars(option, char_count("--phase=")));
            index = index + 1;
        } else if str_eq(option, "--reason") {
            if index + 1 >= args.len() {
                return Err(owned("missing value for workflow gate return --reason"));
            }
            assert(dv[index + 1] == args@[index + 1]@);
            reason = Some(copy_arg(&args[index + 1]));
            index = index + 2;
        } else if starts_with(option, "--reason=") {
            reason = Some(skip_chars(option, char_count("--reason=")));
            index = index + 1;
        } else if !starts_with(option, "--") && phase_id.is_none() {
            phase_id = Some(owned(option));
            index = index + 1;
        } else {
            return Err(message_with("unknown workflow gate return option: ", option));
        }
    }
    match reason {
        Some(reason) => Ok(WorkflowCliCommand::GateReturn { phase_id, reason }),
        None => Err(owned("workflow gate return requires --reason \"...\" to explain the rollback")),
    }
}

} // verus!
