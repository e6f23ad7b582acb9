//! The options of the command line and the rules between them.

use vstd::prelude::*;
use crate::messages::{AlignError, error_msg, get_error_msg, success_msg, get_success_msg};
use crate::style::{bright_red, bright_red_text, bright_green, bright_green_text};
use crate::text::push_str;

verus! {

/// The options of the command line.
#[derive(Debug)]
pub struct Cli {
    /// Path to folder containing `pyproject.toml` and `uv.lock` files.
    pub path: String,
    /// Show a diff of dependency updates without applying them.
    pub check: bool,
    /// Automatically apply all changes without prompting.
    pub yes: bool,
    /// Upgrade dependencies in `uv.lock` with `uv lock --upgrade`.
    pub upgrade: bool,
    /// Show detailed information about dependency updates.
    pub verbose: bool,
}

/// The arguments that the tool runs with.
#[derive(Debug)]
pub struct CliArgs {
    pub path: String,
    pub check: bool,
    pub yes: bool,
    pub upgrade: bool,
    pub verbose: bool,
}

/// The arguments of a parsed command line, field by field.
pub fn parse_cli_args(cli: &Cli) -> (args: CliArgs)
    ensures
        args.path@ == cli.path@,
        args.check == cli.check,
        args.yes == cli.yes,
        args.upgrade == cli.upgrade,
        args.verbose == cli.verbose,
{
    CliArgs {
        path: cli.path.clone(),
        check: cli.check,
        yes: cli.yes,
        upgrade: cli.upgrade,
        verbose: cli.verbose,
    }
}

/// The error text for two flags given together.
pub open spec fn conflicting_flags_message(flag_1_name: Seq<char>, flag_2_name: Seq<char>) -> Seq<char> {
    error_msg(
        "The '"@ + bright_red_text(flag_1_name) + "' and '"@ + bright_red_text(flag_2_name)
            + "' flags cannot be used together."@,
    )
}

/// Validate that two flags are not used together.
pub fn validate_conflicting_flags(
    flag_1: bool,
    flag_2: bool,
    flag_1_name: &str,
    flag_2_name: &str,
) -> (r: Result<(), AlignError>)
    ensures
        r is Err <==> flag_1 && flag_2,
        r matches Err(e) ==> e.message_view() == conflicting_flags_message(flag_1_name@, flag_2_name@)
            && e.cause_view() is None,
{
    if flag_1 && flag_2 {
        let mut msg = String::new();
        push_str(&mut msg, "The '");
        let first = bright_red(flag_1_name);
        push_str(&mut msg, first.as_str());
        push_str(&mut msg, "' and '");
        let second = bright_red(flag_2_name);
        push_str(&mut msg, second.as_str());
        push_str(&mut msg, "' flags cannot be used together.");
        return Err(AlignError { message: get_error_msg(msg.as_str()), cause: None });
    }
    Ok(())
}

/// The hint shown after a check that found changes.
pub open spec fn check_mode_hint_text(path: Seq<char>) -> Seq<char> {
    success_msg(
        "Run '"@ + bright_green_text("uv-align"@) + " "@ + bright_green_text(path) + "' without the '"@
            + bright_green_text("--check"@) + "' flag to apply changes."@,
    )
}

/// The hint that tells how to apply the changes that a check found.
pub fn check_mode_hint(path: &str) -> (r: String)
    ensures
        r@ == check_mode_hint_text(path@),
{
    let mut msg = String::new();
    push_str(&mut msg, "Run '");
    let tool = bright_green("uv-align");
    push_str(&mut msg, tool.as_str());
    push_str(&mut msg, " ");
    let shown = bright_green(path);
    push_str(&mut msg, shown.as_str());
    push_str(&mut msg, "' without the '");
    let flag = bright_green("--check");
    push_str(&mut msg, flag.as_str());
    push_str(&mut msg, "' flag to apply changes.");
    get_success_msg(msg.as_str())
}

/// What the tool does once it knows how many dependencies are out of sync.
#[derive(Clone, Copy, PartialEq, Eq, Structural, Debug)]
pub enum NextStep {
    /// Nothing to change: report that the files are in sync.
    InSync,
    /// `--check`: show the changes and fail, writing nothing.
    ShowOnly,
    /// Ask before writing the changes.
    Confirm,
    /// `--yes`: write the changes without asking.
    Apply,
}

pub open spec fn next_step_spec(change_count: nat, check: bool, yes: bool) -> NextStep {
    if change_count == 0 {
        NextStep::InSync
    } else if check {
        NextStep::ShowOnly
    } else if yes {
        NextStep::Apply
    } else {
        NextStep::Confirm
    }
}

/// What to do after computing the changes: report being in sync when there
/// are none; otherwise, with `--check` only show them, with `--yes` write
/// them, and else ask first.
pub fn next_step(change_count: usize, check: bool, yes: bool) -> (r: NextStep)
    ensures
        r == next_step_spec(change_count as nat, check, yes),
{
    if change_count == 0 {
        NextStep::InSync
    } else if check {
        NextStep::ShowOnly
    } else if yes {
        NextStep::Apply
    } else {
        NextStep::Confirm
    }
}

pub open spec fn exit_code_spec(step: NextStep) -> i32 {
    match step {
        NextStep::ShowOnly => 1,
        _ => 0,
    }
}

/// The process's exit code for a step: 1 after a check that found changes,
/// 0 otherwise.
pub fn exit_code(step: NextStep) -> (r: i32)
    ensures
        r == exit_code_spec(step),
{
    match step {
        NextStep::ShowOnly => 1,
        _ => 0,
    }
}

/// Whether a key pressed at the prompt confirms the changes: `y` or `Y`.
pub fn confirms(key: char) -> (r: bool)
    ensures
        r == (key == 'y' || key == 'Y'),
{
    key == 'y' || key == 'Y'
}

} // verus!
