//! The checks made before any file is read or written: the project folder,
//! the two files, and the `uv` command.

use vstd::prelude::*;
use crate::messages::{AlignError, error_msg, get_error_msg};
use crate::style::{bright_red, bright_red_text};
use crate::text::{push_str, words, split_words, string_views, signed_decimal, i32_text};

verus! {

/// The error text for a project folder that is missing or not a folder.
pub open spec fn root_directory_message(path: Seq<char>) -> Seq<char> {
    error_msg("The specified path does not exist or is not a directory: "@ + bright_red_text(path))
}

/// Validate that the specified root directory exists and is a directory:
/// `path` as shown to the user, and what the file system says of it.
pub fn validate_root_directory_exists(path: &str, exists: bool, is_dir: bool) -> (r: Result<(), AlignError>)
    ensures
        r is Ok <==> exists && is_dir,
        r matches Err(e) ==> e.message_view() == root_directory_message(path@) && e.cause_view() is None,
{
    if exists && is_dir {
        Ok(())
    } else {
        let mut msg = String::new();
        push_str(&mut msg, "The specified path does not exist or is not a directory: ");
        let red = bright_red(path);
        push_str(&mut msg, red.as_str());
        Err(AlignError { message: get_error_msg(msg.as_str()), cause: None })
    }
}

/// The error text for a required file that is missing.
pub open spec fn missing_file_message(file: Seq<char>, full_path: Seq<char>) -> Seq<char> {
    error_msg(
        "The required file '"@ + bright_red_text(file) + "' does not exist at: "@ + bright_red_text(
            full_path,
        ),
    )
}

/// Validate that the specified file exists: `file` as given, `full_path` the
/// place where it was looked for, and whether the file system has it.
pub fn validate_file_exists(file: &str, full_path: &str, exists: bool) -> (r: Result<(), AlignError>)
    ensures
        r is Ok <==> exists,
        r matches Err(e) ==> e.message_view() == missing_file_message(file@, full_path@)
            && e.cause_view() is None,
{
    if exists {
        Ok(())
    } else {
        let mut msg = String::new();
        push_str(&mut msg, "The required file '");
        let red_file = bright_red(file);
        push_str(&mut msg, red_file.as_str());
        push_str(&mut msg, "' does not exist at: ");
        let red_full = bright_red(full_path);
        push_str(&mut msg, red_full.as_str());
        Err(AlignError { message: get_error_msg(msg.as_str()), cause: None })
    }
}

/// The error text for a `uv` that could not be started.
pub open spec fn uv_missing_message(error: Seq<char>) -> Seq<char> {
    error_msg(
        "Failed to execute '"@ + bright_red_text("uv"@)
            + "'. Ensure it is installed and available in the PATH. Error: "@ + bright_red_text(
            error,
        ),
    )
}

/// Check `uv` command availability, given how starting `uv --version` went:
/// nothing when it started, the system's error text when it did not.
pub fn check_uv_command(launch_error: Option<&str>) -> (r: Result<(), AlignError>)
    ensures
        r is Ok <==> launch_error is None,
        r matches Err(e) ==> e.message_view() == uv_missing_message(launch_error.unwrap()@)
            && e.cause_view() is None,
{
    match launch_error {
        None => Ok(()),
        Some(err) => {
            let mut msg = String::new();
            push_str(&mut msg, "Failed to execute '");
            let red_uv = bright_red("uv");
            push_str(&mut msg, red_uv.as_str());
            push_str(&mut msg, "'. Ensure it is installed and available in the PATH. Error: ");
            let red_err = bright_red(err);
            push_str(&mut msg, red_err.as_str());
            Err(AlignError { message: get_error_msg(msg.as_str()), cause: None })
        },
    }
}

/// The program and arguments of a command line: its white-space separated words.
pub fn command_words(command: &str) -> (r: Vec<String>)
    ensures
        string_views(r@) == words(command@),
{
    split_words(command)
}

/// The error text for an upgrade command that could not be started.
pub open spec fn launch_failure_message(command: Seq<char>, error: Seq<char>) -> Seq<char> {
    error_msg("Failed to execute '"@ + bright_red_text(command) + "'. Error: "@ + bright_red_text(error))
}

/// The error for an upgrade command that could not be started.
pub fn launch_failure(command: &str, error: &str) -> (e: AlignError)
    ensures
        e.message_view() == launch_failure_message(command@, error@),
        e.cause_view() is None,
{
    let mut msg = String::new();
    push_str(&mut msg, "Failed to execute '");
    let red_cmd = bright_red(command);
    push_str(&mut msg, red_cmd.as_str());
    push_str(&mut msg, "'. Error: ");
    let red_err = bright_red(error);
    push_str(&mut msg, red_err.as_str());
    AlignError { message: get_error_msg(msg.as_str()), cause: None }
}

/// The error text for an upgrade command that ran and failed: its exit code,
/// or -1 where it has none.
pub open spec fn exit_failure_message(command: Seq<char>, code: Option<i32>) -> Seq<char> {
    error_msg(
        "'"@ + bright_red_text(command) + "' command failed with exit code: "@ + bright_red_text(
            signed_decimal(
                match code {
                    Some(c) => c as int,
                    None => -1,
                },
            ),
        ),
    )
}

/// Check how the upgrade command ended: fine when it succeeded, an error
/// with its exit code otherwise.
pub fn check_upgrade_status(command: &str, success: bool, code: Option<i32>) -> (r: Result<(), AlignError>)
    ensures
        r is Ok <==> success,
        r matches Err(e) ==> e.message_view() == exit_failure_message(command@, code)
            && e.cause_view() is None,
{
    if success {
        return Ok(());
    }
    let shown: i32 = match code {
        Some(c) => c,
        None => -1,
    };
    let mut msg = String::new();
    push_str(&mut msg, "'");
    let red_cmd = bright_red(command);
    push_str(&mut msg, red_cmd.as_str());
    push_str(&mut msg, "' command failed with exit code: ");
    let number = i32_text(shown);
    let red_code = bright_red(number.as_str());
    push_str(&mut msg, red_code.as_str());
    Err(AlignError { message: get_error_msg(msg.as_str()), cause: None })
}

/// How running the upgrade command turned out, from how starting it went
/// (`launch_error`, the system's error text where it could not be started)
/// and, once it ran, whether it succeeded and its exit code: fine exactly
/// when it started and succeeded; a launch error where it could not start;
/// the exit-code error where it ran and failed.
pub fn upgrade_outcome(command: &str, launch_error: Option<&str>, success: bool, code: Option<i32>) -> (r: Result<(), AlignError>)
    ensures
        r is Ok <==> launch_error is None && success,
        launch_error matches Some(err) ==> (r matches Err(e) && e.message_view()
            == launch_failure_message(command@, err@) && e.cause_view() is None),
        launch_error is None && !success ==> (r matches Err(e) && e.message_view()
            == exit_failure_message(command@, code) && e.cause_view() is None),
{
    match launch_error {
        Some(err) => Err(launch_failure(command, err)),
        None => check_upgrade_status(command, success, code),
    }
}

} // verus!
