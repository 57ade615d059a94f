//! The command log: one entry per git command a gesture ran, with its
//! outcome, so a failure's stderr stays reviewable after the footer
//! message moves on.
use vstd::prelude::*;

use crate::app::concat2;
use crate::git::{GitError, git_error_text};
use crate::parse::{parse_i32, parse_i32_spec};

verus! {

/// One command a gesture ran, with how it ended.
#[derive(Debug, Clone, PartialEq, Eq)]
pub struct CommandLogEntry {
    /// The command line that ran.
    pub command_line: String,
    /// Whether it succeeded.
    pub success: bool,
    /// Its exit code, when a process ran and reported one.
    pub code: Option<i32>,
    /// What it printed on stdout.
    pub stdout: String,
    /// What it printed on stderr (or, when no process ran, the error).
    pub stderr: String,
}

/// The command line of a branch switch to `name`.
pub open spec fn switch_command_line(name: Seq<char>) -> Seq<char> {
    "git switch -- "@ + name
}

/// The log entry of a `git switch -- <name>` attempt that gave back
/// `result`: success is a clean exit 0; a command error keeps git's exit
/// code (when it reads as an integer) and stderr; any other error never
/// reached a process, so it has no code and its text stands as stderr.
pub open spec fn switch_entry_matches(e: CommandLogEntry, name: Seq<char>, result: Result<(), GitError>) -> bool {
    &&& e.command_line@ == switch_command_line(name)
    &&& e.stdout@ == Seq::<char>::empty()
    &&& match result {
        Ok(_) => e.success && e.code == Some(0i32) && e.stderr@ == Seq::<char>::empty(),
        Err(GitError::Command { code, stderr, .. }) => !e.success && e.code == parse_i32_spec(code@)
            && e.stderr@ == stderr@,
        Err(err) => !e.success && e.code is None && e.stderr@ == git_error_text(err),
    }
}

/// Builds the log entry of a `git switch -- <name>` attempt (see
/// [`switch_entry_matches`]).
pub fn branch_switch_log_entry(name: &str, result: &Result<(), GitError>) -> (e: CommandLogEntry)
    ensures
        switch_entry_matches(e, name@, *result),
{
    let command_line = concat2("git switch -- ", name);
    proof {
        reveal_strlit("git switch -- ");
    }
    match result {
        Ok(()) => CommandLogEntry {
            command_line,
            success: true,
            code: Some(0),
            stdout: String::new(),
            stderr: String::new(),
        },
        Err(GitError::Command { code, stderr, .. }) => CommandLogEntry {
            command_line,
            success: false,
            code: parse_i32(code.as_str()),
            stdout: String::new(),
            stderr: stderr.clone(),
        },
        Err(e) => CommandLogEntry {
            command_line,
            success: false,
            code: None,
            stdout: String::new(),
            stderr: e.message(),
        },
    }
}

} // verus!
