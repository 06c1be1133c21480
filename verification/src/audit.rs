//! The audit log a student PC keeps of every remote action, whether it worked or not.
//!
//! It lives on the PC the action was done to, so nothing is done without a trace there. Each
//! action is one line of tab-separated text that school IT can read and search without any tool
//! of ours; the application appends the lines to the file.

use crate::actions::{action_name, Action, ActionOutcome};
use crate::paths::{as_path, owned, path_of, path_owned};
use crate::text::{decimal, push_decimal};
use std::path::{Path, PathBuf};
use vstd::prelude::*;
use vstd::string::StringExecFns;

verus! {

/// An audit log stored at a path; the file is created on the first record.
pub struct AuditLog {
    path: PathBuf,
}

impl AuditLog {
    /// The path the log is kept at.
    pub closed spec fn location(&self) -> PathBuf {
        self.path
    }

    /// An audit log stored at `path`.
    pub fn new(path: &Path) -> (log: Self)
        ensures
            log.location() == path_owned(path),
    {
        AuditLog { path: owned(path) }
    }

    /// Where the lines are appended.
    pub fn path(&self) -> (p: &Path)
        ensures
            p == path_of(&self.location()),
    {
        as_path(&self.path)
    }
}

/// One audit line: time, console, action, detail and result, separated by tabs. The detail of a
/// countdown action is its requested delay, of any other action a dash; a failure is followed by
/// the text of its reason.
pub open spec fn line_spec(
    at_ms: u64,
    console: Seq<char>,
    action: Action,
    outcome: ActionOutcome,
    reason: Seq<char>,
) -> Seq<char> {
    let detail = match action {
        Action::Shutdown { delay_seconds } => "delay="@ + decimal(delay_seconds as nat) + "s"@,
        Action::Reboot { delay_seconds } => "delay="@ + decimal(delay_seconds as nat) + "s"@,
        _ => "-"@,
    };
    let result = match outcome {
        ActionOutcome::Started { delay_seconds } => "started in "@ + decimal(delay_seconds as nat)
            + "s"@,
        ActionOutcome::Failed(_) => "failed: "@ + reason,
    };
    decimal(at_ms as nat) + "\t"@ + console + "\t"@ + action_name(action) + "\t"@ + detail + "\t"@
        + result
}

/// Formats one audit line: `time_ms  console  action  detail  result`; `reason` is the text a
/// failure is explained by.
pub fn line(
    at_ms: u64,
    console: &str,
    action: Action,
    outcome: ActionOutcome,
    reason: &str,
) -> (line: String)
    ensures
        line@ == line_spec(at_ms, console@, action, outcome, reason@),
{
    let mut line = String::new();
    push_decimal(&mut line, at_ms);
    line.append("\t");
    line.append(console);
    line.append("\t");
    line.append(action.name());
    line.append("\t");
    match action {
        Action::Shutdown { delay_seconds } | Action::Reboot { delay_seconds } => {
            line.append("delay=");
            push_decimal(&mut line, delay_seconds as u64);
            line.append("s");
        },
        _ => {
            line.append("-");
        },
    }
    line.append("\t");
    match outcome {
        ActionOutcome::Started { delay_seconds } => {
            line.append("started in ");
            push_decimal(&mut line, delay_seconds as u64);
            line.append("s");
        },
        ActionOutcome::Failed(_) => {
            line.append("failed: ");
            line.append(reason);
        },
    }
    line
}

} // verus!
