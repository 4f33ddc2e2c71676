use vstd::prelude::*;
use vstd::string::*;
use crate::textfmt::{dec_digits, int_digits, write_decimal, write_int};

verus! {

broadcast use vstd::string::group_string_axioms;

/// The outcome of a `tzr` sub-command.
#[derive(Debug, Clone)]
pub struct CommandResult {
    pub command: String,
    pub exit_code: i32,
    pub duration_ms: u64,
    pub success: bool,
}

/// A one-line summary: the command, a check mark and the duration on
/// success; the command, a cross and the exit code otherwise.
pub open spec fn summary_text(r: CommandResult) -> Seq<char> {
    if r.success {
        r.command@ + " \u{2713} "@ + dec_digits(r.duration_ms as nat) + "ms"@
    } else {
        r.command@ + " \u{2717} exit "@ + int_digits(r.exit_code as int)
    }
}

impl CommandResult {
    /// A result for `command`, successful exactly when the exit code is 0.
    pub fn mock(command: &str, exit_code: i32, duration_ms: u64) -> (r: CommandResult)
        ensures
            r.command@ == command@,
            r.exit_code == exit_code,
            r.duration_ms == duration_ms,
            r.success == (exit_code == 0),
    {
        CommandResult { command: command.to_owned(), exit_code, duration_ms, success: exit_code == 0 }
    }

    /// The one-line summary of this result.
    pub fn summary(&self) -> (s: String)
        ensures
            s@ == summary_text(*self),
    {
        let mut out = self.command.clone();
        if self.success {
            out.append(" \u{2713} ");
            write_decimal(&mut out, self.duration_ms);
            out.append("ms");
        } else {
            out.append(" \u{2717} exit ");
            write_int(&mut out, self.exit_code);
        }
        out
    }
}

} // verus!
