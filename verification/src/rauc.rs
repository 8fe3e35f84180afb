//! Marking the booted slot good or bad through the update mechanism's
//! command-line tool, invoked via an injectable runner.

use vstd::prelude::*;
use crate::cmd::{msg_view, run_checked, spec_exit_outcome, CmdRunner};

verus! {

/// Marks the currently booted slot as good. The result is exactly what
/// checking the tool's exit yields: an error when the command could not be
/// executed or exited unsuccessfully.
pub fn mark_good<R: CmdRunner>(runner: &R) -> (r: Result<(), String>)
    ensures
        exists|st: Result<bool, String>|
            msg_view(r) == spec_exit_outcome(st, "rauc status mark-good"@),
{
    run_checked(runner, "rauc", &["status", "mark-good"], "rauc status mark-good")
}

/// Marks the currently booted slot as bad. The result is exactly what
/// checking the tool's exit yields: an error when the command could not be
/// executed or exited unsuccessfully.
pub fn mark_bad<R: CmdRunner>(runner: &R) -> (r: Result<(), String>)
    ensures
        exists|st: Result<bool, String>|
            msg_view(r) == spec_exit_outcome(st, "rauc status mark-bad"@),
{
    run_checked(runner, "rauc", &["status", "mark-bad"], "rauc status mark-bad")
}

} // verus!
