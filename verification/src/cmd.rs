//! Running external commands through an injectable runner, so that the
//! slot-marking logic can be exercised without spawning real processes.

use vstd::prelude::*;

verus! {

/// Runs `program` with `args` and reports whether it exited successfully,
/// or an error (mentioning `ctx`) when it could not be executed at all.
/// The real implementation spawns a process and so stands outside the
/// library; tests supply recording fakes.
pub trait CmdRunner {
    fn status(&self, program: &str, args: &[&str], ctx: &str) -> Result<bool, String>;
}

/// The message reported when a command ran but exited unsuccessfully.
pub open spec fn exited_msg(ctx: Seq<char>) -> Seq<char> {
    "`"@ + ctx + "` exited with a non-success status"@
}

/// A result with its error message taken as characters.
pub open spec fn msg_view(r: Result<(), String>) -> Result<(), Seq<char>> {
    match r {
        Result::Ok(u) => Result::Ok(u),
        Result::Err(m) => Result::Err(m@),
    }
}

/// What checking a command's exit yields: success passes through, an
/// unsuccessful exit becomes the `exited with` message, an execution
/// failure keeps its own message.
pub open spec fn spec_exit_outcome(
    status: Result<bool, String>,
    ctx: Seq<char>,
) -> Result<(), Seq<char>> {
    match status {
        Result::Ok(success) => if success {
            Result::Ok(())
        } else {
            Result::Err(exited_msg(ctx))
        },
        Result::Err(e) => Result::Err(e@),
    }
}

/// Turns a runner's report into the operation's result: a non-success exit
/// is an error naming `ctx`, and a failure to execute is passed through.
pub fn exit_to_result(status: Result<bool, String>, ctx: &str) -> (r: Result<(), String>)
    ensures
        msg_view(r) == spec_exit_outcome(status, ctx@),
{
    match status {
        Ok(success) => {
            if success {
                Ok(())
            } else {
                let mut m = String::new();
                m.append("`");
                m.append(ctx);
                m.append("` exited with a non-success status");
                proof {
                    assert(m@ =~= exited_msg(ctx@));
                }
                Err(m)
            }
        },
        Err(e) => Err(e),
    }
}

/// Runs a command and treats any non-success exit as an error: the result
/// is exactly what `spec_exit_outcome` yields for whatever the runner
/// reported.
pub fn run_checked<R: CmdRunner>(
    runner: &R,
    program: &str,
    args: &[&str],
    ctx: &str,
) -> (r: Result<(), String>)
    ensures
        exists|st: Result<bool, String>| msg_view(r) == spec_exit_outcome(st, ctx@),
{
    let st = runner.status(program, args, ctx);
    let ghost st_g = st;
    let r = exit_to_result(st, ctx);
    proof {
        assert(msg_view(r) == spec_exit_outcome(st_g, ctx@));
    }
    r
}

} // verus!
