//! How the programs end.
use vstd::prelude::*;

verus! {

/// What a program reports when it ends.
#[derive(Debug, Clone, Copy, PartialEq, Eq, Structural)]
pub enum ExitStatus {
    /// Checking was successful and there were no errors.
    Success,
    /// Checking was successful but there were errors.
    Failure,
    /// Checking failed.
    Error,
}

impl ExitStatus {
    /// The exit code of a status.
    pub open spec fn code(self) -> int {
        match self {
            ExitStatus::Success => 0,
            ExitStatus::Failure => 1,
            ExitStatus::Error => 2,
        }
    }

    /// The exit code.
    pub fn to_i32(self) -> (code: i32)
        ensures
            code == self.code(),
    {
        match self {
            ExitStatus::Success => 0,
            ExitStatus::Failure => 1,
            ExitStatus::Error => 2,
        }
    }
}

/// What became of an error on its way to the user.
#[derive(Debug, Clone, Copy, PartialEq, Eq, Structural)]
pub enum ErrorReport {
    /// The error itself is that nobody reads the output any more.
    BrokenPipe,
    /// The error was written out.
    Written,
    /// The error could not be written out.
    WriteFailed { broken_pipe: bool },
}

/// The status that an error ends in: none where nobody reads the output any more.
pub fn exit_after_error(report: ErrorReport) -> (status: ExitStatus)
    ensures
        status == match report {
            ErrorReport::BrokenPipe => ExitStatus::Success,
            ErrorReport::WriteFailed { broken_pipe: true } => ExitStatus::Success,
            _ => ExitStatus::Error,
        },
{
    match report {
        ErrorReport::BrokenPipe => ExitStatus::Success,
        ErrorReport::WriteFailed { broken_pipe } => {
            if broken_pipe {
                ExitStatus::Success
            } else {
                ExitStatus::Error
            }
        },
        ErrorReport::Written => ExitStatus::Error,
    }
}

/// Different statuses have different exit codes.
pub proof fn law_codes_tell_statuses_apart(a: ExitStatus, b: ExitStatus)
    ensures
        a.code() == b.code() <==> a == b,
        0 <= a.code() <= 2,
{
}

/// The exit codes: nothing to complain of, failures, and a run that failed itself.
pub proof fn law_exit_codes(status: ExitStatus)
    ensures
        status == ExitStatus::Success <==> status.code() == 0,
        status == ExitStatus::Failure <==> status.code() == 1,
        status == ExitStatus::Error <==> status.code() == 2,
{
}

} // verus!
