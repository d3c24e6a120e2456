//! Failures as the program reports them, with their exit codes.

use vstd::prelude::*;

verus! {

/// The classes of outcome that the process exit code tells apart.
#[derive(Debug, Clone, Copy, PartialEq, Eq, Structural)]
pub enum ExitCode {
    Success,
    RuntimeFailure,
    Usage,
    Internal,
}

impl ExitCode {
    /// The exit code of the class.
    pub open spec fn number(self) -> int {
        match self {
            ExitCode::Success => 0,
            ExitCode::RuntimeFailure => 1,
            ExitCode::Usage => 2,
            ExitCode::Internal => 3,
        }
    }
}

/// A failure with its class and its message.
#[derive(Debug)]
pub struct AppError {
    code: ExitCode,
    message: String,
}

impl AppError {
    /// The class of the failure.
    pub closed spec fn kind(&self) -> ExitCode {
        self.code
    }

    /// The message of the failure.
    pub closed spec fn text(&self) -> Seq<char> {
        self.message@
    }

    /// A failure that lies with how the program was called or set up.
    pub fn usage(message: String) -> (e: Self)
        ensures
            e.kind() == ExitCode::Usage,
            e.text() == message@,
    {
        AppError { code: ExitCode::Usage, message }
    }

    /// A failure of a run.
    pub fn runtime(message: String) -> (e: Self)
        ensures
            e.kind() == ExitCode::RuntimeFailure,
            e.text() == message@,
    {
        AppError { code: ExitCode::RuntimeFailure, message }
    }

    /// A failure that lies with the program or the system.
    pub fn internal(message: String) -> (e: Self)
        ensures
            e.kind() == ExitCode::Internal,
            e.text() == message@,
    {
        AppError { code: ExitCode::Internal, message }
    }

    /// The exit code of the failure.
    pub fn code(&self) -> (n: i32)
        ensures
            n == self.kind().number(),
    {
        match self.code {
            ExitCode::Success => 0,
            ExitCode::RuntimeFailure => 1,
            ExitCode::Usage => 2,
            ExitCode::Internal => 3,
        }
    }

    /// The class of the failure.
    pub fn class(&self) -> (k: ExitCode)
        ensures
            k == self.kind(),
    {
        self.code
    }

    /// The message, as it is printed.
    pub fn to_string(&self) -> (s: String)
        ensures
            s@ == self.text(),
    {
        self.message.clone()
    }
}

impl Clone for AppError {
    /// The same failure once more.
    fn clone(&self) -> (e: Self)
        ensures
            e == *self,
    {
        AppError { code: self.code, message: self.message.clone() }
    }
}

} // verus!
