//! The error type shared by every command, with the stable exit-code
//! contract: 1 other, 2 usage, 3 auth, 4 not found, 5 network or upstream.

use vstd::prelude::*;

verus! {

/// A failure, by kind, with a message the user can act on.
#[derive(Debug)]
pub enum AppError {
    /// Anything else (exit 1).
    Other(String),
    /// Bad arguments or input (exit 2).
    Usage(String),
    /// Missing, expired or rejected credentials (exit 3).
    Auth(String),
    /// The thing asked for does not exist (exit 4).
    NotFound(String),
    /// The service answered with something unusable (exit 5).
    Upstream(String),
    /// The network failed (exit 5).
    Network(String),
}

impl AppError {
    /// Process exit code for this kind of failure.
    pub open spec fn code(&self) -> i32 {
        match self {
            AppError::Other(_) => 1,
            AppError::Usage(_) => 2,
            AppError::Auth(_) => 3,
            AppError::NotFound(_) => 4,
            AppError::Upstream(_) => 5,
            AppError::Network(_) => 5,
        }
    }

    /// The kind of failure as a number: the exit code, except that a
    /// network failure is told apart from an unusable answer as 6.
    pub open spec fn kind(&self) -> i32 {
        match self {
            AppError::Network(_) => 6,
            _ => self.code(),
        }
    }

    /// The message carried by this error.
    pub open spec fn text(&self) -> Seq<char> {
        match self {
            AppError::Other(m) => m@,
            AppError::Usage(m) => m@,
            AppError::Auth(m) => m@,
            AppError::NotFound(m) => m@,
            AppError::Upstream(m) => m@,
            AppError::Network(m) => m@,
        }
    }

    /// Process exit code for this kind of failure.
    pub fn exit_code(&self) -> (res: i32)
        ensures
            res == self.code(),
    {
        match self {
            AppError::Other(_) => 1,
            AppError::Usage(_) => 2,
            AppError::Auth(_) => 3,
            AppError::NotFound(_) => 4,
            AppError::Upstream(_) => 5,
            AppError::Network(_) => 5,
        }
    }

    /// The message carried by this error.
    pub fn message(&self) -> (res: String)
        ensures
            res@ == self.text(),
    {
        match self {
            AppError::Other(m) => m.clone(),
            AppError::Usage(m) => m.clone(),
            AppError::Auth(m) => m.clone(),
            AppError::NotFound(m) => m.clone(),
            AppError::Upstream(m) => m.clone(),
            AppError::Network(m) => m.clone(),
        }
    }
}

} // verus!
