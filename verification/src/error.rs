//! Errors of the secret operations.

use vstd::prelude::*;

verus! {

/// An operation that a backend may not support.
#[derive(Debug, Clone, Copy, PartialEq, Eq, Structural)]
pub enum Operation {
    /// Listing a sandbox's secrets.
    SecretList,
    /// Rotating a sandbox's secret.
    SecretRotate,
}

/// Why an operation is not supported.
#[derive(Debug, Clone, Copy, PartialEq, Eq, Structural)]
pub enum UnsupportedReason {
    /// Only the cloud backend serves it.
    CloudOnly,
}

/// What went wrong in an operation.
#[derive(Debug)]
pub enum MicrosandboxError {
    /// The backend does not serve the operation.
    Unsupported {
        /// The operation.
        op: Operation,
        /// Why it is not served.
        reason: UnsupportedReason,
    },
    /// The cloud API answered with an error status.
    CloudHttp {
        /// The HTTP status.
        status: u16,
        /// The stable machine-readable code, where the answer carried one.
        code: Option<String>,
        /// The human-readable text.
        message: String,
    },
    /// The operation failed.
    Runtime(String),
}

impl Operation {
    /// The name of the operation in the API.
    pub open spec fn path(self) -> Seq<char> {
        match self {
            Operation::SecretList => "Secret::list"@,
            Operation::SecretRotate => "Secret::rotate"@,
        }
    }

    /// The name of the operation in the API.
    pub fn api_path(self) -> (path: &'static str)
        ensures
            path@ == self.path(),
    {
        match self {
            Operation::SecretList => "Secret::list",
            Operation::SecretRotate => "Secret::rotate",
        }
    }
}

impl MicrosandboxError {
    /// The error of an operation that a backend does not serve.
    pub fn unsupported(op: Operation, reason: UnsupportedReason) -> (error: MicrosandboxError)
        ensures
            error == (MicrosandboxError::Unsupported { op, reason }),
    {
        MicrosandboxError::Unsupported { op, reason }
    }
}

} // verus!
