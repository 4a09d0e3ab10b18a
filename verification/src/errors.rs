//! The error taxonomy shared by every operation: authentication and
//! validation failures, quota refusals, resource conflicts, and failures of
//! the runtime engine or the durable store.

use vstd::prelude::*;

verus! {

/// Why an operation was refused or failed.
#[derive(Clone, Copy, Debug, PartialEq, Eq, Structural)]
pub enum ApiError {
    /// No identity, or an identity that could not be established.
    Unauthorized,
    /// A valid identity that lacks the right the operation needs.
    Forbidden,
    /// The request itself is malformed or out of the accepted ranges.
    BadRequest,
    /// The owner's balance does not cover the price of the request.
    InsufficientCredits,
    /// The owner already holds as many containers as the plan allows.
    ContainerLimitReached,
    /// Every port of the leasable range is taken.
    PortExhausted,
    /// No container of that name exists for this owner.
    NameNotFound,
    /// The runtime engine could not be reached.
    EngineUnavailable,
    /// The runtime engine refused or failed the operation.
    OperationFailed,
    /// The durable store could not be reached.
    StoreUnavailable,
}

impl ApiError {
    /// A short stable label for logs and user-facing messages; internal
    /// detail is never put in front of users.
    pub fn label(&self) -> (r: &'static str)
        ensures
            r@ == self.spec_label(),
    {
        match self {
            ApiError::Unauthorized => "unauthorized",
            ApiError::Forbidden => "forbidden",
            ApiError::BadRequest => "bad request",
            ApiError::InsufficientCredits => "insufficient credits",
            ApiError::ContainerLimitReached => "container limit reached",
            ApiError::PortExhausted => "port range exhausted",
            ApiError::NameNotFound => "not found",
            ApiError::EngineUnavailable => "engine unavailable",
            ApiError::OperationFailed => "operation failed",
            ApiError::StoreUnavailable => "store unavailable",
        }
    }

    pub open spec fn spec_label(self) -> Seq<char> {
        match self {
            ApiError::Unauthorized => "unauthorized"@,
            ApiError::Forbidden => "forbidden"@,
            ApiError::BadRequest => "bad request"@,
            ApiError::InsufficientCredits => "insufficient credits"@,
            ApiError::ContainerLimitReached => "container limit reached"@,
            ApiError::PortExhausted => "port range exhausted"@,
            ApiError::NameNotFound => "not found"@,
            ApiError::EngineUnavailable => "engine unavailable"@,
            ApiError::OperationFailed => "operation failed"@,
            ApiError::StoreUnavailable => "store unavailable"@,
        }
    }
}

} // verus!
