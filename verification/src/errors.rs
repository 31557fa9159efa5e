//! Failures that the card service reports, and how each is presented.

use vstd::prelude::*;
use vstd::string::StringExecFns;

verus! {

/// What went wrong inside the backing store.
#[derive(Debug, Clone, Copy, PartialEq, Eq, Structural)]
pub enum StorageFault {
    /// A row with the same primary key already exists.
    DuplicateKey,
    /// The store ran out of row identifiers.
    RowIdsExhausted,
    /// A card does not have exactly one todo row per slot.
    SlotCountMismatch,
    /// The storage engine itself reported a failure.
    Backend,
}

/// Failures of the card service.
#[derive(Debug)]
pub enum ServerError {
    /// The bearer credential is missing or invalid.
    Unauthenticated,
    /// The caller does not own the resource it tried to change.
    NotOwner { user_id: String, resource: &'static str },
    /// The backing store failed.
    Storage { fault: StorageFault },
    /// The request violates an input rule.
    Validation { message: String },
}

/// HTTP status for a missing or invalid credential.
pub const STATUS_UNAUTHORIZED: u16 = 401;

/// HTTP status for an operation on somebody else's resource.
pub const STATUS_FORBIDDEN: u16 = 403;

/// HTTP status for a failure of the backing store.
pub const STATUS_INTERNAL_SERVER_ERROR: u16 = 500;

/// HTTP status for a request that violates an input rule.
pub const STATUS_BAD_REQUEST: u16 = 400;

impl StorageFault {
    /// Short description of the fault.
    pub open spec fn spec_describe(self) -> Seq<char> {
        match self {
            StorageFault::DuplicateKey => "duplicate key"@,
            StorageFault::RowIdsExhausted => "row identifiers exhausted"@,
            StorageFault::SlotCountMismatch => "card without exactly one row per slot"@,
            StorageFault::Backend => "storage engine failure"@,
        }
    }

    /// Short description of the fault.
    pub fn describe(&self) -> (s: &'static str)
        ensures
            s@ == self.spec_describe(),
    {
        match self {
            StorageFault::DuplicateKey => "duplicate key",
            StorageFault::RowIdsExhausted => "row identifiers exhausted",
            StorageFault::SlotCountMismatch => "card without exactly one row per slot",
            StorageFault::Backend => "storage engine failure",
        }
    }
}

impl ServerError {
    /// The HTTP status that the error is reported with.
    pub open spec fn spec_status(self) -> u16 {
        match self {
            ServerError::Unauthenticated => STATUS_UNAUTHORIZED,
            ServerError::NotOwner { .. } => STATUS_FORBIDDEN,
            ServerError::Storage { .. } => STATUS_INTERNAL_SERVER_ERROR,
            ServerError::Validation { .. } => STATUS_BAD_REQUEST,
        }
    }

    /// The line written to the server log for the error.
    pub open spec fn spec_message(self) -> Seq<char> {
        match self {
            ServerError::Unauthenticated => "missing or invalid bearer token"@,
            ServerError::NotOwner { user_id, resource } => "User(id = "@ + user_id@
                + ") requested operation on "@ + resource@ + " which is NOT of the user"@,
            ServerError::Storage { fault } => "Error in store: "@ + fault.spec_describe(),
            ServerError::Validation { message } => "Invalid request: "@ + message@,
        }
    }

    /// The HTTP status that the error is reported with.
    pub fn status(&self) -> (code: u16)
        ensures
            code == self.spec_status(),
    {
        match self {
            ServerError::Unauthenticated => STATUS_UNAUTHORIZED,
            ServerError::NotOwner { .. } => STATUS_FORBIDDEN,
            ServerError::Storage { .. } => STATUS_INTERNAL_SERVER_ERROR,
            ServerError::Validation { .. } => STATUS_BAD_REQUEST,
        }
    }

    /// The line written to the server log for the error.
    pub fn message(&self) -> (text: String)
        ensures
            text@ == self.spec_message(),
    {
        match self {
            ServerError::Unauthenticated => String::from_str("missing or invalid bearer token"),
            ServerError::NotOwner { user_id, resource } => {
                let mut text = String::from_str("User(id = ");
                text.append(user_id.as_str());
                text.append(") requested operation on ");
                text.append(resource);
                text.append(" which is NOT of the user");
                text
            },
            ServerError::Storage { fault } => {
                let mut text = String::from_str("Error in store: ");
                text.append(fault.describe());
                text
            },
            ServerError::Validation { message } => {
                let mut text = String::from_str("Invalid request: ");
                text.append(message.as_str());
                text
            },
        }
    }
}

} // verus!
