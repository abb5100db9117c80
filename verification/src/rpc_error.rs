//! Errors of the identity service and their JSON-RPC form (`jsonrpc_core::Error`).
use vstd::prelude::*;
use crate::user::InsertError;

verus! {

#[verifier::external_type_specification]
#[verifier::external_body]
pub struct ExRpcError(jsonrpc_core::Error);

/// Server-error code sent to clients that write to a node that is not the leader.
pub const NOT_LEADER_ERROR: i64 = -32005;

/// What `jsonrpc_core::Error::invalid_params` builds for a message.
pub uninterp spec fn invalid_params_error(message: Seq<char>) -> jsonrpc_core::Error;

/// Calls `jsonrpc_core::Error::invalid_params(message)`; its result is named.
#[verifier::external_body]
fn invalid_params(message: &str) -> (err: jsonrpc_core::Error)
    ensures
        err == invalid_params_error(message@),
{
    jsonrpc_core::Error::invalid_params(message)
}

/// Error code of an internal JSON-RPC error.
pub const INTERNAL_ERROR_CODE: i64 = -32603;

/// What `jsonrpc_core::Error::new(ErrorCode::from(code))` builds for a code.
pub uninterp spec fn coded_error(code: i64) -> jsonrpc_core::Error;

/// Calls `jsonrpc_core::Error::new` with the error code that `ErrorCode::from`
/// gives for `code`: a reserved code such as -32603 gives its own variant (-32603 is
/// `InternalError`, so this is then what `Error::internal_error()` builds), any other
/// code `ServerError(code)`. The error carries the code's standard description
/// and no data. Its result is named.
#[verifier::external_body]
fn new_coded_error(code: i64) -> (err: jsonrpc_core::Error)
    ensures
        err == coded_error(code),
{
    jsonrpc_core::Error::new(jsonrpc_core::ErrorCode::from(code))
}

/// Why a request to the identity service failed.
#[derive(Debug, PartialEq, Clone, Copy)]
pub enum ServiceError {
    /// The requested login name is already in use.
    LoginnameConflict,
    /// No user has the given login name.
    NoSuchLoginname,
    /// The given password does not match.
    IncorrectPassword,
    /// Hashing or checking a password failed, or a snapshot could not be used.
    Internal,
    /// This node is not the leader; the leader it knows of, if any.
    NotLeader { leader_id: Option<u64> },
    /// A replication request without the replication key.
    NotAllowed,
}

pub open spec fn conflict_message() -> Seq<char> {
    "Specified loginname is already in use"@
}

impl InsertError {
    /// The JSON-RPC error sent for a login-name conflict.
    pub fn into_rpc_error(self) -> (err: jsonrpc_core::Error)
        ensures
            err == invalid_params_error(conflict_message()),
    {
        match self {
            InsertError::LoginnameConflict => invalid_params("Specified loginname is already in use"),
        }
    }
}

impl ServiceError {
    /// The JSON-RPC error sent for this failure. For `NotLeader` it carries the
    /// not-leader code; the data naming the leader is attached where the error is
    /// serialised.
    pub fn into_rpc_error(self) -> (err: jsonrpc_core::Error)
        ensures
            self == ServiceError::LoginnameConflict ==> err == invalid_params_error(
                conflict_message(),
            ),
            self == ServiceError::NoSuchLoginname ==> err == invalid_params_error(
                "No such existing loginname"@,
            ),
            self == ServiceError::IncorrectPassword ==> err == invalid_params_error(
                "Incorrect password"@,
            ),
            self == ServiceError::Internal ==> err == coded_error(INTERNAL_ERROR_CODE),
            self is NotLeader ==> err == coded_error(NOT_LEADER_ERROR),
            self == ServiceError::NotAllowed ==> err == invalid_params_error("not allowed"@),
    {
        match self {
            ServiceError::LoginnameConflict => InsertError::LoginnameConflict.into_rpc_error(),
            ServiceError::NoSuchLoginname => invalid_params("No such existing loginname"),
            ServiceError::IncorrectPassword => invalid_params("Incorrect password"),
            ServiceError::Internal => new_coded_error(INTERNAL_ERROR_CODE),
            ServiceError::NotLeader { .. } => new_coded_error(NOT_LEADER_ERROR),
            ServiceError::NotAllowed => invalid_params("not allowed"),
        }
    }
}

} // verus!
