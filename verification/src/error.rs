//! The ways a request can fail, and what a client is told of each.
use vstd::prelude::*;
use vstd::std_specs::convert::FromSpecImpl;
use vstd::string::StringExecFns;

verus! {

/// `mysql::Error`, the error of the store's driver. Nothing is claimed of what
/// such a value holds: it is only carried from the failed call to whoever
/// reports it.
#[verifier::external_type_specification]
#[verifier::external_body]
pub struct ExMysqlError(mysql::Error);

/// Why a request for owners could not be answered.
#[derive(Debug)]
pub enum PetsDbError {
    /// The store failed: no connection, a rejected statement, a broken reply.
    MysqlError(mysql::Error),
    /// The store answered, and it has no owner with the identifier asked for.
    OwnerNotFound,
}

/// What a client receives in place of a result.
#[derive(Debug, Clone, PartialEq, Eq)]
pub struct ErrorResponse {
    pub status: u16,
    pub body: String,
}

/// The status reported for a failure of the store.
pub const INTERNAL_SERVER_ERROR: u16 = 500;

/// The status reported for an owner that does not exist.
pub const NOT_FOUND: u16 = 404;

impl PetsDbError {
    /// The HTTP status that stands for this error.
    pub open spec fn status(&self) -> u16 {
        match self {
            PetsDbError::MysqlError(_) => INTERNAL_SERVER_ERROR,
            PetsDbError::OwnerNotFound => NOT_FOUND,
        }
    }

    /// The sentence that describes this error to a client. It says nothing of
    /// what went wrong inside the store.
    pub open spec fn description(&self) -> Seq<char> {
        match self {
            PetsDbError::MysqlError(_) => "Internal server error"@,
            PetsDbError::OwnerNotFound => "Owner not found"@,
        }
    }

    /// The HTTP status that stands for this error.
    pub fn status_code(&self) -> (code: u16)
        ensures
            code == self.status(),
    {
        match self {
            PetsDbError::MysqlError(_) => INTERNAL_SERVER_ERROR,
            PetsDbError::OwnerNotFound => NOT_FOUND,
        }
    }

    /// The sentence that describes this error to a client.
    pub fn message(&self) -> (text: String)
        ensures
            text@ == self.description(),
    {
        match self {
            PetsDbError::MysqlError(_) => String::from_str("Internal server error"),
            PetsDbError::OwnerNotFound => String::from_str("Owner not found"),
        }
    }

    /// The status and body sent to the client for this error.
    pub fn error_response(&self) -> (response: ErrorResponse)
        ensures
            response.status == self.status(),
            response.body@ == self.description(),
    {
        ErrorResponse { status: self.status_code(), body: self.message() }
    }
}

impl From<mysql::Error> for PetsDbError {
    fn from(error: mysql::Error) -> (converted: PetsDbError) {
        PetsDbError::MysqlError(error)
    }
}

impl FromSpecImpl<mysql::Error> for PetsDbError {
    open spec fn obeys_from_spec() -> bool {
        true
    }

    open spec fn from_spec(error: mysql::Error) -> PetsDbError {
        PetsDbError::MysqlError(error)
    }
}

} // verus!
