//! The failures of the service and the response that each one is answered
//! with.

use vstd::prelude::*;
use vstd::string::*;

verus! {

/// Status of a response to a request for something that does not exist.
pub const NOT_FOUND: u16 = 404;

/// Status of a response to a request that failed inside the service.
pub const INTERNAL_SERVER_ERROR: u16 = 500;

/// A failure of the service. The variants that come from the store, the
/// connection pool or the decoder carry the text of the underlying error.
#[derive(Debug, PartialEq, Eq)]
pub enum OrderApiError {
    /// The connection manager could not be made at start-up.
    DBCreatingManagerError(String),
    /// The connection pool could not be built at start-up.
    DBCreatingPoolError(String),
    /// No connection could be had from the pool.
    DBPoolError(String),
    /// The store failed on a query.
    DBQueryError(String),
    /// What was asked for does not exist.
    NotFound,
    /// A failure whose cause is kept from the caller.
    InternalServerError,
    /// A document did not decode into an order, or an order did not encode.
    SerDeError(String),
}

/// What a failure is answered with: a status and a message for the caller.
/// The transport adds the time of the answer.
#[derive(Debug, PartialEq, Eq)]
pub struct ErrorResponse {
    pub status: u16,
    pub message: String,
}

impl OrderApiError {
    /// The status that the failure is answered with: 404 for what does not
    /// exist, 500 for everything else.
    pub open spec fn status(self) -> u16 {
        match self {
            OrderApiError::NotFound => NOT_FOUND,
            _ => INTERNAL_SERVER_ERROR,
        }
    }

    /// The message that the failure is answered with. Failures of the pool
    /// and of a query name their cause; the others do not.
    pub open spec fn message(self) -> Seq<char> {
        match self {
            OrderApiError::DBPoolError(cause) => "Database pool error: "@ + cause@,
            OrderApiError::DBQueryError(cause) => "Database query error: "@ + cause@,
            OrderApiError::NotFound => "The requested resource was not found!"@,
            _ => "Internal server error!"@,
        }
    }

    /// The failure described in words, with the text of its cause.
    pub open spec fn description(self) -> Seq<char> {
        match self {
            OrderApiError::DBCreatingManagerError(cause) => "Error to create connection manager: "@
                + cause@,
            OrderApiError::DBCreatingPoolError(cause) => "Error to create db pool: "@ + cause@,
            OrderApiError::DBPoolError(cause) => "Error getting connection from DB pool: "@
                + cause@,
            OrderApiError::DBQueryError(cause) => "Database query error: "@ + cause@,
            OrderApiError::NotFound => "Not found"@,
            OrderApiError::InternalServerError => "Internal server error"@,
            OrderApiError::SerDeError(cause) => "Serde error: "@ + cause@,
        }
    }

    /// The response that answers the failure.
    pub fn into_response(self) -> (response: ErrorResponse)
        ensures
            response.status == self.status(),
            response.message@ == self.message(),
    {
        let (status, message) = match self {
            OrderApiError::DBPoolError(cause) => (
                INTERNAL_SERVER_ERROR,
                String::from_str("Database pool error: ").concat(cause.as_str()),
            ),
            OrderApiError::DBQueryError(cause) => (
                INTERNAL_SERVER_ERROR,
                String::from_str("Database query error: ").concat(cause.as_str()),
            ),
            OrderApiError::NotFound => (
                NOT_FOUND,
                String::from_str("The requested resource was not found!"),
            ),
            _ => (INTERNAL_SERVER_ERROR, String::from_str("Internal server error!")),
        };
        ErrorResponse { status, message }
    }

    /// The failure described in words, with the text of its cause.
    pub fn to_string(&self) -> (text: String)
        ensures
            text@ == self.description(),
    {
        match self {
            OrderApiError::DBCreatingManagerError(cause) => String::from_str(
                "Error to create connection manager: ",
            ).concat(cause.as_str()),
            OrderApiError::DBCreatingPoolError(cause) => String::from_str(
                "Error to create db pool: ",
            ).concat(cause.as_str()),
            OrderApiError::DBPoolError(cause) => String::from_str(
                "Error getting connection from DB pool: ",
            ).concat(cause.as_str()),
            OrderApiError::DBQueryError(cause) => String::from_str(
                "Database query error: ",
            ).concat(cause.as_str()),
            OrderApiError::NotFound => String::from_str("Not found"),
            OrderApiError::InternalServerError => String::from_str("Internal server error"),
            OrderApiError::SerDeError(cause) => String::from_str("Serde error: ").concat(
                cause.as_str(),
            ),
        }
    }
}

} // verus!
