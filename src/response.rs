//! How outcomes are reported to clients.

use vstd::prelude::*;

use crate::table::OrderError;

verus! {

/// The status of a request that succeeded.
pub const SUCCESS_STATUS: u16 = 200;

/// The status of a request whose input was rejected.
pub const BAD_REQUEST_STATUS: u16 = 400;

/// The status of a request that the store failed.
pub const SERVER_ERROR_STATUS: u16 = 500;

impl OrderError {
    /// The response status that reports this error: the client's fault for a
    /// rejected field, the server's for a store failure.
    pub fn status(&self) -> (s: u16)
        ensures
            s == (match self {
                OrderError::Validation(_) => BAD_REQUEST_STATUS,
                OrderError::Storage => SERVER_ERROR_STATUS,
            }),
    {
        match self {
            OrderError::Validation(_) => BAD_REQUEST_STATUS,
            OrderError::Storage => SERVER_ERROR_STATUS,
        }
    }
}

/// The response status of a request: success, or the status of its error.
pub fn response_status<T>(r: &Result<T, OrderError>) -> (s: u16)
    ensures
        s == (match r {
            Ok(_) => SUCCESS_STATUS,
            Err(OrderError::Validation(_)) => BAD_REQUEST_STATUS,
            Err(OrderError::Storage) => SERVER_ERROR_STATUS,
        }),
{
    match r {
        Ok(_) => SUCCESS_STATUS,
        Err(e) => e.status(),
    }
}

/// The error with which a failed query is reported; it names the kind of
/// failure and nothing of its cause.
#[derive(Debug)]
pub struct SqlError {
    name: &'static str,
}

/// The prefix of every `SqlError` message.
pub const SQL_ERROR_PREFIX: &'static str = "my error: ";

impl SqlError {
    pub fn new(name: &'static str) -> (e: SqlError)
        ensures
            e.spec_name() == name,
    {
        SqlError { name }
    }

    pub closed spec fn spec_name(&self) -> &'static str {
        self.name
    }

    pub fn name(&self) -> (r: &'static str)
        ensures
            r == self.spec_name(),
    {
        self.name
    }

    /// The message that reports the error.
    pub fn message(&self) -> (r: String)
        ensures
            r@ == SQL_ERROR_PREFIX@ + self.spec_name()@,
    {
        String::from_str(SQL_ERROR_PREFIX).concat(self.name)
    }
}

} // verus!
