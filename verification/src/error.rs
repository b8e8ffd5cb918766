//! What can go wrong while a request is served.

use crate::address::Address;
use vstd::prelude::*;

verus! {

/// All possible errors that the website could encounter
#[derive(Debug)]
pub enum Error {
    /// Reading or writing failed.
    IoError(std::io::Error),
    /// The database refused a query.
    DbError(sea_orm::DbErr),
    /// What was given as an email address is none.
    AddressError(lettre::address::AddressError),
    /// The email message could not be put together.
    EmailError(lettre::error::Error),
    /// The email message could not be sent.
    SendError(String),
    /// No passcode is waiting for this address: none was asked for, it was
    /// used, or it timed out.
    EmailNotFound(Address),
    /// The passcode is not the one that was sent.
    CodeDoesNotMatch(u16),
    /// Server is shutting down and cannot accept new submissions
    ServerShutdown,
}

impl Error {
    /// The HTTP status that answers a request that ended in this error.
    pub open spec fn status(self) -> u16 {
        match self {
            Error::AddressError(_) => 400,
            Error::CodeDoesNotMatch(_) => 401,
            Error::EmailNotFound(_) => 410,
            Error::ServerShutdown => 503,
            Error::IoError(_) => 500,
            Error::DbError(_) => 500,
            Error::EmailError(_) => 500,
            Error::SendError(_) => 500,
        }
    }

    /// The HTTP status that answers a request that ended in this error: the
    /// client's faults and the shutdown have one of their own, everything else
    /// is an internal server error.
    pub fn status_code(&self) -> (status: u16)
        ensures
            status == self.status(),
    {
        match self {
            Error::IoError(_) => 500,
            Error::DbError(_) => 500,
            Error::AddressError(_) => 400,
            Error::EmailError(_) => 500,
            Error::SendError(_) => 500,
            Error::EmailNotFound(_) => 410,
            Error::CodeDoesNotMatch(_) => 401,
            Error::ServerShutdown => 503,
        }
    }
}

/// What the submitter is told once the mail transport has answered: nothing
/// where the message went out, the transport's own words where it did not.
pub fn send_outcome(sent: Result<(), String>) -> (outcome: Result<(), Error>)
    ensures
        outcome == match sent {
            Ok(()) => Ok(()),
            Err(reason) => Err(Error::SendError(reason)),
        },
{
    match sent {
        Ok(()) => Ok(()),
        Err(reason) => Err(Error::SendError(reason)),
    }
}

/// What each error is answered: 400 for what is no address, 401 for a wrong
/// code, 410 where no code is waiting, 503 during a shutdown, whatever the error
/// carries along, and 500 for everything that is not the client's fault.
pub proof fn law_errors_are_answered_by_whose_fault_they_are(error: Error)
    ensures
        error is AddressError <==> error.status() == 400,
        error is CodeDoesNotMatch <==> error.status() == 401,
        error is EmailNotFound <==> error.status() == 410,
        error is ServerShutdown <==> error.status() == 503,
        error is IoError || error is DbError || error is EmailError || error is SendError
            <==> error.status() == 500,
{
}

/// The submitter is told of success exactly if the transport had some, and
/// otherwise of the transport's own words.
pub proof fn law_submitter_is_told_what_the_transport_said(
    sent: Result<(), String>,
    outcome: Result<(), Error>,
)
    requires
        call_ensures(send_outcome, (sent,), outcome),
    ensures
        outcome is Ok <==> sent is Ok,
        sent matches Err(reason) ==> outcome == Err::<(), Error>(Error::SendError(reason)),
{
}

/// A request that ended in an error is answered by whose fault it is.
pub proof fn law_status_code_tells_whose_fault_it_is(error: Error, status: u16)
    requires
        call_ensures(Error::status_code, (&error,), status),
    ensures
        status == 400 <==> error is AddressError,
        status == 401 <==> error is CodeDoesNotMatch,
        status == 410 <==> error is EmailNotFound,
        status == 503 <==> error is ServerShutdown,
        status == 500 || status == 400 || status == 401 || status == 410 || status == 503,
{
}

} // verus!
