//! The failures that a session can report.

use vstd::prelude::*;

verus! {

/// Why an operation could not be carried out.
#[derive(Clone, Copy, Debug, PartialEq, Eq, Structural)]
pub enum Error {
    /// The caller lacks the rights to manage services.
    PermissionDenied,
    /// The driver binary's path does not name an existing file.
    BinaryNotFound,
    /// The service could neither be registered nor found.
    ServiceUnavailable,
    /// The driver's endpoint did not appear within the allowed attempts.
    EndpointUnavailable,
    /// A control exchange failed, or did not bring what the protocol requires.
    ChannelError,
}

impl Error {
    /// A sentence for the user.
    pub fn describe(&self) -> (text: &'static str)
        ensures
            text@ == (match *self {
                Error::PermissionDenied => "administrative rights are required to manage the driver service"@,
                Error::BinaryNotFound => "the driver binary was not found"@,
                Error::ServiceUnavailable => "the driver service could be neither registered nor opened"@,
                Error::EndpointUnavailable => "the driver's endpoint did not become available"@,
                Error::ChannelError => "a control exchange with the driver failed"@,
            }),
    {
        match self {
            Error::PermissionDenied => "administrative rights are required to manage the driver service",
            Error::BinaryNotFound => "the driver binary was not found",
            Error::ServiceUnavailable => "the driver service could be neither registered nor opened",
            Error::EndpointUnavailable => "the driver's endpoint did not become available",
            Error::ChannelError => "a control exchange with the driver failed",
        }
    }
}

} // verus!
