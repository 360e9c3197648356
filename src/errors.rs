//! The failures of the service and the HTTP status each one is answered with.

use vstd::prelude::*;

verus! {

/// Failures that a client is meant to tell apart: a dead link, a rejected
/// key, a rejected address.
#[derive(Debug, Clone, Copy, PartialEq, Eq, Structural)]
pub enum SpecialErrors {
    /// The certificate has no primary user id with an email address.
    EmailMissing,
    /// The pending request was older than the configured maximum age.
    ExpiredRequest,
    /// No key is published for the requested address.
    InexistingUser,
    /// The primary key violates the certificate policy.
    InvalidCert,
    /// A subkey violates the certificate policy.
    KeyPolicyViolation,
    /// A key never expires although a maximum validity is configured.
    KeyNonExpiring,
    /// A key is valid for longer than the configured maximum.
    KeyValidityTooLong,
    /// The submitted key block could not be parsed.
    MalformedCert,
    /// The address does not hold exactly one `@`.
    MalformedEmail,
    /// The requested file does not exist.
    MissingFile,
    /// No pending request is stored under the token.
    MissingPending,
    /// The domain of the address is not served here.
    UnallowedDomain,
}

/// Failures of the service itself: storage, directory and mail transport.
#[derive(Debug, Clone, Copy, PartialEq, Eq, Structural)]
pub enum ServiceError {
    /// The pending store could not be read or changed.
    Inaccessible,
    /// A stored pending request is not a well-formed record.
    DeserializeData,
    /// The key could not be written to the directory.
    AddingKey,
    /// The key could not be removed from the directory.
    RemovingKey,
    /// The certificate library failed while reading the user ids.
    ParseCert,
    /// The confirmation mail could not be built.
    MailGeneration,
    /// The confirmation mail could not be sent.
    SendMail,
    /// A confirmation was driven with an event that its state does not expect.
    UnexpectedEvent,
}

/// Every failure of the service, as reported to a client.
#[derive(Debug, Clone, Copy, PartialEq, Eq, Structural)]
pub enum CompatErr {
    Internal(ServiceError),
    SpecialErr(SpecialErrors),
}

/// The HTTP status with which a failure is answered.
pub open spec fn status_of(e: CompatErr) -> u16 {
    match e {
        CompatErr::Internal(_) => 500,
        CompatErr::SpecialErr(s) => match s {
            SpecialErrors::InexistingUser => 404,
            SpecialErrors::MissingFile => 404,
            SpecialErrors::MissingPending => 404,
            SpecialErrors::UnallowedDomain => 401,
            _ => 400,
        },
    }
}

impl CompatErr {
    pub fn status_code(&self) -> (r: u16)
        ensures
            r == status_of(*self),
    {
        match self {
            CompatErr::Internal(_) => 500,
            CompatErr::SpecialErr(s) => match s {
                SpecialErrors::InexistingUser => 404,
                SpecialErrors::MissingFile => 404,
                SpecialErrors::MissingPending => 404,
                SpecialErrors::UnallowedDomain => 401,
                _ => 400,
            },
        }
    }
}

impl From<SpecialErrors> for CompatErr {
    fn from(value: SpecialErrors) -> (r: CompatErr)
        ensures
            r == CompatErr::SpecialErr(value),
    {
        CompatErr::SpecialErr(value)
    }
}

impl vstd::std_specs::convert::FromSpecImpl<SpecialErrors> for CompatErr {
    open spec fn obeys_from_spec() -> bool {
        true
    }

    open spec fn from_spec(v: SpecialErrors) -> CompatErr {
        CompatErr::SpecialErr(v)
    }
}

impl From<ServiceError> for CompatErr {
    fn from(value: ServiceError) -> (r: CompatErr)
        ensures
            r == CompatErr::Internal(value),
    {
        CompatErr::Internal(value)
    }
}

impl vstd::std_specs::convert::FromSpecImpl<ServiceError> for CompatErr {
    open spec fn obeys_from_spec() -> bool {
        true
    }

    open spec fn from_spec(v: ServiceError) -> CompatErr {
        CompatErr::Internal(v)
    }
}

} // verus!
