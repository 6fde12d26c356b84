//! Errors: those that the client caused, and all others.

use vstd::prelude::*;

verus! {

/// A fault in what the client sent.
#[derive(Clone, Debug, PartialEq, Eq)]
pub struct ClientError(pub String);

/// Why a request could not be served.
#[derive(Clone, Debug, PartialEq, Eq)]
pub enum EncodeError {
    /// The client sent something that cannot be served.
    Client(ClientError),
    /// Anything else went wrong.
    Internal(String),
}

/// What an error says, and of whom.
pub enum Fault {
    /// The client is at fault.
    Client(Seq<char>),
    /// The service is at fault.
    Internal(Seq<char>),
}

impl EncodeError {
    /// What the error says.
    pub open spec fn fault(self) -> Fault {
        match self {
            EncodeError::Client(error) => Fault::Client(error.0@),
            EncodeError::Internal(message) => Fault::Internal(message@),
        }
    }

    /// The message of the error.
    pub open spec fn text(self) -> Seq<char> {
        match self {
            EncodeError::Client(error) => error.0@,
            EncodeError::Internal(message) => message@,
        }
    }

    /// Whether this is the client error with the given message.
    pub open spec fn is_client(self, message: Seq<char>) -> bool {
        self is Client && self.text() == message
    }

    /// Whether this is an error of the service with the given message.
    pub open spec fn is_internal(self, message: Seq<char>) -> bool {
        self is Internal && self.text() == message
    }

    /// The error in a context, which says what could not be done. Who is at fault stays.
    pub fn context(self, context: &str) -> (error: EncodeError)
        ensures
            error is Client <==> self is Client,
            error.text() == context@,
    {
        match self {
            EncodeError::Client(_) => client_error(context.to_owned()),
            EncodeError::Internal(_) => internal_error(context),
        }
    }

    /// The message of the error.
    pub fn message(&self) -> (message: &str)
        ensures
            message@ == self.text(),
    {
        match self {
            EncodeError::Client(error) => error.0.as_str(),
            EncodeError::Internal(message) => message.as_str(),
        }
    }
}

/// An error that the client caused.
pub fn client_error(message: String) -> (error: EncodeError)
    ensures
        error.is_client(message@),
{
    EncodeError::Client(ClientError(message))
}

/// Whether the client caused the error.
pub fn is_client_error(error: &EncodeError) -> (client: bool)
    ensures
        client == (error is Client),
{
    match error {
        EncodeError::Client(_) => true,
        EncodeError::Internal(_) => false,
    }
}

/// An error of the service itself.
pub(crate) fn internal_error(message: &str) -> (error: EncodeError)
    ensures
        error.is_internal(message@),
{
    EncodeError::Internal(message.to_owned())
}

/// An error is the client's or the service's, and not both, and says one thing, however it is
/// looked at.
pub proof fn errors_are_seen_as_they_are(error: EncodeError, message: Seq<char>)
    ensures
        error.is_client(message) <==> error.fault() == Fault::Client(message),
        error.is_internal(message) <==> error.fault() == Fault::Internal(message),
        !(error.is_client(message) && error.is_internal(message)),
        error matches EncodeError::Client(fault) ==> error.is_client(fault.0@),
        error matches EncodeError::Internal(text) ==> error.is_internal(text@),
{
}

} // verus!
