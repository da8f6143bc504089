//! Errors of the adapter interface and of the attribute tree.

use vstd::prelude::*;

verus! {

/// Where an adapter error came from.
#[derive(Clone, Copy, Debug, PartialEq, Eq, Structural)]
pub enum ErrorType {
    Bluez,
}

/// An error of the adapter interface: the name the host stack gave it, a
/// description, and its origin.
#[derive(Clone, Debug)]
pub struct PeripheralError {
    name: String,
    description: String,
    kind: ErrorType,
}

impl PeripheralError {
    pub closed spec fn spec_name(self) -> Seq<char> {
        self.name@
    }

    pub closed spec fn spec_description(self) -> Seq<char> {
        self.description@
    }

    pub closed spec fn spec_kind(self) -> ErrorType {
        self.kind
    }

    pub fn new(name: String, description: String, kind: ErrorType) -> (error: Self)
        ensures
            error.spec_name() == name@,
            error.spec_description() == description@,
            error.spec_kind() == kind,
    {
        PeripheralError { name, description, kind }
    }

    pub fn name(&self) -> (name: &str)
        ensures
            name@ == self.spec_name(),
    {
        self.name.as_str()
    }

    pub fn description(&self) -> (description: &str)
        ensures
            description@ == self.spec_description(),
    {
        self.description.as_str()
    }

    pub fn kind(&self) -> (kind: ErrorType)
        ensures
            kind == self.spec_kind(),
    {
        self.kind
    }
}

/// What can go wrong while a tree is built, registered or served.
#[derive(Clone, Copy, Debug, PartialEq, Eq, Structural)]
pub enum GattError {
    /// Two siblings carry the same identifier.
    DuplicateAttribute,
    /// The application dropped its end of the channel.
    ChannelClosed,
    /// The channel holds as many requests as it can; nothing was enqueued,
    /// and the caller waits and submits again.
    ChannelFull,
    /// The attribute does not support the operation.
    UnsupportedOperation,
    /// The host stack did not answer in time.
    TransportTimeout,
    /// The host stack refused the tree.
    RegistrationFailed,
    /// The application answered a request with a failure code of its own.
    Application(u8),
}

/// The error vocabulary of the host stack.
#[derive(Clone, Copy, Debug, PartialEq, Eq, Structural)]
pub enum TransportError {
    Failed,
    InProgress,
    NotPermitted,
    NotAuthorized,
    InvalidOffset,
    NotSupported,
}

/// Attribute protocol code: the attribute cannot be read.
pub const ATT_READ_NOT_PERMITTED: u8 = 0x02;

/// Attribute protocol code: the attribute cannot be written.
pub const ATT_WRITE_NOT_PERMITTED: u8 = 0x03;

/// Attribute protocol code: the link is not authenticated.
pub const ATT_INSUFFICIENT_AUTHENTICATION: u8 = 0x05;

/// Attribute protocol code: the server does not support the request.
pub const ATT_REQUEST_NOT_SUPPORTED: u8 = 0x06;

/// Attribute protocol code: the offset is past the end of the value.
pub const ATT_INVALID_OFFSET: u8 = 0x07;

/// Attribute protocol code: the client is not authorized.
pub const ATT_INSUFFICIENT_AUTHORIZATION: u8 = 0x08;

/// The host stack's word for an application failure code.
pub open spec fn spec_code_to_transport(code: u8) -> TransportError {
    if code == ATT_READ_NOT_PERMITTED || code == ATT_WRITE_NOT_PERMITTED {
        TransportError::NotPermitted
    } else if code == ATT_INSUFFICIENT_AUTHENTICATION || code == ATT_INSUFFICIENT_AUTHORIZATION {
        TransportError::NotAuthorized
    } else if code == ATT_REQUEST_NOT_SUPPORTED {
        TransportError::NotSupported
    } else if code == ATT_INVALID_OFFSET {
        TransportError::InvalidOffset
    } else {
        TransportError::Failed
    }
}

impl GattError {
    /// The host stack's word for the error. A closed channel and a timeout
    /// are plain failures, an unsupported operation is "not supported", a
    /// full channel is "in progress", and an application code is read as an
    /// attribute protocol code. The two construction errors never reach the
    /// transport; asked for, they are plain failures too.
    pub open spec fn spec_to_transport(self) -> TransportError {
        match self {
            GattError::UnsupportedOperation => TransportError::NotSupported,
            GattError::ChannelFull => TransportError::InProgress,
            GattError::Application(code) => spec_code_to_transport(code),
            GattError::ChannelClosed => TransportError::Failed,
            GattError::TransportTimeout => TransportError::Failed,
            GattError::DuplicateAttribute => TransportError::Failed,
            GattError::RegistrationFailed => TransportError::Failed,
        }
    }

    #[verifier::when_used_as_spec(spec_to_transport)]
    pub fn to_transport(self) -> (word: TransportError)
        ensures
            word == self.spec_to_transport(),
    {
        match self {
            GattError::UnsupportedOperation => TransportError::NotSupported,
            GattError::ChannelFull => TransportError::InProgress,
            GattError::Application(code) => {
                if code == ATT_READ_NOT_PERMITTED || code == ATT_WRITE_NOT_PERMITTED {
                    TransportError::NotPermitted
                } else if code == ATT_INSUFFICIENT_AUTHENTICATION || code
                    == ATT_INSUFFICIENT_AUTHORIZATION {
                    TransportError::NotAuthorized
                } else if code == ATT_REQUEST_NOT_SUPPORTED {
                    TransportError::NotSupported
                } else if code == ATT_INVALID_OFFSET {
                    TransportError::InvalidOffset
                } else {
                    TransportError::Failed
                }
            },
            _ => TransportError::Failed,
        }
    }
}

} // verus!
