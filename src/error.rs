use vstd::prelude::*;

verus! {

#[verifier::external_type_specification]
#[verifier::external_body]
pub struct ExIoError(std::io::Error);

/// The text given for an endpoint is not of the form `aa:pp`.
#[derive(Debug, Clone, Copy, PartialEq, Eq)]
pub struct CanAddrParseError;

/// A 32-bit identifier uses bits above the 29-bit CAN extended space.
#[derive(Debug, Clone, Copy, PartialEq, Eq)]
pub struct InvalidCanId;

/// An endpoint port does not fit in six bits.
#[derive(Debug, Clone, Copy, PartialEq, Eq)]
pub struct InvalidCanPort;

/// Everything the codec can fail with.
#[derive(Debug)]
pub enum Error {
    /// An endpoint port does not fit in six bits.
    InvalidCanPort,
    /// An identifier has a bit set above the 29-bit space.
    InvalidCanId,
    /// A declared length disagrees with the bytes that are there.
    WrongLength,
    /// The channel failed, or ended in the middle of a frame.
    IOError(std::io::Error),
}

/// Which of the failures of [`Error`] occurred, without the channel's own error value.
#[derive(Debug, Clone, Copy, PartialEq, Eq)]
pub enum ErrorCode {
    InvalidCanPort,
    InvalidCanId,
    WrongLength,
    IOError,
}

impl Error {
    pub open spec fn code(&self) -> ErrorCode {
        match self {
            Error::InvalidCanPort => ErrorCode::InvalidCanPort,
            Error::InvalidCanId => ErrorCode::InvalidCanId,
            Error::WrongLength => ErrorCode::WrongLength,
            Error::IOError(_) => ErrorCode::IOError,
        }
    }
}

/// Relies on `std::io::Error::from(ErrorKind::UnexpectedEof)`: the error a reader
/// reports when its input ends before a value is complete.
#[verifier::external_body]
pub(crate) fn unexpected_eof() -> std::io::Error {
    std::io::Error::from(std::io::ErrorKind::UnexpectedEof)
}

impl From<InvalidCanPort> for Error {
    fn from(e: InvalidCanPort) -> (r: Error)
        ensures
            r is InvalidCanPort,
    {
        Error::InvalidCanPort
    }
}

impl vstd::std_specs::convert::FromSpecImpl<InvalidCanPort> for Error {
    open spec fn obeys_from_spec() -> bool {
        true
    }

    open spec fn from_spec(v: InvalidCanPort) -> Error {
        Error::InvalidCanPort
    }
}

impl From<InvalidCanId> for Error {
    fn from(e: InvalidCanId) -> (r: Error)
        ensures
            r is InvalidCanId,
    {
        Error::InvalidCanId
    }
}

impl vstd::std_specs::convert::FromSpecImpl<InvalidCanId> for Error {
    open spec fn obeys_from_spec() -> bool {
        true
    }

    open spec fn from_spec(v: InvalidCanId) -> Error {
        Error::InvalidCanId
    }
}

impl From<std::io::Error> for Error {
    fn from(e: std::io::Error) -> (r: Error)
        ensures
            r is IOError,
    {
        Error::IOError(e)
    }
}

impl vstd::std_specs::convert::FromSpecImpl<std::io::Error> for Error {
    open spec fn obeys_from_spec() -> bool {
        true
    }

    open spec fn from_spec(v: std::io::Error) -> Error {
        Error::IOError(v)
    }
}

} // verus!
