//! The failures of the setup exchange and of the wire decoder.

use vstd::prelude::*;
use vstd::std_specs::convert::FromSpecImpl;
use vstd::string::StringExecFns;

verus! {

/// Why a connection to the display server could not be set up.
#[derive(Clone, Copy, Debug, PartialEq, Eq, Structural)]
pub enum ConnectionError {
    InvalidSocketPath,
    ConnectionRefused,
    ConnectionNotEstablished,
    FurtherAuthenticationRequired,
    InvalidResponseFromServer,
}

/// Why a sequence of bytes could not be decoded.
#[derive(Clone, Copy, Debug, PartialEq, Eq, Structural)]
pub enum ParseError {
    OutOfBound,
    NotEnoughData,
    OverFlow,
    Failed,
    InvalidLength,
}

impl ConnectionError {
    /// The text that describes this failure.
    pub open spec fn spec_message(self) -> Seq<char> {
        match self {
            ConnectionError::InvalidSocketPath => "Failed to connect: The socket path is invalid"@,
            ConnectionError::ConnectionNotEstablished => "Failed to connect: Connection to the server is not established"@,
            ConnectionError::ConnectionRefused => "Failed to connect: Connection is refused by the server"@,
            ConnectionError::FurtherAuthenticationRequired => "Failed to connect: Further authentication is required"@,
            ConnectionError::InvalidResponseFromServer => "Failed to connect: Invalid response from server on connection setup"@,
        }
    }

    /// The text that describes this failure.
    pub fn message(&self) -> (text: String)
        ensures
            text@ == self.spec_message(),
    {
        match self {
            ConnectionError::InvalidSocketPath => String::from_str(
                "Failed to connect: The socket path is invalid",
            ),
            ConnectionError::ConnectionNotEstablished => String::from_str(
                "Failed to connect: Connection to the server is not established",
            ),
            ConnectionError::ConnectionRefused => String::from_str(
                "Failed to connect: Connection is refused by the server",
            ),
            ConnectionError::FurtherAuthenticationRequired => String::from_str(
                "Failed to connect: Further authentication is required",
            ),
            ConnectionError::InvalidResponseFromServer => String::from_str(
                "Failed to connect: Invalid response from server on connection setup",
            ),
        }
    }
}

impl ParseError {
    /// The text that describes this failure.
    pub open spec fn spec_message(self) -> Seq<char> {
        match self {
            ParseError::OutOfBound => "Failed to parse: The provided range is out of bound"@,
            ParseError::NotEnoughData => "Failed to parse: Not enough data to parse: Out of bound"@,
            ParseError::OverFlow => "Failed to parse: data length overflow"@,
            ParseError::Failed => "Failed to parse"@,
            ParseError::InvalidLength => "Failed to parse: Invalid data length"@,
        }
    }

    /// The text that describes this failure.
    pub fn message(&self) -> (text: String)
        ensures
            text@ == self.spec_message(),
    {
        match self {
            ParseError::OutOfBound => String::from_str(
                "Failed to parse: The provided range is out of bound",
            ),
            ParseError::NotEnoughData => String::from_str(
                "Failed to parse: Not enough data to parse: Out of bound",
            ),
            ParseError::OverFlow => String::from_str("Failed to parse: data length overflow"),
            ParseError::Failed => String::from_str("Failed to parse"),
            ParseError::InvalidLength => String::from_str("Failed to parse: Invalid data length"),
        }
    }
}

/// At the connection layer every decoding failure reads as a connection
/// that was not established.
impl From<ParseError> for ConnectionError {
    fn from(e: ParseError) -> (r: ConnectionError) {
        ConnectionError::ConnectionNotEstablished
    }
}

impl FromSpecImpl<ParseError> for ConnectionError {
    open spec fn obeys_from_spec() -> bool {
        true
    }

    open spec fn from_spec(e: ParseError) -> ConnectionError {
        ConnectionError::ConnectionNotEstablished
    }
}

} // verus!
