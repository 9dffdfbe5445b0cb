//! Errors of the public API.

use crate::uri::ParseUriError;
use vstd::prelude::*;

verus! {

/// `std::io::Error`, carried through opaquely in [`Error::Io`].
#[verifier::external_type_specification]
#[verifier::external_body]
pub struct ExIoError(std::io::Error);

/// Errors returned by the public API.
#[derive(Debug)]
pub enum Error {
    /// Failed to open or communicate with the serial port.
    SerialPort(String),
    /// An I/O error occurred while writing to the serial port.
    Io(std::io::Error),
    /// Waiting for a pattern timed out before the pattern was received.
    Timeout,
    /// The background reader has stopped (serial port closed or errored).
    ChannelClosed,
    /// An error occurred while initialising or communicating with the MQTT broker.
    Mqtt(String),
    /// Failed to parse or resolve a serial URI.
    Uri(ParseUriError),
}

impl From<ParseUriError> for Error {
    fn from(e: ParseUriError) -> (res: Error) {
        Error::Uri(e)
    }
}

impl vstd::std_specs::convert::FromSpecImpl<ParseUriError> for Error {
    open spec fn obeys_from_spec() -> bool {
        true
    }

    open spec fn from_spec(e: ParseUriError) -> Error {
        Error::Uri(e)
    }
}

impl From<std::io::Error> for Error {
    fn from(e: std::io::Error) -> (res: Error) {
        Error::Io(e)
    }
}

impl vstd::std_specs::convert::FromSpecImpl<std::io::Error> for Error {
    open spec fn obeys_from_spec() -> bool {
        true
    }

    open spec fn from_spec(e: std::io::Error) -> Error {
        Error::Io(e)
    }
}

} // verus!
