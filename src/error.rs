//! The library's error type.

use vstd::prelude::*;

use crate::command::{CommandFormatError, CommandIndexError};

verus! {

/// Everything that can go wrong in an SDI-12 exchange. `E` is the I/O error
/// type of the serial collaborator.
#[derive(Debug, Clone, PartialEq, Eq)]
pub enum Sdi12Error<E = ()> {
    /// The serial collaborator reported a fault.
    Io(E),
    /// No answer within the protocol's deadline.
    Timeout,
    /// A character that the protocol does not allow here.
    InvalidCharacter(u8),
    /// A character that is not an SDI-12 address.
    InvalidAddress(char),
    /// A response or command that does not have the expected shape.
    InvalidFormat,
    /// The buffer was too small.
    BufferOverflow { needed: usize, got: usize },
    /// UART framing error.
    Framing,
    /// UART parity error.
    Parity,
    /// The CRC carried by the message differs from the one computed over it.
    CrcMismatch { expected: u16, calculated: u16 },
    /// A well-formed response that does not answer the command sent.
    UnexpectedResponse,
    /// Several sensors answered at once.
    BusContention,
    /// A command index out of range.
    InvalidCommandIndex(CommandIndexError),
    /// A command that could not be encoded.
    CommandFormatFailed(CommandFormatError),
    /// A failure reported by a sensor implementation.
    SensorSpecific(String),
}

impl<E> From<CommandIndexError> for Sdi12Error<E> {
    fn from(e: CommandIndexError) -> (r: Self)
        ensures
            r == Sdi12Error::<E>::InvalidCommandIndex(e),
    {
        Sdi12Error::InvalidCommandIndex(e)
    }
}

impl<E> vstd::std_specs::convert::FromSpecImpl<CommandIndexError> for Sdi12Error<E> {
    open spec fn obeys_from_spec() -> bool {
        true
    }

    open spec fn from_spec(v: CommandIndexError) -> Self {
        Sdi12Error::InvalidCommandIndex(v)
    }
}

impl<E> From<CommandFormatError> for Sdi12Error<E> {
    fn from(e: CommandFormatError) -> (r: Self)
        ensures
            r == Sdi12Error::<E>::CommandFormatFailed(e),
    {
        Sdi12Error::CommandFormatFailed(e)
    }
}

impl<E> vstd::std_specs::convert::FromSpecImpl<CommandFormatError> for Sdi12Error<E> {
    open spec fn obeys_from_spec() -> bool {
        true
    }

    open spec fn from_spec(v: CommandFormatError) -> Self {
        Sdi12Error::CommandFormatFailed(v)
    }
}

} // verus!
