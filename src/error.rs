//! Error types of the bus, the framing layer and the command session.
use vstd::prelude::*;

verus! {

/// Error of an operation that may time out.
#[derive(Debug)]
pub enum WaitError<E> {
    /// Some other error occurred.
    OtherError(E),
    /// The operation timed out.
    Timeout,
}

impl<E> WaitError<E> {
    /// Converts the wrapped error with `f`; a timeout stays a timeout.
    pub fn map<E2, F: FnOnce(E) -> E2>(self, f: F) -> (r: WaitError<E2>)
        requires
            self matches WaitError::OtherError(e) ==> f.requires((e,)),
        ensures
            match self {
                WaitError::OtherError(e) => r matches WaitError::OtherError(e2) && f.ensures((e,), e2),
                WaitError::Timeout => r is Timeout,
            },
    {
        match self {
            WaitError::OtherError(e) => WaitError::OtherError(f(e)),
            WaitError::Timeout => WaitError::Timeout,
        }
    }
}

/// Result of an operation that may time out.
pub type WaitResult<T, E> = Result<T, WaitError<E>>;

/// Which checksum of a frame did not add up.
#[derive(Debug, Copy, Clone, Eq, PartialEq)]
pub enum ChecksumType {
    Length,
    Data,
}

/// A received frame is malformed.
#[derive(Debug, Copy, Clone, Eq, PartialEq)]
pub enum DataError {
    InvalidChecksum(ChecksumType),
    /// The byte found, and a description of what was expected.
    InvalidByte(u8, &'static str),
}

/// Failure to receive a frame.
#[derive(Debug)]
pub enum RecvError<E> {
    ReadError(E),
    InvalidData(DataError),
    UnexpectedEnd,
}

/// Failure to send a frame.
#[derive(Debug)]
pub enum SendError<E> {
    WriteError(E),
    /// The payload was longer than a frame can carry; holds its length.
    TooMuchData(usize),
}

/// Failure of a command: sending it or receiving its reply.
#[derive(Debug)]
pub enum CommError<R, W> {
    SendError(SendError<W>),
    RecvError(RecvError<R>),
}

/// Result of a command.
pub type CommResult<T, R, W> = Result<T, CommError<R, W>>;

} // verus!
