//! Capabilities that a bus to the controller provides, and the busy-waiting
//! strategy built on them.
use vstd::prelude::*;
use crate::error::WaitResult;

pub mod busy_wait;

pub use self::busy_wait::BusyWait;

verus! {

/// Reads from the device over some bus (I2C, SPI, ...).
pub trait BusRead {
    /// Returned when bus IO fails.
    type ReadError;

    /// Reads data from the device into `buf`. May report fewer bytes than
    /// `buf.len()`, though filling the whole buffer is the usual case.
    fn read(&mut self, buf: &mut [u8]) -> (r: Result<usize, Self::ReadError>)
        ensures
            final(buf)@.len() == old(buf)@.len(),
            r matches Ok(n) ==> n <= old(buf)@.len(),
    ;
}

/// Writes to the device over some bus (I2C, SPI, ...).
pub trait BusWrite {
    /// Returned when bus IO fails.
    type WriteError;

    /// Writes `buf` to the device in one transfer; a transfer cannot be
    /// continued by a later one.
    fn write(&mut self, buf: &[u8]) -> Result<(), Self::WriteError>;
}

/// A way of waiting for the device to have data.
pub trait WaitRead {
    /// Returned when bus IO fails.
    type ReadError;

    /// Blocks until the device has data, then reads it into `buf`.
    fn wait_read(&mut self, buf: &mut [u8]) -> (r: Result<usize, Self::ReadError>)
        ensures
            final(buf)@.len() == old(buf)@.len(),
            r matches Ok(n) ==> n <= old(buf)@.len(),
    ;
}

/// Waiting that gives up after a while.
pub trait WaitReadTimeout: WaitRead {
    type Duration;

    /// Blocks until the device has data or the wait times out, then reads the
    /// data or reports `WaitError::Timeout`. The timeout need not be exact.
    fn wait_read_timeout(&mut self, buf: &mut [u8], timeout: Self::Duration) -> (r: WaitResult<
        usize,
        Self::ReadError,
    >)
        ensures
            final(buf)@.len() == old(buf)@.len(),
            r matches Ok(n) ==> n <= old(buf)@.len(),
    ;
}

} // verus!
