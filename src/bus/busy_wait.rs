//! Busy waiting: poll the device with a fixed delay until it reports ready.
use vstd::prelude::*;
use vstd::std_specs::cmp::PartialOrdSpec;
use super::{BusRead, BusWrite};
use crate::error::{WaitError, WaitResult};

verus! {

/// A count of milliseconds.
pub type Milliseconds = u64;

/// The delay between two polls unless another is chosen.
pub const DEFAULT_DELAY_MS: Milliseconds = 190;

/// A type that can be built from a number of milliseconds.
pub trait FromMilliseconds: Sized {
    fn from_milliseconds(milliseconds: Milliseconds) -> Self;
}

/// A clock that can measure and wait.
pub trait Timer: Sized {
    /// The difference between two instants.
    type Duration: Ord;

    /// The current instant.
    fn now() -> Self;

    /// How much time has passed since `self` was taken.
    fn elapsed(&self) -> Self::Duration;

    /// Blocks for the given duration.
    fn wait(duration: &Self::Duration);
}

/// Whether a polled window says the device is ready: bit 0 of its first byte.
pub open spec fn ready_bit(window: Seq<u8>) -> bool {
    window.len() > 0 && window[0] & 1 == 1
}

/// Waits for the device by polling it: sleep, read, look at the ready bit.
/// Each method makes one poll; a `WaitRead` over it repeats `wait_iter`
/// until the device is ready, and a `WaitReadTimeout` repeats
/// `wait_iter_timeout` until it is ready or the deadline has passed.
pub struct BusyWait<D: BusRead + BusWrite, T: Timer> {
    device: D,
    delay: T::Duration,
}

impl<D: BusRead + BusWrite, T: Timer> BusyWait<D, T> {
    /// The bus that is polled.
    pub closed spec fn device(&self) -> D {
        self.device
    }

    /// The delay before each poll.
    pub closed spec fn delay(&self) -> T::Duration {
        self.delay
    }

    /// Polls with the default delay.
    pub fn new(device: D) -> (r: Self)
        where T::Duration: FromMilliseconds,
        ensures
            r.device() == device,
            call_ensures(T::Duration::from_milliseconds, (DEFAULT_DELAY_MS,), r.delay()),
    {
        BusyWait { device: device, delay: T::Duration::from_milliseconds(DEFAULT_DELAY_MS) }
    }

    /// Polls with a delay of the caller's choice.
    pub fn with_delay(device: D, delay: T::Duration) -> (r: Self)
        ensures
            r.device() == device,
            r.delay() == delay,
    {
        BusyWait { device: device, delay: delay }
    }

    /// One poll: waits the delay, reads into `buf`, and tells whether the
    /// device reported ready. Read errors come back unchanged.
    pub fn wait_iter(&mut self, buf: &mut [u8]) -> (r: Result<bool, D::ReadError>)
        requires
            old(buf)@.len() > 0,
        ensures
            final(buf)@.len() == old(buf)@.len(),
            final(self).delay() == old(self).delay(),
            r matches Ok(ready) ==> ready == ready_bit(final(buf)@),
    {
        T::wait(&self.delay);
        match self.device.read(buf) {
            Ok(_) => {},
            Err(e) => return Err(e),
        }
        Ok(buf[0] & 1 == 1)
    }

    /// One poll of a wait that began at `start` and gives up after
    /// `timeout`: `Some(buf.len())` once the device is ready, `None` to poll
    /// again, `Timeout` when it is not ready and more than `timeout` has
    /// passed. The deadline is looked at only after a poll that found the
    /// device busy, so a wait may overrun it by one delay and one read.
    pub fn wait_iter_timeout(&mut self, buf: &mut [u8], start: &T, timeout: &T::Duration) -> (r:
        WaitResult<Option<usize>, D::ReadError>)
        requires
            old(buf)@.len() > 0,
        ensures
            final(buf)@.len() == old(buf)@.len(),
            final(self).delay() == old(self).delay(),
            r matches Ok(Some(n)) ==> n == old(buf)@.len() && ready_bit(final(buf)@),
            r matches Ok(None) ==> !ready_bit(final(buf)@),
            r matches Ok(None) ==> exists|d: T::Duration|
                #[trigger] call_ensures(T::elapsed, (start,), d) && (
                <T::Duration as PartialOrdSpec>::obeys_partial_cmp_spec() ==> d.partial_cmp_spec(
                    timeout,
                ) != Some(core::cmp::Ordering::Greater)),
            r is Err && r->Err_0 is Timeout ==> !ready_bit(final(buf)@),
            r is Err && r->Err_0 is Timeout ==> exists|d: T::Duration|
                #[trigger] call_ensures(T::elapsed, (start,), d) && (
                <T::Duration as PartialOrdSpec>::obeys_partial_cmp_spec() ==> d.partial_cmp_spec(
                    timeout,
                ) == Some(core::cmp::Ordering::Greater)),
    {
        let ready = match self.wait_iter(buf) {
            Ok(ready) => ready,
            Err(e) => return Err(WaitError::OtherError(e)),
        };
        if ready {
            return Ok(Some(buf.len()));
        }
        let elapsed = start.elapsed();
        if elapsed > *timeout {
            Err(WaitError::Timeout)
        } else {
            Ok(None)
        }
    }
}

impl<D: BusRead + BusWrite, T: Timer> BusWrite for BusyWait<D, T> {
    type WriteError = D::WriteError;

    fn write(&mut self, buf: &[u8]) -> Result<(), Self::WriteError> {
        self.device.write(buf)
    }
}

} // verus!
