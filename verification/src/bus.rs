use vstd::prelude::*;

verus! {

/// A blocking, byte-oriented bus the driver owns exclusively: one write and
/// one read primitive, each addressed by an 8-bit device address.
///
/// Implementations decide for themselves whether a transfer succeeds and
/// what bytes a read returns; the driver records every transfer it makes in
/// its own ghost transaction log and states its contracts over that log.
pub trait Transport: Sized {
    /// The implementation's own bus-level error type.
    type BusError;

    /// Sends `bytes` to the device at `addr` as one bus write.
    fn bus_write(&mut self, addr: u8, bytes: &[u8]) -> Result<(), Self::BusError>;

    /// Reads exactly `len` bytes from the device at `addr` as one bus read.
    fn bus_read(&mut self, addr: u8, len: usize) -> (r: Result<Vec<u8>, Self::BusError>)
        ensures
            (r matches Ok(data) ==> data@.len() == len),
    ;
}

/// A blocking time-delay provider: millisecond and microsecond sleeps.
pub trait Delay: Sized {
    /// Blocks for `ms` milliseconds.
    fn delay_ms(&mut self, ms: u32);

    /// Blocks for `us` microseconds.
    fn delay_us(&mut self, us: u32);
}

} // verus!
