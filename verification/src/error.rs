use vstd::prelude::*;

verus! {

/// A driver failure, parameterized over the bus implementation's own error
/// type.
///
/// Transport failures keep the phase apart: a caller diagnosing a broken
/// exchange needs to know whether the command write or the response read
/// failed.
#[derive(Debug, PartialEq, Eq)]
pub enum Error<E> {
    /// The device answered the hardware-ID probe with a byte other than the
    /// expected identity code: the attached chip is not the supported one.
    WrongChipId,
    /// The bus failed while sending a command frame.
    WriteError(E),
    /// The bus failed while reading a response.
    ReadError(E),
}

} // verus!
