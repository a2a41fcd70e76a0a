//! The ways in which handling one instruction can fail.

use vstd::prelude::*;

verus! {

/// Why an instruction was not applied. Every failure leaves the storage region as it was.
#[derive(Clone, Copy, Debug, PartialEq, Eq, Structural)]
pub enum CounterError {
    /// The instruction buffer is empty, or its first byte names none of the four operations.
    UnrecognizedInstruction,
    /// The operation carries a value, and the buffer ends before the value's four bytes do.
    MalformedPayload,
    /// The storage region is shorter than the four bytes of an encoded counter.
    CorruptState,
    /// The region handed to the encoder has no room for the four bytes of a counter.
    StorageTooSmall,
    /// The new counter would lie above `u32::MAX` or below zero.
    ArithmeticRangeError,
}

} // verus!
