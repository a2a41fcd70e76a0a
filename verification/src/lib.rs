//! A counter held in four bytes of caller-owned storage, and the instructions that change it.
//!
//! One call of [`process_instruction`] reads the counter from the front of the storage
//! region, decodes one instruction, computes the new counter with range-checked
//! arithmetic and writes it back. Whenever a step fails the region keeps its old contents.

pub mod error;
pub mod instructions;
pub mod theorems;
pub mod wire;

use crate::error::CounterError;
use crate::instructions::CounterInstructions;
use crate::wire::{read_u32_le, spec_read_u32_le, spec_write_u32_le, write_u32_le};
use vstd::prelude::*;

verus! {

/// The persisted state: a counter, stored as four little-endian bytes at the front of
/// its storage region.
#[derive(Clone, Copy, Debug, PartialEq, Eq, Structural)]
pub struct CounterAccount {
    pub counter: u32,
}

impl CounterAccount {
    /// The account that `region` holds. Every region of four bytes or more holds one;
    /// a shorter region is corrupt.
    pub open spec fn spec_decode(region: Seq<u8>) -> Result<CounterAccount, CounterError> {
        match spec_read_u32_le(region) {
            Some(counter) => Ok(CounterAccount { counter }),
            None => Err(CounterError::CorruptState),
        }
    }

    /// `region` after this account was stored in it, or the refusal of a region that is
    /// too small to hold it.
    pub open spec fn spec_encode(self, region: Seq<u8>) -> Result<Seq<u8>, CounterError> {
        match spec_write_u32_le(self.counter, region) {
            Some(written) => Ok(written),
            None => Err(CounterError::StorageTooSmall),
        }
    }

    /// The counter that `instruction` asks for, as an integer without bounds.
    pub open spec fn target(self, instruction: CounterInstructions) -> int {
        match instruction {
            CounterInstructions::Increment { value } => self.counter + value,
            CounterInstructions::Decrement { value } => self.counter - value,
            CounterInstructions::Reset => 0,
            CounterInstructions::Update { value } => value as int,
        }
    }

    /// The account after `instruction`: the one whose counter is the target, where the
    /// target fits in a `u32`; a range error where it does not.
    pub open spec fn spec_apply(self, instruction: CounterInstructions) -> Result<
        CounterAccount,
        CounterError,
    > {
        let target = self.target(instruction);
        if 0 <= target <= u32::MAX {
            Ok(CounterAccount { counter: target as u32 })
        } else {
            Err(CounterError::ArithmeticRangeError)
        }
    }

    /// Reads the account from the first four bytes of `region`.
    ///
    /// # Errors
    ///
    /// `CorruptState` where `region` is shorter than four bytes.
    pub fn decode(region: &[u8]) -> (res: Result<CounterAccount, CounterError>)
        ensures
            res == Self::spec_decode(region@),
    {
        match read_u32_le(region) {
            Some(counter) => Ok(CounterAccount { counter }),
            None => Err(CounterError::CorruptState),
        }
    }

    /// Stores the account in the first four bytes of `region`. The bytes after them are
    /// not touched, and a region that is too small is not touched at all.
    ///
    /// # Errors
    ///
    /// `StorageTooSmall` where `region` is shorter than four bytes.
    pub fn encode(&self, region: &mut [u8]) -> (res: Result<(), CounterError>)
        ensures
            match self.spec_encode(old(region)@) {
                Ok(written) => res is Ok && final(region)@ == written,
                Err(e) => res == Err::<(), CounterError>(e) && final(region)@ == old(region)@,
            },
    {
        if write_u32_le(self.counter, region) {
            Ok(())
        } else {
            Err(CounterError::StorageTooSmall)
        }
    }

    /// Carries out `instruction` on the account. An instruction whose target is out of
    /// range is refused, and the account stays as it was.
    ///
    /// # Errors
    ///
    /// `ArithmeticRangeError` where an increment would pass `u32::MAX` or a decrement
    /// would pass zero.
    pub fn apply(&mut self, instruction: CounterInstructions) -> (res: Result<(), CounterError>)
        ensures
            match old(self).spec_apply(instruction) {
                Ok(next) => res is Ok && *final(self) == next,
                Err(e) => res == Err::<(), CounterError>(e) && *final(self) == *old(self),
            },
    {
        let next: Option<u32> = match instruction {
            CounterInstructions::Increment { value } => self.counter.checked_add(value),
            CounterInstructions::Decrement { value } => self.counter.checked_sub(value),
            CounterInstructions::Reset => Some(0),
            CounterInstructions::Update { value } => Some(value),
        };
        match next {
            Some(counter) => {
                self.counter = counter;
                Ok(())
            },
            None => Err(CounterError::ArithmeticRangeError),
        }
    }
}

/// The storage region after `instructions_data` was processed on `account_data`, or the
/// first failure on the way: the counter is decoded, then the instruction, then the
/// instruction is applied, then the new counter is encoded.
pub open spec fn spec_process(account_data: Seq<u8>, instructions_data: Seq<u8>) -> Result<
    Seq<u8>,
    CounterError,
> {
    match CounterAccount::spec_decode(account_data) {
        Err(e) => Err(e),
        Ok(account) => match CounterInstructions::spec_unpack(instructions_data) {
            Err(e) => Err(e),
            Ok(instruction) => match account.spec_apply(instruction) {
                Err(e) => Err(e),
                Ok(next) => next.spec_encode(account_data),
            },
        },
    }
}

/// What the storage region holds once `instructions_data` was processed on it: the new
/// contents after a success, the old ones after a failure.
pub open spec fn storage_after(account_data: Seq<u8>, instructions_data: Seq<u8>) -> Seq<u8> {
    match spec_process(account_data, instructions_data) {
        Ok(written) => written,
        Err(_) => account_data,
    }
}

/// Applies the instruction encoded in `instructions_data` to the counter stored at the
/// front of `account_data`.
///
/// On success the region holds the new counter. On failure it holds what it held before.
///
/// # Errors
///
/// The first of these that applies: `CorruptState` where `account_data` is shorter than
/// four bytes; `UnrecognizedInstruction` or `MalformedPayload` where `instructions_data`
/// does not decode; `ArithmeticRangeError` where the new counter would not fit in a `u32`.
pub fn process_instruction(account_data: &mut [u8], instructions_data: &[u8]) -> (res: Result<
    (),
    CounterError,
>)
    ensures
        match spec_process(old(account_data)@, instructions_data@) {
            Ok(written) => res is Ok && final(account_data)@ == written,
            Err(e) => res == Err::<(), CounterError>(e) && final(account_data)@ == old(
                account_data,
            )@,
        },
        final(account_data)@ == storage_after(old(account_data)@, instructions_data@),
        old(account_data)@.len() >= 4 && instructions_data@.len() > 0 && instructions_data@[0] >= 4
            ==> res == Err::<(), CounterError>(CounterError::UnrecognizedInstruction),
{
    let mut counter_account = CounterAccount::decode(account_data)?;
    let instruction = CounterInstructions::unpack(instructions_data)?;
    counter_account.apply(instruction)?;
    counter_account.encode(account_data)
}

} // verus!
