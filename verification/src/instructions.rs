//! The four instructions and their wire format.
//!
//! An instruction is one byte that selects the operation, followed for three of the four
//! operations by the operation's value as four little-endian bytes:
//!
//! | first byte | operation   | then            |
//! |------------|-------------|-----------------|
//! | 0          | `Increment` | value, 4 bytes  |
//! | 1          | `Decrement` | value, 4 bytes  |
//! | 2          | `Reset`     | nothing         |
//! | 3          | `Update`    | value, 4 bytes  |
//!
//! A buffer may be longer than its instruction. What follows the instruction is ignored.

use crate::error::CounterError;
use crate::wire::{
    le_bytes, lemma_bytes_of_value, lemma_value_ignores_tail, lemma_value_of_bytes, read_u32_le,
    spec_read_u32_le,
};
use vstd::prelude::*;

verus! {

/// First byte of an encoded `Increment`.
pub const TAG_INCREMENT: u8 = 0;

/// First byte of an encoded `Decrement`.
pub const TAG_DECREMENT: u8 = 1;

/// First byte of an encoded `Reset`.
pub const TAG_RESET: u8 = 2;

/// First byte of an encoded `Update`.
pub const TAG_UPDATE: u8 = 3;

/// One operation on the counter.
#[derive(Clone, Copy, Debug, PartialEq, Eq, Structural)]
pub enum CounterInstructions {
    /// Add `value` to the counter.
    Increment { value: u32 },
    /// Subtract `value` from the counter.
    Decrement { value: u32 },
    /// Set the counter to zero.
    Reset,
    /// Set the counter to `value`.
    Update { value: u32 },
}

/// Whether `tag` selects an operation that carries a value.
pub open spec fn carries_value(tag: u8) -> bool {
    tag == TAG_INCREMENT || tag == TAG_DECREMENT || tag == TAG_UPDATE
}

impl CounterInstructions {
    /// The bytes that stand for this instruction, with nothing after them.
    pub open spec fn encoding(self) -> Seq<u8> {
        match self {
            CounterInstructions::Increment { value } => seq![TAG_INCREMENT] + le_bytes(value),
            CounterInstructions::Decrement { value } => seq![TAG_DECREMENT] + le_bytes(value),
            CounterInstructions::Reset => seq![TAG_RESET],
            CounterInstructions::Update { value } => seq![TAG_UPDATE] + le_bytes(value),
        }
    }

    /// The instruction that `input` encodes, or the reason why it encodes none.
    ///
    /// The first byte selects the operation. `Reset` is that byte alone. The other three
    /// are followed by their value as four little-endian bytes. Whatever follows the
    /// bytes that an operation needs is ignored. An empty buffer names no operation.
    pub open spec fn spec_unpack(input: Seq<u8>) -> Result<CounterInstructions, CounterError> {
        if input.len() == 0 {
            Err(CounterError::UnrecognizedInstruction)
        } else if input[0] == TAG_RESET {
            Ok(CounterInstructions::Reset)
        } else if carries_value(input[0]) {
            match spec_read_u32_le(input.skip(1)) {
                None => Err(CounterError::MalformedPayload),
                Some(value) => Ok(
                    if input[0] == TAG_INCREMENT {
                        CounterInstructions::Increment { value }
                    } else if input[0] == TAG_DECREMENT {
                        CounterInstructions::Decrement { value }
                    } else {
                        CounterInstructions::Update { value }
                    },
                ),
            }
        } else {
            Err(CounterError::UnrecognizedInstruction)
        }
    }

    /// Decodes one instruction from the front of `input`.
    ///
    /// # Errors
    ///
    /// `UnrecognizedInstruction` where `input` is empty or its first byte is 4 or more.
    /// `MalformedPayload` where the first byte selects an operation that carries a value
    /// and `input` is shorter than five bytes.
    pub fn unpack(input: &[u8]) -> (res: Result<CounterInstructions, CounterError>)
        ensures
            res == Self::spec_unpack(input@),
            input@.len() > 0 && input@[0] >= 4 ==> res == Err::<CounterInstructions, CounterError>(
                CounterError::UnrecognizedInstruction,
            ),
    {
        if input.len() == 0 {
            return Err(CounterError::UnrecognizedInstruction);
        }
        let tag: u8 = input[0];
        if tag == TAG_RESET {
            return Ok(CounterInstructions::Reset);
        }
        if tag != TAG_INCREMENT && tag != TAG_DECREMENT && tag != TAG_UPDATE {
            return Err(CounterError::UnrecognizedInstruction);
        }
        match read_u32_le(&input[1..input.len()]) {
            None => Err(CounterError::MalformedPayload),
            Some(value) => {
                if tag == TAG_INCREMENT {
                    Ok(CounterInstructions::Increment { value })
                } else if tag == TAG_DECREMENT {
                    Ok(CounterInstructions::Decrement { value })
                } else {
                    Ok(CounterInstructions::Update { value })
                }
            },
        }
    }
}

/// A first byte of 4 or more names no operation, whatever follows it.
pub proof fn lemma_unknown_discriminant(input: Seq<u8>)
    requires
        input.len() > 0,
        input[0] >= 4,
    ensures
        CounterInstructions::spec_unpack(input) == Err::<CounterInstructions, CounterError>(
            CounterError::UnrecognizedInstruction,
        ),
{
}

/// Which buffers decode, and which error each of the others gives.
///
/// A buffer decodes when it starts with the byte of `Reset`, or with the byte of one of
/// the other three operations and at least five bytes in all. It is malformed when it
/// starts with the byte of one of these three and is shorter than that. Every other
/// buffer is unrecognised: the empty one, and those whose first byte selects nothing.
/// Decoding gives no other error.
pub proof fn lemma_unpack_outcomes(input: Seq<u8>)
    ensures
        CounterInstructions::spec_unpack(input) is Ok <==> input.len() >= 1 && (input[0]
            == TAG_RESET || (carries_value(input[0]) && input.len() >= 5)),
        CounterInstructions::spec_unpack(input) == Err::<CounterInstructions, CounterError>(
            CounterError::MalformedPayload,
        ) <==> 1 <= input.len() < 5 && carries_value(input[0]),
        CounterInstructions::spec_unpack(input) == Err::<CounterInstructions, CounterError>(
            CounterError::UnrecognizedInstruction,
        ) <==> input.len() == 0 || input[0] > TAG_UPDATE,
        CounterInstructions::spec_unpack(input) is Err ==> CounterInstructions::spec_unpack(
            input,
        )->Err_0 == CounterError::MalformedPayload || CounterInstructions::spec_unpack(
            input,
        )->Err_0 == CounterError::UnrecognizedInstruction,
{
}

/// Every instruction is decoded from its own encoding, whatever bytes come after it.
pub proof fn lemma_unpack_of_encoding(instruction: CounterInstructions, trailing: Seq<u8>)
    ensures
        CounterInstructions::spec_unpack(instruction.encoding() + trailing) == Ok::<
            CounterInstructions,
            CounterError,
        >(instruction),
{
    let input = instruction.encoding() + trailing;
    match instruction {
        CounterInstructions::Reset => {},
        CounterInstructions::Increment { value }
        | CounterInstructions::Decrement { value }
        | CounterInstructions::Update { value } => {
            lemma_value_of_bytes(value);
            assert(input.skip(1).take(4) =~= le_bytes(value));
            lemma_value_ignores_tail(input.skip(1));
        },
    }
}

/// A buffer that decodes starts with the encoding of the instruction it decodes to. With
/// [`lemma_unpack_of_encoding`]: a buffer decodes to an instruction exactly when it
/// starts with that instruction's encoding.
pub proof fn lemma_unpacked_is_prefix(input: Seq<u8>)
    requires
        CounterInstructions::spec_unpack(input) is Ok,
    ensures
        CounterInstructions::spec_unpack(input)->Ok_0.encoding().is_prefix_of(input),
{
    let instruction = CounterInstructions::spec_unpack(input)->Ok_0;
    match instruction {
        CounterInstructions::Reset => {
            assert(instruction.encoding() =~= input.take(1));
        },
        CounterInstructions::Increment { value }
        | CounterInstructions::Decrement { value }
        | CounterInstructions::Update { value } => {
            lemma_bytes_of_value(input.skip(1));
            assert(instruction.encoding() =~= input.take(5));
        },
    }
}

/// Bytes after those that an instruction needs do not change what is decoded.
pub proof fn lemma_unpack_ignores_trailing_bytes(input: Seq<u8>, trailing: Seq<u8>)
    requires
        CounterInstructions::spec_unpack(input) is Ok,
    ensures
        CounterInstructions::spec_unpack(input + trailing) == CounterInstructions::spec_unpack(
            input,
        ),
{
}

} // verus!
