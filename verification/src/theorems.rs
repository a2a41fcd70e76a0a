//! What holds of every call of [`process_instruction`](crate::process_instruction),
//! stated over the storage region before and after it.

use crate::error::CounterError;
use crate::instructions::{lemma_unpack_outcomes, CounterInstructions};
use crate::wire::{lemma_read_then_write, lemma_write_keeps_tail, lemma_write_then_read};
use crate::{spec_process, storage_after, CounterAccount};
use vstd::prelude::*;

verus! {

/// Storing an account succeeds exactly in a region of four bytes or more, and the account
/// decoded from the region afterwards is the one that was stored.
pub proof fn lemma_encode_then_decode(account: CounterAccount, region: Seq<u8>)
    ensures
        account.spec_encode(region) is Ok <==> region.len() >= 4,
        account.spec_encode(region) is Ok ==> CounterAccount::spec_decode(
            account.spec_encode(region)->Ok_0,
        ) == Ok::<CounterAccount, CounterError>(account),
{
    if region.len() >= 4 {
        lemma_write_then_read(account.counter, region);
    }
}

/// Storing the account that a region already holds leaves the region as it is.
pub proof fn lemma_decode_then_encode(region: Seq<u8>)
    requires
        CounterAccount::spec_decode(region) is Ok,
    ensures
        CounterAccount::spec_decode(region)->Ok_0.spec_encode(region) == Ok::<
            Seq<u8>,
            CounterError,
        >(region),
{
    lemma_read_then_write(region);
}

/// A region of four bytes or more that is all zero holds the counter 0.
pub proof fn lemma_zeroed_region_holds_zero(region: Seq<u8>)
    requires
        region.len() >= 4,
        forall|i: int| 0 <= i < region.len() ==> region[i] == 0,
    ensures
        CounterAccount::spec_decode(region) is Ok,
        CounterAccount::spec_decode(region)->Ok_0.counter == 0,
{
}

/// On a region of four bytes or more and a buffer that decodes to an instruction, the
/// counter read from the region afterwards is the one that the instruction asks for:
/// the sum for an increment, the difference for a decrement, 0 for a reset and the given
/// value for an update. Where that counter does not fit in a `u32` the call fails with a
/// range error and the region is unchanged.
pub proof fn lemma_processed_counter(account_data: Seq<u8>, instructions_data: Seq<u8>)
    requires
        account_data.len() >= 4,
        CounterInstructions::spec_unpack(instructions_data) is Ok,
    ensures
        ({
            let account = CounterAccount::spec_decode(account_data)->Ok_0;
            let instruction = CounterInstructions::spec_unpack(instructions_data)->Ok_0;
            let target = account.target(instruction);
            let after = storage_after(account_data, instructions_data);
            if 0 <= target <= u32::MAX {
                &&& spec_process(account_data, instructions_data) is Ok
                &&& CounterAccount::spec_decode(after) is Ok
                &&& CounterAccount::spec_decode(after)->Ok_0.counter == target
            } else {
                &&& spec_process(account_data, instructions_data) == Err::<Seq<u8>, CounterError>(
                    CounterError::ArithmeticRangeError,
                )
                &&& after == account_data
            }
        }),
{
    let account = CounterAccount::spec_decode(account_data)->Ok_0;
    let instruction = CounterInstructions::spec_unpack(instructions_data)->Ok_0;
    match account.spec_apply(instruction) {
        Ok(next) => {
            lemma_encode_then_decode(next, account_data);
        },
        Err(_) => {},
    }
}

/// A call changes at most the first four bytes of the region: its length and every byte
/// from offset 4 on stay what they were.
pub proof fn lemma_process_keeps_tail(account_data: Seq<u8>, instructions_data: Seq<u8>)
    ensures
        storage_after(account_data, instructions_data).len() == account_data.len(),
        forall|i: int|
            4 <= i < account_data.len() ==> storage_after(account_data, instructions_data)[i]
                == account_data[i],
{
    match spec_process(account_data, instructions_data) {
        Ok(written) => {
            let account = CounterAccount::spec_decode(account_data)->Ok_0;
            let instruction = CounterInstructions::spec_unpack(instructions_data)->Ok_0;
            let next = account.spec_apply(instruction)->Ok_0;
            lemma_write_keeps_tail(next.counter, account_data);
            assert forall|i: int| 4 <= i < account_data.len() implies written[i]
                == account_data[i] by {
                assert(written[i] == written.skip(4)[i - 4]);
                assert(account_data[i] == account_data.skip(4)[i - 4]);
            }
        },
        Err(_) => {},
    }
}

/// Which calls fail, and how. A region shorter than four bytes is corrupt, whatever the
/// instruction. On a longer region a buffer that does not decode gives the decoder's
/// error, and an instruction whose target is out of range gives a range error. A call
/// never fails for want of room, since a region that was read has room to be written.
pub proof fn lemma_process_outcomes(account_data: Seq<u8>, instructions_data: Seq<u8>)
    ensures
        spec_process(account_data, instructions_data) == Err::<Seq<u8>, CounterError>(
            CounterError::CorruptState,
        ) <==> account_data.len() < 4,
        account_data.len() >= 4 && CounterInstructions::spec_unpack(instructions_data) is Err
            ==> spec_process(account_data, instructions_data) == Err::<Seq<u8>, CounterError>(
            CounterInstructions::spec_unpack(instructions_data)->Err_0,
        ),
        spec_process(account_data, instructions_data) == Err::<Seq<u8>, CounterError>(
            CounterError::ArithmeticRangeError,
        ) <==> account_data.len() >= 4 && CounterInstructions::spec_unpack(instructions_data) is Ok
            && !(0 <= CounterAccount::spec_decode(account_data)->Ok_0.target(
            CounterInstructions::spec_unpack(instructions_data)->Ok_0,
        ) <= u32::MAX),
        spec_process(account_data, instructions_data) != Err::<Seq<u8>, CounterError>(
            CounterError::StorageTooSmall,
        ),
{
    lemma_unpack_outcomes(instructions_data);
}

/// A first byte of 4 or more fails a call on a readable region as unrecognised, whatever
/// follows that byte, and leaves the region unchanged.
pub proof fn lemma_unknown_discriminant_is_refused(
    account_data: Seq<u8>,
    instructions_data: Seq<u8>,
)
    requires
        account_data.len() >= 4,
        instructions_data.len() > 0,
        instructions_data[0] >= 4,
    ensures
        spec_process(account_data, instructions_data) == Err::<Seq<u8>, CounterError>(
            CounterError::UnrecognizedInstruction,
        ),
        storage_after(account_data, instructions_data) == account_data,
{
}

/// Processing a reset a second time changes nothing: the region after two calls is the
/// region after one, and the second call succeeds where the first did.
pub proof fn lemma_reset_is_idempotent(account_data: Seq<u8>, instructions_data: Seq<u8>)
    requires
        CounterInstructions::spec_unpack(instructions_data) is Ok,
        CounterInstructions::spec_unpack(instructions_data)->Ok_0 is Reset,
    ensures
        storage_after(storage_after(account_data, instructions_data), instructions_data)
            == storage_after(account_data, instructions_data),
        spec_process(account_data, instructions_data) is Ok ==> spec_process(
            storage_after(account_data, instructions_data),
            instructions_data,
        ) == spec_process(account_data, instructions_data),
{
    lemma_repeat_of_fixed_target(account_data, instructions_data);
}

/// Processing an update a second time changes nothing: the region after two calls is the
/// region after one, and the second call succeeds where the first did.
pub proof fn lemma_update_is_idempotent(account_data: Seq<u8>, instructions_data: Seq<u8>)
    requires
        CounterInstructions::spec_unpack(instructions_data) is Ok,
        CounterInstructions::spec_unpack(instructions_data)->Ok_0 is Update,
    ensures
        storage_after(storage_after(account_data, instructions_data), instructions_data)
            == storage_after(account_data, instructions_data),
        spec_process(account_data, instructions_data) is Ok ==> spec_process(
            storage_after(account_data, instructions_data),
            instructions_data,
        ) == spec_process(account_data, instructions_data),
{
    lemma_repeat_of_fixed_target(account_data, instructions_data);
}

/// An instruction whose target does not depend on the counter gives, processed again on
/// its own result, that result.
proof fn lemma_repeat_of_fixed_target(account_data: Seq<u8>, instructions_data: Seq<u8>)
    requires
        CounterInstructions::spec_unpack(instructions_data) is Ok,
        CounterInstructions::spec_unpack(instructions_data)->Ok_0 is Reset
            || CounterInstructions::spec_unpack(instructions_data)->Ok_0 is Update,
    ensures
        storage_after(storage_after(account_data, instructions_data), instructions_data)
            == storage_after(account_data, instructions_data),
        spec_process(account_data, instructions_data) is Ok ==> spec_process(
            storage_after(account_data, instructions_data),
            instructions_data,
        ) == spec_process(account_data, instructions_data),
{
    match spec_process(account_data, instructions_data) {
        Ok(once) => {
            let instruction = CounterInstructions::spec_unpack(instructions_data)->Ok_0;
            let first = CounterAccount::spec_decode(account_data)->Ok_0;
            let next = first.spec_apply(instruction)->Ok_0;
            lemma_encode_then_decode(next, account_data);
            let second = CounterAccount::spec_decode(once)->Ok_0;
            assert(second == next);
            assert(second.spec_apply(instruction) == Ok::<CounterAccount, CounterError>(next));
            lemma_decode_then_encode(once);
        },
        Err(_) => {},
    }
}

} // verus!
