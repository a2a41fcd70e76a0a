use counter_program::error::CounterError;
use counter_program::instructions::CounterInstructions;
use counter_program::CounterAccount;

#[test]
fn zero_filled_region_decodes_to_zero() {
    assert_eq!(CounterAccount::decode(&[0, 0, 0, 0]), Ok(CounterAccount { counter: 0 }));
    assert_eq!(CounterAccount::decode(&[0u8; 16]), Ok(CounterAccount { counter: 0 }));
}

#[test]
fn decode_reads_least_significant_byte_first() {
    assert_eq!(CounterAccount::decode(&[1, 0, 0, 0]).unwrap().counter, 1);
    assert_eq!(CounterAccount::decode(&[0, 1, 0, 0]).unwrap().counter, 256);
    assert_eq!(CounterAccount::decode(&[0, 0, 1, 0]).unwrap().counter, 65_536);
    assert_eq!(CounterAccount::decode(&[0, 0, 0, 1]).unwrap().counter, 16_777_216);
    assert_eq!(CounterAccount::decode(&[0x78, 0x56, 0x34, 0x12]).unwrap().counter, 0x1234_5678);
    assert_eq!(CounterAccount::decode(&[0xff, 0xff, 0xff, 0xff]).unwrap().counter, u32::MAX);
}

#[test]
fn decode_ignores_bytes_after_the_fourth() {
    assert_eq!(CounterAccount::decode(&[33, 0, 0, 0, 0xff, 0xff]).unwrap().counter, 33);
}

#[test]
fn decode_of_short_region_is_corrupt_state() {
    assert_eq!(CounterAccount::decode(&[]), Err(CounterError::CorruptState));
    assert_eq!(CounterAccount::decode(&[1]), Err(CounterError::CorruptState));
    assert_eq!(CounterAccount::decode(&[1, 2]), Err(CounterError::CorruptState));
    assert_eq!(CounterAccount::decode(&[1, 2, 3]), Err(CounterError::CorruptState));
}

#[test]
fn encode_writes_least_significant_byte_first() {
    let mut region = [0xaau8; 4];
    assert_eq!(CounterAccount { counter: 0x1234_5678 }.encode(&mut region), Ok(()));
    assert_eq!(region, [0x78, 0x56, 0x34, 0x12]);
    assert_eq!(CounterAccount { counter: 0 }.encode(&mut region), Ok(()));
    assert_eq!(region, [0, 0, 0, 0]);
    assert_eq!(CounterAccount { counter: u32::MAX }.encode(&mut region), Ok(()));
    assert_eq!(region, [0xff, 0xff, 0xff, 0xff]);
    assert_eq!(CounterAccount { counter: 33 }.encode(&mut region), Ok(()));
    assert_eq!(region, [33, 0, 0, 0]);
}

#[test]
fn encode_leaves_the_rest_of_the_region() {
    let mut region = [1u8, 2, 3, 4, 5, 6, 7];
    assert_eq!(CounterAccount { counter: 256 }.encode(&mut region), Ok(()));
    assert_eq!(region, [0, 1, 0, 0, 5, 6, 7]);
}

#[test]
fn encode_into_short_region_is_storage_too_small() {
    for len in 0..4usize {
        let mut region = vec![0x55u8; len];
        assert_eq!(
            CounterAccount { counter: 0x0102_0304 }.encode(&mut region),
            Err(CounterError::StorageTooSmall)
        );
        assert_eq!(region, vec![0x55u8; len]);
    }
}

#[test]
fn encode_then_decode_round_trips() {
    let values: [u32; 9] =
        [0, 1, 255, 256, 65_535, 65_536, 0x00ff_ff00, 0x8000_0000, u32::MAX];
    for value in values {
        let mut region = vec![0x5au8; 6];
        assert_eq!(CounterAccount { counter: value }.encode(&mut region), Ok(()));
        assert_eq!(CounterAccount::decode(&region), Ok(CounterAccount { counter: value }));
        assert_eq!(&region[4..], &[0x5a, 0x5a]);
    }
}

#[test]
fn decode_then_encode_keeps_the_region() {
    let original = vec![0x0du8, 0xf0, 0xad, 0x0b, 0x99];
    let account = CounterAccount::decode(&original).unwrap();
    let mut region = vec![0u8, 0, 0, 0, 0x99];
    assert_eq!(account.encode(&mut region), Ok(()));
    assert_eq!(region, original);
}

#[test]
fn apply_follows_each_rule() {
    let mut account = CounterAccount { counter: 10 };
    assert_eq!(account.apply(CounterInstructions::Increment { value: 32 }), Ok(()));
    assert_eq!(account.counter, 42);
    assert_eq!(account.apply(CounterInstructions::Decrement { value: 2 }), Ok(()));
    assert_eq!(account.counter, 40);
    assert_eq!(account.apply(CounterInstructions::Update { value: 4_000_000_000 }), Ok(()));
    assert_eq!(account.counter, 4_000_000_000);
    assert_eq!(account.apply(CounterInstructions::Reset), Ok(()));
    assert_eq!(account.counter, 0);
}

#[test]
fn apply_refuses_out_of_range_and_keeps_the_account() {
    let mut account = CounterAccount { counter: 4_000_000_000 };
    assert_eq!(
        account.apply(CounterInstructions::Increment { value: 294_967_296 }),
        Err(CounterError::ArithmeticRangeError)
    );
    assert_eq!(account.counter, 4_000_000_000);
    assert_eq!(account.apply(CounterInstructions::Increment { value: 294_967_295 }), Ok(()));
    assert_eq!(account.counter, u32::MAX);
    let mut low = CounterAccount { counter: 5 };
    assert_eq!(
        low.apply(CounterInstructions::Decrement { value: 6 }),
        Err(CounterError::ArithmeticRangeError)
    );
    assert_eq!(low.counter, 5);
    assert_eq!(low.apply(CounterInstructions::Decrement { value: 5 }), Ok(()));
    assert_eq!(low.counter, 0);
}
