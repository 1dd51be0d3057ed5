use malachite_core::round::Round;
use malachite_core::types::{Address, Height, Validity, Value};
use malachite_core::value_builder::{
    after_batch, build_value_from_block_parts, maybe_received_value, take_transactions, BlockPart,
    BuildStep, ReceivedBlock, ReceivedProposedValue,
};

fn part(sequence: u64, tx_count: usize, size_bytes: usize, metadata: Option<Value>) -> BlockPart {
    BlockPart {
        height: Height(3),
        round: Round::new(1),
        sequence,
        validator_address: Address(4),
        tx_count,
        size_bytes,
        metadata,
    }
}

#[test]
fn maybe_received_value_with_no_parts_is_none() {
    assert_eq!(maybe_received_value(Height(3), Round::new(1), &Vec::new()), None);
}

#[test]
fn maybe_received_value_reads_the_last_part() {
    let parts = vec![part(1, 2, 10, None), part(2, 0, 8, Some(Value(77)))];
    assert_eq!(
        maybe_received_value(Height(3), Round::new(1), &parts),
        Some(ReceivedProposedValue {
            validator_address: Address(4),
            height: Height(3),
            round: Round::new(1),
            value: Some(Value(77)),
            valid: Validity::Valid,
        })
    );
    let open = vec![part(2, 0, 8, Some(Value(77))), part(1, 2, 10, None)];
    assert_eq!(maybe_received_value(Height(3), Round::new(1), &open), None);
}

#[test]
fn block_is_complete_when_the_closing_part_has_the_highest_sequence() {
    // Parts out of order: the closing part, number 3, came second.
    let parts = vec![part(1, 2, 10, None), part(3, 0, 8, Some(Value(77))), part(2, 5, 30, None)];
    assert_eq!(
        build_value_from_block_parts(&parts),
        Some(ReceivedBlock {
            value: ReceivedProposedValue {
                validator_address: Address(4),
                height: Height(3),
                round: Round::new(1),
                value: Some(Value(77)),
                valid: Validity::Valid,
            },
            tx_count: 7,
            block_size: 48,
        })
    );
    // A part is missing: number 3 is not the number of parts.
    let missing = vec![part(1, 2, 10, None), part(3, 0, 8, Some(Value(77)))];
    assert_eq!(build_value_from_block_parts(&missing), None);
    // The part with the highest sequence does not close the block.
    let open = vec![part(1, 2, 10, Some(Value(1))), part(2, 5, 30, None)];
    assert_eq!(build_value_from_block_parts(&open), None);
    assert_eq!(build_value_from_block_parts(&Vec::new()), None);
}

#[test]
fn transactions_are_taken_up_to_the_first_that_does_not_fit() {
    assert_eq!(take_transactions(&vec![10, 20, 30], 0, 100), (3, 60));
    assert_eq!(take_transactions(&vec![10, 20, 30], 50, 100), (2, 80));
    assert_eq!(take_transactions(&vec![10, 20, 30], 70, 100), (2, 100));
    // The second does not fit; the third would, but is not taken.
    assert_eq!(take_transactions(&vec![10, 95, 5], 0, 100), (1, 10));
    assert_eq!(take_transactions(&vec![10], 100, 100), (0, 100));
    assert_eq!(take_transactions(&Vec::new(), 5, 100), (0, 5));
    assert_eq!(take_transactions(&vec![usize::MAX, 1], 1, usize::MAX), (0, 1));
}

#[test]
fn build_steps_by_the_clock() {
    assert_eq!(after_batch(5, 10, 20), BuildStep::Continue);
    assert_eq!(after_batch(10, 10, 20), BuildStep::Continue);
    assert_eq!(after_batch(11, 10, 20), BuildStep::Finish);
    assert_eq!(after_batch(20, 10, 20), BuildStep::Finish);
    assert_eq!(after_batch(21, 10, 20), BuildStep::Expired);
}

#[test]
fn hash_holds_its_bytes() {
    let mut bytes = [0u8; 32];
    bytes[31] = 5;
    let hash = malachite_core::hash::Hash::new(bytes);
    assert_eq!(hash.as_bytes(), &bytes);
    assert_eq!(hash.len(), 32);
    assert_eq!(hash.id(), hash);
    let mut more = [0u8; 32];
    more[0] = 1;
    assert!(hash < malachite_core::hash::Hash::new(more));
}

#[test]
fn hash_as_felt_is_the_same_number_below_the_prime() {
    let mut bytes = [0u8; 32];
    bytes[30] = 1;
    bytes[31] = 2;
    let felt = malachite_core::hash::Hash::new(bytes).as_felt().unwrap();
    assert_eq!(felt.to_bytes_be(), bytes);
}

#[test]
fn hash_as_felt_reduces_a_number_above_the_prime() {
    // 2^255 is above the Stark prime 2^251 + 17 * 2^192 + 1.
    let mut bytes = [0u8; 32];
    bytes[0] = 0x80;
    let felt = malachite_core::hash::Hash::new(bytes).as_felt().unwrap();
    assert_ne!(felt.to_bytes_be(), bytes);
    assert!(felt.to_bytes_be()[0] < 0x10);
}
