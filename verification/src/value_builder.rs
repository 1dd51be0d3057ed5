//! What a value builder decides: how many transactions go into a block,
//! when building stops, and which value a set of block parts carries.
//!
//! Fetching transactions, storing and gossiping parts, and the clock are
//! the host's; it hands in plain values and acts on what comes back.

use vstd::prelude::*;
use crate::round::Round;
use crate::types::{Address, Height, Validity, Value};

verus! {

/// A part of a proposed block, as far as the value builder reads it.
#[derive(Clone, Copy, Debug, PartialEq, Eq, Structural)]
pub struct BlockPart {
    pub height: Height,
    pub round: Round,
    /// The position of the part among the parts of its block, from one.
    pub sequence: u64,
    pub validator_address: Address,
    /// The number of transactions in the part.
    pub tx_count: usize,
    /// The size of the part in bytes.
    pub size_bytes: usize,
    /// The value of the block, which the part that closes the block carries.
    pub metadata: Option<Value>,
}

/// A value that this node built and proposes.
#[derive(Clone, Copy, Debug, PartialEq, Eq, Structural)]
pub struct LocallyProposedValue {
    pub height: Height,
    pub round: Round,
    pub value: Option<Value>,
}

/// A value that was received in parts from its proposer.
#[derive(Clone, Copy, Debug, PartialEq, Eq, Structural)]
pub struct ReceivedProposedValue {
    pub validator_address: Address,
    pub height: Height,
    pub round: Round,
    pub value: Option<Value>,
    pub valid: Validity,
}

/// A block received in full: its value, with the number of its
/// transactions and its size in bytes over all its parts.
#[derive(Clone, Copy, Debug, PartialEq, Eq, Structural)]
pub struct ReceivedBlock {
    pub value: ReceivedProposedValue,
    pub tx_count: u128,
    pub block_size: u128,
}

/// What the builder does after a batch of transactions.
#[derive(Clone, Copy, Debug, PartialEq, Eq, Structural)]
pub enum BuildStep {
    /// Fetch and pack another batch.
    Continue,
    /// Close the block and propose it.
    Finish,
    /// Give up: the time allowed for building has run out.
    Expired,
}

/// How many of the transactions, taken in order, fit into a block that
/// holds `block_size` bytes already and may hold `max_block_size`.
pub open spec fn fitting(sizes: Seq<usize>, block_size: nat, max_block_size: nat) -> nat
    decreases sizes.len(),
{
    if sizes.len() == 0 || block_size + sizes[0] > max_block_size {
        0
    } else {
        1 + fitting(sizes.drop_first(), block_size + sizes[0] as nat, max_block_size)
    }
}

/// The size of the block once the transactions that fit have been taken.
pub open spec fn packed_size(sizes: Seq<usize>, block_size: nat, max_block_size: nat) -> nat
    decreases sizes.len(),
{
    if sizes.len() == 0 || block_size + sizes[0] > max_block_size {
        block_size
    } else {
        packed_size(sizes.drop_first(), block_size + sizes[0] as nat, max_block_size)
    }
}

/// The number of transactions over all the parts.
pub open spec fn total_tx_count(parts: Seq<BlockPart>) -> nat
    decreases parts.len(),
{
    if parts.len() == 0 {
        0
    } else {
        total_tx_count(parts.drop_last()) + parts.last().tx_count as nat
    }
}

/// The size in bytes of all the parts.
pub open spec fn total_size(parts: Seq<BlockPart>) -> nat
    decreases parts.len(),
{
    if parts.len() == 0 {
        0
    } else {
        total_size(parts.drop_last()) + parts.last().size_bytes as nat
    }
}

/// The first part with the sequence number, if there is one.
pub open spec fn part_at(parts: Seq<BlockPart>, sequence: u64) -> Option<BlockPart>
    decreases parts.len(),
{
    if parts.len() == 0 {
        None
    } else if parts[0].sequence == sequence {
        Some(parts[0])
    } else {
        part_at(parts.drop_first(), sequence)
    }
}

/// The value that a part announces as received, if the part closes its block.
pub open spec fn announced(part: BlockPart, height: Height, round: Round) -> Option<ReceivedProposedValue> {
    match part.metadata {
        Some(value) => Some(
            ReceivedProposedValue {
                validator_address: part.validator_address,
                height,
                round,
                value: Some(value),
                valid: Validity::Valid,
            },
        ),
        None => None,
    }
}

/// The block that the parts received for one height and round make up.
///
/// The block is complete when the part whose sequence number is the number
/// of parts is there and closes the block.
pub open spec fn received_block(parts: Seq<BlockPart>) -> Option<ReceivedBlock> {
    match part_at(parts, parts.len() as u64) {
        Some(last) => match announced(last, last.height, last.round) {
            Some(value) => Some(
                ReceivedBlock { value, tx_count: total_tx_count(parts) as u128, block_size: total_size(parts) as u128 },
            ),
            None => None,
        },
        None => None,
    }
}

/// The totals over parts stay within what a 128-bit counter holds.
pub proof fn lemma_totals_bounded(parts: Seq<BlockPart>)
    ensures
        total_tx_count(parts) <= parts.len() * usize::MAX,
        total_size(parts) <= parts.len() * usize::MAX,
    decreases parts.len(),
{
    if parts.len() > 0 {
        lemma_totals_bounded(parts.drop_last());
        let n = parts.len() as int;
        let m = usize::MAX as int;
        assert((n - 1) * m + m == n * m) by (nonlinear_arith);
    }
}

/// Take transactions, in order, into a block that holds `block_size` bytes
/// and may hold `max_block_size`, up to the first that does not fit.
/// Returns how many were taken and the size of the block with them.
pub fn take_transactions(sizes: &Vec<usize>, block_size: usize, max_block_size: usize) -> (r: (usize, usize))
    ensures
        r.0 as nat == fitting(sizes@, block_size as nat, max_block_size as nat),
        r.1 as nat == packed_size(sizes@, block_size as nat, max_block_size as nat),
        r.0 <= sizes@.len(),
{
    let mut size = block_size;
    let mut i: usize = 0;
    proof {
        assert(sizes@.skip(0) =~= sizes@);
    }
    while i < sizes.len()
        invariant
            0 <= i <= sizes.len(),
            fitting(sizes@, block_size as nat, max_block_size as nat) == i + fitting(
                sizes@.skip(i as int),
                size as nat,
                max_block_size as nat,
            ),
            packed_size(sizes@, block_size as nat, max_block_size as nat) == packed_size(
                sizes@.skip(i as int),
                size as nat,
                max_block_size as nat,
            ),
        decreases sizes.len() - i,
    {
        proof {
            assert(sizes@.skip(i as int).drop_first() =~= sizes@.skip(i + 1));
            assert(sizes@.skip(i as int)[0] == sizes@[i as int]);
        }
        match size.checked_add(sizes[i]) {
            Some(sum) => {
                if sum > max_block_size {
                    return (i, size);
                }
                size = sum;
            },
            None => {
                return (i, size);
            },
        }
        i += 1;
    }
    (i, size)
}

/// What to do after a batch, `elapsed` after building began: give up once
/// the time allowed has run out, close the block once the deadline has
/// passed, and otherwise go on. Times are in one unit of the host's choice.
pub fn after_batch(elapsed: u64, deadline: u64, expiration: u64) -> (step: BuildStep)
    ensures
        step == (if elapsed > expiration {
            BuildStep::Expired
        } else if elapsed > deadline {
            BuildStep::Finish
        } else {
            BuildStep::Continue
        }),
{
    if elapsed > expiration {
        BuildStep::Expired
    } else if elapsed > deadline {
        BuildStep::Finish
    } else {
        BuildStep::Continue
    }
}

/// The first part with the sequence number, if there is one.
fn find_part(parts: &Vec<BlockPart>, sequence: u64) -> (r: Option<BlockPart>)
    ensures
        r == part_at(parts@, sequence),
{
    let mut i: usize = 0;
    proof {
        assert(parts@.skip(0) =~= parts@);
    }
    while i < parts.len()
        invariant
            0 <= i <= parts.len(),
            part_at(parts@, sequence) == part_at(parts@.skip(i as int), sequence),
        decreases parts.len() - i,
    {
        if parts[i].sequence == sequence {
            return Some(parts[i]);
        }
        proof {
            assert(parts@.skip(i as int).drop_first() =~= parts@.skip(i + 1));
        }
        i += 1;
    }
    None
}

/// The value of the block that the parts received so far for one height and
/// round make up, with its totals; nothing while the block is incomplete.
pub fn build_value_from_block_parts(all_parts: &Vec<BlockPart>) -> (r: Option<ReceivedBlock>)
    ensures
        r == received_block(all_parts@),
{
    // The last part is the one with the highest sequence number; parts may
    // not have been received in order.
    let highest_sequence = all_parts.len() as u64;
    let last_part = match find_part(all_parts, highest_sequence) {
        Some(part) => part,
        None => {
            return None;
        },
    };
    // If the last part carries the value, all parts have been received.
    let value = match last_part.metadata {
        Some(value) => value,
        None => {
            return None;
        },
    };
    let mut tx_count: u128 = 0;
    let mut block_size: u128 = 0;
    let mut i: usize = 0;
    while i < all_parts.len()
        invariant
            0 <= i <= all_parts.len(),
            tx_count as nat == total_tx_count(all_parts@.take(i as int)),
            block_size as nat == total_size(all_parts@.take(i as int)),
        decreases all_parts.len() - i,
    {
        proof {
            assert(all_parts@.take(i + 1).drop_last() =~= all_parts@.take(i as int));
            lemma_totals_bounded(all_parts@.take(i + 1));
            assert((i + 1) * usize::MAX <= u128::MAX) by (nonlinear_arith)
                requires
                    0 <= i < usize::MAX,
                    usize::MAX <= u64::MAX,
            ;
        }
        tx_count = tx_count + all_parts[i].tx_count as u128;
        block_size = block_size + all_parts[i].size_bytes as u128;
        i += 1;
    }
    proof {
        assert(all_parts@.take(i as int) =~= all_parts@);
    }
    Some(
        ReceivedBlock {
            value: ReceivedProposedValue {
                validator_address: last_part.validator_address,
                height: last_part.height,
                round: last_part.round,
                value: Some(value),
                valid: Validity::Valid,
            },
            tx_count,
            block_size,
        },
    )
}

/// The value announced by the last of the parts stored for a height and
/// round, if that part closes its block. With no part stored there is none.
pub fn maybe_received_value(height: Height, round: Round, block_parts: &Vec<BlockPart>) -> (r: Option<
    ReceivedProposedValue,
>)
    ensures
        block_parts@.len() == 0 ==> r is None,
        block_parts@.len() > 0 ==> r == announced(block_parts@.last(), height, round),
{
    let num_parts = block_parts.len();
    if num_parts == 0 {
        return None;
    }
    let last_part = block_parts[num_parts - 1];
    match last_part.metadata {
        Some(value) => Some(
            ReceivedProposedValue {
                validator_address: last_part.validator_address,
                height,
                round,
                value: Some(value),
                valid: Validity::Valid,
            },
        ),
        None => None,
    }
}

} // verus!
