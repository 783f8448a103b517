//! What the consensus engine tells the application about a block.

use vstd::prelude::*;

verus! {

/// The kind of a misbehavior.
pub type MisbehaviorType = i32;

/// A misbehavior of unknown kind.
pub const UNKNOWN: MisbehaviorType = 0;

/// A validator voted twice in one round.
pub const DUPLICATE_VOTE: MisbehaviorType = 1;

/// A light client was shown a conflicting header.
pub const LIGHT_CLIENT_ATTACK: MisbehaviorType = 2;

/// How a validator's vote stands to the block.
pub type BlockIDFlag = i32;

/// It is not known whether the validator voted.
pub const BLOCK_ID_FLAG_UNKNOWN: BlockIDFlag = 0;

/// The validator did not vote.
pub const BLOCK_ID_FLAG_ABSENT: BlockIDFlag = 1;

/// The validator voted for the block.
pub const BLOCK_ID_FLAG_COMMIT: BlockIDFlag = 2;

/// The validator voted for no block.
pub const BLOCK_ID_FLAG_NIL: BlockIDFlag = 3;

/// A service that gives the information about the current block.
pub trait BlockInfoService {

}

/// A validator: its address and its voting power.
pub trait Validator {
    fn address(&self) -> Vec<u8>;

    fn power(&self) -> i64;
}

} // verus!
