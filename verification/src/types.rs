//! The values that travel between the caller and the node client.
//!
//! Balances, hashes, byte strings and block bodies are carried through
//! untouched; only the block identifier is inspected, so it is modelled here.

use vstd::prelude::*;

verus! {

/// `ethers::types::H160`, a 20-byte account address. Carried, never inspected.
#[verifier::external_type_specification]
#[verifier::external_body]
pub struct ExH160(ethers::types::H160);

/// `ethers::types::H256`, a 32-byte hash or storage word. Carried, never inspected.
#[verifier::external_type_specification]
#[verifier::external_body]
pub struct ExH256(ethers::types::H256);

/// `ethers::types::U256`, a 256-bit unsigned integer. Carried, never inspected.
#[verifier::external_type_specification]
#[verifier::external_body]
pub struct ExU256(ethers::types::U256);

/// `ethers::types::U64`, a 64-bit unsigned integer. Carried, never inspected.
#[verifier::external_type_specification]
#[verifier::external_body]
pub struct ExU64(ethers::types::U64);

/// `ethers::types::Bytes`, contract bytecode. Carried, never inspected.
#[verifier::external_type_specification]
#[verifier::external_body]
pub struct ExBytes(ethers::types::Bytes);

/// `ethers::types::Block`, a block body with its transactions. Carried, never inspected.
#[verifier::external_type_specification]
#[verifier::external_body]
#[verifier::reject_recursive_types(TX)]
pub struct ExBlock<TX>(ethers::types::Block<TX>);

/// A block by its height or by one of the node's symbolic names.
#[derive(Clone, Copy, Debug, PartialEq, Eq)]
pub enum BlockNumber {
    /// The newest block the node knows.
    Latest,
    /// The newest block accepted as canonical.
    Finalized,
    /// The newest block considered safe from reorganisation.
    Safe,
    /// The genesis block.
    Earliest,
    /// The block under construction.
    Pending,
    /// The block at this height.
    Number(ethers::types::U64),
}

/// A reference to one block of the chain.
#[derive(Clone, Copy, Debug, PartialEq, Eq)]
pub enum BlockId {
    /// The block with this hash.
    Hash(ethers::types::H256),
    /// The block with this height or symbolic name.
    Number(BlockNumber),
}

impl BlockId {
    /// The identifier used when the caller names no block.
    pub open spec fn latest() -> BlockId {
        BlockId::Number(BlockNumber::Latest)
    }

    /// The block a query is about: the one named, or the newest.
    pub open spec fn or_latest(block_id: Option<BlockId>) -> BlockId {
        match block_id {
            Some(id) => id,
            None => BlockId::latest(),
        }
    }

    /// Resolves an optional identifier, defaulting to the newest block.
    pub fn resolve(block_id: Option<BlockId>) -> (id: BlockId)
        ensures
            id == BlockId::or_latest(block_id),
    {
        match block_id {
            Some(id) => id,
            None => BlockId::Number(BlockNumber::Latest),
        }
    }
}

} // verus!
