//! The two queries that join several requests.
//!
//! A query is started with what the caller asks for, tells which requests to
//! send, and takes in the replies as they arrive until it settles.

use crate::join2::{first_reply2, lemma_join2_any_order, lemma_join2_fail_fast,
    lemma_join2_failure_fails, lemma_join2_ready_is_whole, Arrival2, Join2};
use crate::join3::{first_reply3, lemma_join3_any_order, lemma_join3_fail_fast,
    lemma_join3_failure_fails, Arrival3, Join3};
use crate::step::Step;
use crate::types::BlockId;
use ethers::types::{Address, Block, Bytes, TxHash, U256};
use vstd::prelude::*;

verus! {

/// Why a joined query failed.
#[derive(Debug, PartialEq, Eq)]
pub enum QueryError<E> {
    /// A request failed in the node client: its error, unchanged.
    Client(E),
    /// Every request was answered, but the node has no such block.
    BlockNotFound(BlockId),
}

/// A block together with the chain's identifier.
///
/// Two requests go out at once: the first for the block `block_id`, the
/// second for the chain identifier.
#[derive(Debug, PartialEq, Eq)]
pub struct BlockQuery {
    /// The block asked for.
    pub block_id: BlockId,
    /// The replies so far: the block, if the node has it, and the chain
    /// identifier.
    pub join: Join2<Option<Block<TxHash>>, U256>,
}

impl BlockQuery {
    /// The query before any reply, about the block named or else the newest.
    pub open spec fn start(block_id: Option<BlockId>) -> Self {
        BlockQuery { block_id: BlockId::or_latest(block_id), join: Join2::empty() }
    }

    /// What the query makes of its join: a client error stays one, and a
    /// missing block is an error of its own.
    pub open spec fn settle<E>(
        block_id: BlockId,
        joined: Step<Join2<Option<Block<TxHash>>, U256>, (Option<Block<TxHash>>, U256), E>,
    ) -> Step<Self, (Block<TxHash>, U256), QueryError<E>> {
        match joined {
            Step::Pending(join) => Step::Pending(BlockQuery { block_id, join }),
            Step::Failed(e) => Step::Failed(QueryError::Client(e)),
            Step::Ready((Some(block), chain_id)) => Step::Ready((block, chain_id)),
            Step::Ready((None, _)) => Step::Failed(QueryError::BlockNotFound(block_id)),
        }
    }

    /// The query after one more reply.
    pub open spec fn step<E>(self, arrival: Arrival2<Option<Block<TxHash>>, U256, E>) -> Step<
        Self,
        (Block<TxHash>, U256),
        QueryError<E>,
    > {
        Self::settle(self.block_id, self.join.step(arrival))
    }

    /// The query after a run of replies, in the order in which they came.
    pub open spec fn run<E>(self, arrivals: Seq<Arrival2<Option<Block<TxHash>>, U256, E>>) -> Step<
        Self,
        (Block<TxHash>, U256),
        QueryError<E>,
    >
        decreases arrivals.len(),
    {
        if arrivals.len() == 0 {
            Step::Pending(self)
        } else {
            match self.step(arrivals[0]) {
                Step::Pending(next) => next.run(arrivals.drop_first()),
                settled => settled,
            }
        }
    }

    /// Takes in one reply: `First` is the block, `Second` the chain
    /// identifier.
    pub fn arrive<E>(self, arrival: Arrival2<Option<Block<TxHash>>, U256, E>) -> (next: Step<
        Self,
        (Block<TxHash>, U256),
        QueryError<E>,
    >)
        ensures
            next == self.step(arrival),
    {
        let BlockQuery { block_id, join } = self;
        match join.arrive(arrival) {
            Step::Pending(join) => Step::Pending(BlockQuery { block_id, join }),
            Step::Failed(e) => Step::Failed(QueryError::Client(e)),
            Step::Ready((Some(block), chain_id)) => Step::Ready((block, chain_id)),
            Step::Ready((None, _)) => Step::Failed(QueryError::BlockNotFound(block_id)),
        }
    }
}

/// The state of an account: its nonce, its balance and its code.
///
/// Three requests go out at once, all about `address` at `block_id`: the
/// first for the balance, the second for the transaction count, the third
/// for the code. The result lists the transaction count first and the
/// balance second.
#[derive(Debug, PartialEq, Eq)]
pub struct AccountQuery {
    /// The account asked about.
    pub address: Address,
    /// The block at which it is asked about; the node's default if none.
    pub block_id: Option<BlockId>,
    /// The replies so far: balance, transaction count, code.
    pub join: Join3<U256, U256, Bytes>,
}

impl AccountQuery {
    /// The query before any reply.
    pub open spec fn start(address: Address, block_id: Option<BlockId>) -> Self {
        AccountQuery { address, block_id, join: Join3::empty() }
    }

    /// What the query makes of its join: the replies come out as nonce,
    /// balance, code.
    pub open spec fn settle<E>(
        address: Address,
        block_id: Option<BlockId>,
        joined: Step<Join3<U256, U256, Bytes>, (U256, U256, Bytes), E>,
    ) -> Step<Self, (U256, U256, Bytes), QueryError<E>> {
        match joined {
            Step::Pending(join) => Step::Pending(AccountQuery { address, block_id, join }),
            Step::Failed(e) => Step::Failed(QueryError::Client(e)),
            Step::Ready((balance, nonce, code)) => Step::Ready((nonce, balance, code)),
        }
    }

    /// The query after one more reply.
    pub open spec fn step<E>(self, arrival: Arrival3<U256, U256, Bytes, E>) -> Step<
        Self,
        (U256, U256, Bytes),
        QueryError<E>,
    > {
        Self::settle(self.address, self.block_id, self.join.step(arrival))
    }

    /// The query after a run of replies, in the order in which they came.
    pub open spec fn run<E>(self, arrivals: Seq<Arrival3<U256, U256, Bytes, E>>) -> Step<
        Self,
        (U256, U256, Bytes),
        QueryError<E>,
    >
        decreases arrivals.len(),
    {
        if arrivals.len() == 0 {
            Step::Pending(self)
        } else {
            match self.step(arrivals[0]) {
                Step::Pending(next) => next.run(arrivals.drop_first()),
                settled => settled,
            }
        }
    }

    /// Takes in one reply: `First` is the balance, `Second` the transaction
    /// count, `Third` the code.
    pub fn arrive<E>(self, arrival: Arrival3<U256, U256, Bytes, E>) -> (next: Step<
        Self,
        (U256, U256, Bytes),
        QueryError<E>,
    >)
        ensures
            next == self.step(arrival),
    {
        let AccountQuery { address, block_id, join } = self;
        match join.arrive(arrival) {
            Step::Pending(join) => Step::Pending(AccountQuery { address, block_id, join }),
            Step::Failed(e) => Step::Failed(QueryError::Client(e)),
            Step::Ready((balance, nonce, code)) => Step::Ready((nonce, balance, code)),
        }
    }
}

/// A query's run is the run of its join, seen through the query.
pub proof fn lemma_block_query_follows_join<E>(
    query: BlockQuery,
    arrivals: Seq<Arrival2<Option<Block<TxHash>>, U256, E>>,
)
    ensures
        query.run(arrivals) == BlockQuery::settle(query.block_id, query.join.run(arrivals)),
    decreases arrivals.len(),
{
    if arrivals.len() > 0 {
        match query.join.step(arrivals[0]) {
            Step::Pending(join) => {
                lemma_block_query_follows_join(
                    BlockQuery { block_id: query.block_id, join },
                    arrivals.drop_first(),
                );
            },
            _ => {},
        }
    }
}

/// A query's run is the run of its join, seen through the query.
pub proof fn lemma_account_query_follows_join<E>(
    query: AccountQuery,
    arrivals: Seq<Arrival3<U256, U256, Bytes, E>>,
)
    ensures
        query.run(arrivals) == AccountQuery::settle(
            query.address,
            query.block_id,
            query.join.run(arrivals),
        ),
    decreases arrivals.len(),
{
    if arrivals.len() > 0 {
        match query.join.step(arrivals[0]) {
            Step::Pending(join) => {
                lemma_account_query_follows_join(
                    AccountQuery { address: query.address, block_id: query.block_id, join },
                    arrivals.drop_first(),
                );
            },
            _ => {},
        }
    }
}

/// A block that the node has comes back as the node gave it, with the chain
/// identifier as the node gave it, whichever of the two replies came first.
pub proof fn lemma_block_found<E>(
    block_id: Option<BlockId>,
    block: Block<TxHash>,
    chain_id: U256,
    arrivals: Seq<Arrival2<Option<Block<TxHash>>, U256, E>>,
    i: int,
    j: int,
)
    requires
        first_reply2(arrivals, i, Arrival2::First(Ok(Some(block)))),
        first_reply2(arrivals, j, Arrival2::Second(Ok(chain_id))),
    ensures
        BlockQuery::start(block_id).run(arrivals) == Step::<
            BlockQuery,
            (Block<TxHash>, U256),
            QueryError<E>,
        >::Ready((block, chain_id)),
{
    let query = BlockQuery::start(block_id);
    lemma_block_query_follows_join(query, arrivals);
    lemma_join2_any_order(arrivals, Some(block), chain_id, i, j);
}

/// A block that the node does not have is reported as not found, under the
/// identifier that was asked for, and not as an error of the client,
/// whichever of the two replies came first.
pub proof fn lemma_block_missing<E>(
    block_id: Option<BlockId>,
    chain_id: U256,
    arrivals: Seq<Arrival2<Option<Block<TxHash>>, U256, E>>,
    i: int,
    j: int,
)
    requires
        first_reply2(arrivals, i, Arrival2::First(Ok(None))),
        first_reply2(arrivals, j, Arrival2::Second(Ok(chain_id))),
    ensures
        BlockQuery::start(block_id).run(arrivals) == Step::<
            BlockQuery,
            (Block<TxHash>, U256),
            QueryError<E>,
        >::Failed(QueryError::BlockNotFound(BlockId::or_latest(block_id))),
{
    let query = BlockQuery::start(block_id);
    lemma_block_query_follows_join(query, arrivals);
    lemma_join2_any_order(arrivals, None, chain_id, i, j);
}

/// When one of the two requests fails before it has answered and before the
/// other has failed, the query fails at once with that very error of the
/// client.
pub proof fn lemma_block_query_fail_fast<E>(
    block_id: Option<BlockId>,
    arrivals: Seq<Arrival2<Option<Block<TxHash>>, U256, E>>,
    at: int,
)
    requires
        0 <= at < arrivals.len(),
        arrivals[at].is_failure(),
        forall|k: int|
            0 <= k < at ==> !(#[trigger] arrivals[k]).is_failure() && arrivals[k].slot()
                != arrivals[at].slot(),
    ensures
        BlockQuery::start(block_id).run(arrivals) == Step::<
            BlockQuery,
            (Block<TxHash>, U256),
            QueryError<E>,
        >::Failed(QueryError::Client(arrivals[at].error())),
{
    let query = BlockQuery::start(block_id);
    lemma_block_query_follows_join(query, arrivals);
    lemma_join2_fail_fast(arrivals, at);
}

/// An account's state comes back as nonce, balance, code: the nonce is the
/// node's reply to the transaction-count request and the balance its reply
/// to the balance request, both unchanged, in whatever order the three
/// replies came.
pub proof fn lemma_account_any_order<E>(
    address: Address,
    block_id: Option<BlockId>,
    balance: U256,
    nonce: U256,
    code: Bytes,
    arrivals: Seq<Arrival3<U256, U256, Bytes, E>>,
    i: int,
    j: int,
    k: int,
)
    requires
        first_reply3(arrivals, i, Arrival3::First(Ok(balance))),
        first_reply3(arrivals, j, Arrival3::Second(Ok(nonce))),
        first_reply3(arrivals, k, Arrival3::Third(Ok(code))),
    ensures
        AccountQuery::start(address, block_id).run(arrivals) == Step::<
            AccountQuery,
            (U256, U256, Bytes),
            QueryError<E>,
        >::Ready((nonce, balance, code)),
{
    let query = AccountQuery::start(address, block_id);
    lemma_account_query_follows_join(query, arrivals);
    lemma_join3_any_order(arrivals, balance, nonce, code, i, j, k);
}

/// When one of the three requests fails before it has answered and before
/// any other has failed, the query fails at once with that very error of the
/// client.
pub proof fn lemma_account_query_fail_fast<E>(
    address: Address,
    block_id: Option<BlockId>,
    arrivals: Seq<Arrival3<U256, U256, Bytes, E>>,
    at: int,
)
    requires
        0 <= at < arrivals.len(),
        arrivals[at].is_failure(),
        forall|k: int|
            0 <= k < at ==> !(#[trigger] arrivals[k]).is_failure() && arrivals[k].slot()
                != arrivals[at].slot(),
    ensures
        AccountQuery::start(address, block_id).run(arrivals) == Step::<
            AccountQuery,
            (U256, U256, Bytes),
            QueryError<E>,
        >::Failed(QueryError::Client(arrivals[at].error())),
{
    let query = AccountQuery::start(address, block_id);
    lemma_account_query_follows_join(query, arrivals);
    lemma_join3_fail_fast(arrivals, at);
}

/// If the first reply to either of the two requests is a failure, the query
/// fails with an error of the client: it returns no block and no chain
/// identifier, and does not report the block as missing.
pub proof fn lemma_block_query_failure_fails<E>(
    block_id: Option<BlockId>,
    arrivals: Seq<Arrival2<Option<Block<TxHash>>, U256, E>>,
    at: int,
)
    requires
        first_reply2(arrivals, at, arrivals[at]),
        arrivals[at].is_failure(),
    ensures
        BlockQuery::start(block_id).run(arrivals) matches Step::Failed(QueryError::Client(_)),
{
    let query = BlockQuery::start(block_id);
    lemma_block_query_follows_join(query, arrivals);
    lemma_join2_failure_fails(arrivals, at);
}

/// A block is reported as not found only when the node answered both
/// requests and had no block to give: the report names the block that was
/// asked for, and the result says where in the run the two replies stand.
pub proof fn lemma_not_found_means_absent<E>(
    block_id: Option<BlockId>,
    arrivals: Seq<Arrival2<Option<Block<TxHash>>, U256, E>>,
    reported: BlockId,
) -> (at: (int, int))
    requires
        BlockQuery::start(block_id).run(arrivals) == Step::<
            BlockQuery,
            (Block<TxHash>, U256),
            QueryError<E>,
        >::Failed(QueryError::BlockNotFound(reported)),
    ensures
        reported == BlockId::or_latest(block_id),
        first_reply2(arrivals, at.0, Arrival2::First(Ok(None))),
        first_reply2(arrivals, at.1, arrivals[at.1]),
        arrivals[at.1] matches Arrival2::Second(Ok(_)),
{
    let query = BlockQuery::start(block_id);
    lemma_block_query_follows_join(query, arrivals);
    match query.join.run(arrivals) {
        Step::Ready((block, chain_id)) => lemma_join2_ready_is_whole(arrivals, block, chain_id),
        _ => (0, 0),
    }
}

/// If the first reply to any of the three requests is a failure, the query
/// fails with an error of the client and returns no part of the account's
/// state.
pub proof fn lemma_account_query_failure_fails<E>(
    address: Address,
    block_id: Option<BlockId>,
    arrivals: Seq<Arrival3<U256, U256, Bytes, E>>,
    at: int,
)
    requires
        first_reply3(arrivals, at, arrivals[at]),
        arrivals[at].is_failure(),
    ensures
        AccountQuery::start(address, block_id).run(arrivals) matches Step::Failed(
            QueryError::Client(_),
        ),
{
    let query = AccountQuery::start(address, block_id);
    lemma_account_query_follows_join(query, arrivals);
    lemma_join3_failure_fails(arrivals, at);
}

} // verus!
