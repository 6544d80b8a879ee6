//! The adapter: a node client together with the engine that drives its work.

use crate::engine::{ambient_engine_active, start_engine, EngineError, Executor};
use crate::join2::Join2;
use crate::join3::Join3;
use crate::query::{AccountQuery, BlockQuery};
use crate::types::BlockId;
use ethers::types::Address;
use tokio::runtime::Runtime;
use vstd::prelude::*;

verus! {

/// A node client made usable from blocking code.
///
/// The adapter owns an engine exactly when it was made where none was active.
/// An engine is never shared: each adapter that owns one owns it alone, and
/// the engine is shut down when the adapter is dropped.
#[derive(Debug)]
pub struct BlockingProvider<M> {
    provider: M,
    runtime: Option<Runtime>,
}

impl<M> BlockingProvider<M> {
    /// The node client that the adapter speaks to.
    pub closed spec fn client(&self) -> M {
        self.provider
    }

    /// The engine that the adapter owns, if it owns one.
    pub closed spec fn engine(&self) -> Option<Runtime> {
        self.runtime
    }

    /// Whether the adapter owns an engine.
    pub open spec fn owns_engine(&self) -> bool {
        self.engine() is Some
    }

    /// Makes an adapter for `provider`, with an engine of its own unless the
    /// calling thread already stands inside an active scheduler.
    ///
    /// Whether a scheduler is active is for the calling thread to say, and
    /// whether an engine can be started is for the system to say, so no
    /// success is promised here: `new_in` says what follows from each answer
    /// of the first, and `with_engine` from each answer of the second.
    pub fn new(provider: M) -> (made: Result<Self, EngineError>)
        ensures
            made matches Ok(adapter) ==> adapter.client() == provider,
    {
        let ambient = ambient_engine_active();
        Self::new_in(provider, ambient)
    }

    /// Makes an adapter for `provider`, given whether a scheduler is already
    /// active around the caller. Inside an active scheduler this always
    /// succeeds and the adapter owns no engine; outside it starts one, and
    /// fails only if that fails.
    pub fn new_in(provider: M, ambient: bool) -> (made: Result<Self, EngineError>)
        ensures
            ambient ==> made is Ok,
            made matches Ok(adapter) ==> adapter.client() == provider && adapter.owns_engine()
                == !ambient,
    {
        if ambient {
            Ok(BlockingProvider { provider, runtime: None })
        } else {
            Self::with_engine(provider, start_engine())
        }
    }

    /// Makes an adapter that owns the engine in `started`, or passes on the
    /// reason why there is none.
    pub fn with_engine(provider: M, started: Result<Runtime, std::io::Error>) -> (made: Result<
        Self,
        EngineError,
    >)
        ensures
            match started {
                Ok(runtime) => made matches Ok(adapter) && adapter.client() == provider
                    && adapter.engine() == Some(runtime),
                Err(cause) => made matches Err(error) && error.cause == cause,
            },
    {
        match started {
            Ok(runtime) => Ok(BlockingProvider { provider, runtime: Some(runtime) }),
            Err(cause) => Err(EngineError { cause }),
        }
    }

    /// A second adapter for the same client. It owns an engine exactly when
    /// this one does, and then a fresh one: the two never share.
    pub fn try_clone(&self) -> (copy: Result<Self, EngineError>) where M: Clone
        ensures
            !self.owns_engine() ==> copy is Ok,
            copy matches Ok(adapter) ==> cloned(self.client(), adapter.client())
                && adapter.owns_engine() == self.owns_engine(),
    {
        let ambient = self.runtime.is_none();
        Self::new_in(self.provider.clone(), ambient)
    }

    /// The node client.
    pub fn provider(&self) -> (client: &M)
        ensures
            *client == self.client(),
    {
        &self.provider
    }

    /// How to drive a unit of work: on the adapter's own engine if it has
    /// one, otherwise without any scheduler.
    pub fn executor(&self) -> (executor: Executor<'_>)
        ensures
            match self.engine() {
                Some(runtime) => executor == Executor::Owned(&runtime),
                None => executor == Executor::ContextFree,
            },
    {
        match &self.runtime {
            Some(runtime) => Executor::Owned(runtime),
            None => Executor::ContextFree,
        }
    }

    /// Starts the query for a block and the chain's identifier. The block is
    /// the one named, or the newest if none is named.
    pub fn block_and_chainid(&self, block_id: Option<BlockId>) -> (query: BlockQuery)
        ensures
            query == BlockQuery::start(block_id),
    {
        BlockQuery { block_id: BlockId::resolve(block_id), join: Join2::new() }
    }

    /// Starts the query for the state of `address` at `block_id`. The
    /// requests ask for balance, transaction count and code; the result
    /// lists them as nonce, balance, code.
    pub fn get_account(&self, address: Address, block_id: Option<BlockId>) -> (query: AccountQuery)
        ensures
            query == AccountQuery::start(address, block_id),
    {
        AccountQuery { address, block_id, join: Join3::new() }
    }
}

} // verus!
