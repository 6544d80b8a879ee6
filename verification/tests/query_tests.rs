use ethers::types::{Address, Block, Bytes, TxHash, H256, U256, U64};
use evm_adapters::adapter::BlockingProvider;
use evm_adapters::join2::{Arrival2, Join2};
use evm_adapters::join3::{Arrival3, Join3};
use evm_adapters::query::{AccountQuery, BlockQuery, QueryError};
use evm_adapters::step::Step;
use evm_adapters::types::{BlockId, BlockNumber};

type BlockStep = Step<BlockQuery, (Block<TxHash>, U256), QueryError<String>>;
type AccountStep = Step<AccountQuery, (U256, U256, Bytes), QueryError<String>>;
type BlockArrival = Arrival2<Option<Block<TxHash>>, U256, String>;
type AccountArrival = Arrival3<U256, U256, Bytes, String>;

fn adapter() -> BlockingProvider<u8> {
    BlockingProvider::new_in(0u8, true).unwrap()
}

fn block(number: u64) -> Block<TxHash> {
    let mut block = Block::default();
    block.number = Some(U64::from(number));
    block
}

fn drive_block(query: BlockQuery, arrivals: Vec<BlockArrival>) -> BlockStep {
    let mut query = query;
    for arrival in arrivals {
        match query.arrive(arrival) {
            Step::Pending(next) => query = next,
            settled => return settled,
        }
    }
    Step::Pending(query)
}

fn drive_account(query: AccountQuery, arrivals: Vec<AccountArrival>) -> AccountStep {
    let mut query = query;
    for arrival in arrivals {
        match query.arrive(arrival) {
            Step::Pending(next) => query = next,
            settled => return settled,
        }
    }
    Step::Pending(query)
}

fn balance(v: u64) -> AccountArrival {
    Arrival3::First(Ok(U256::from(v)))
}

fn nonce(v: u64) -> AccountArrival {
    Arrival3::Second(Ok(U256::from(v)))
}

fn code(bytes: &[u8]) -> AccountArrival {
    Arrival3::Third(Ok(Bytes::from(bytes.to_vec())))
}

#[test]
fn resolve_keeps_a_named_block() {
    let id = BlockId::Number(BlockNumber::Number(U64::from(12)));
    assert_eq!(BlockId::resolve(Some(id)), id);
    let hash = BlockId::Hash(H256::repeat_byte(3));
    assert_eq!(BlockId::resolve(Some(hash)), hash);
}

#[test]
fn resolve_defaults_to_latest() {
    assert_eq!(BlockId::resolve(None), BlockId::Number(BlockNumber::Latest));
}

#[test]
fn block_query_asks_for_the_named_block() {
    let id = BlockId::Number(BlockNumber::Earliest);
    let query = adapter().block_and_chainid(Some(id));
    assert_eq!(query, BlockQuery { block_id: id, join: Join2 { first: None, second: None } });
}

#[test]
fn block_query_asks_for_latest_by_default() {
    let query = adapter().block_and_chainid(None);
    assert_eq!(query.block_id, BlockId::Number(BlockNumber::Latest));
    assert_eq!(query.join, Join2 { first: None, second: None });
}

#[test]
fn block_query_returns_block_and_chain_id() {
    let id = BlockId::Number(BlockNumber::Number(U64::from(5)));
    let out = drive_block(
        adapter().block_and_chainid(Some(id)),
        vec![Arrival2::First(Ok(Some(block(5)))), Arrival2::Second(Ok(U256::from(1)))],
    );
    assert_eq!(out, Step::Ready((block(5), U256::from(1))));
}

#[test]
fn block_query_result_does_not_depend_on_arrival_order() {
    let id = BlockId::Hash(H256::repeat_byte(9));
    let out = drive_block(
        adapter().block_and_chainid(Some(id)),
        vec![Arrival2::Second(Ok(U256::from(31337))), Arrival2::First(Ok(Some(block(8))))],
    );
    assert_eq!(out, Step::Ready((block(8), U256::from(31337))));
}

#[test]
fn block_query_is_pending_after_one_reply() {
    let out = drive_block(
        adapter().block_and_chainid(None),
        vec![Arrival2::Second(Ok(U256::from(1)))],
    );
    assert_eq!(
        out,
        Step::Pending(BlockQuery {
            block_id: BlockId::Number(BlockNumber::Latest),
            join: Join2 { first: None, second: Some(U256::from(1)) },
        })
    );
}

#[test]
fn missing_block_is_not_found() {
    let id = BlockId::Number(BlockNumber::Number(U64::from(1_000_000)));
    let out = drive_block(
        adapter().block_and_chainid(Some(id)),
        vec![Arrival2::First(Ok(None)), Arrival2::Second(Ok(U256::from(1)))],
    );
    assert_eq!(out, Step::Failed(QueryError::BlockNotFound(id)));
}

#[test]
fn missing_block_is_not_found_in_reverse_order() {
    let id = BlockId::Hash(H256::repeat_byte(1));
    let out = drive_block(
        adapter().block_and_chainid(Some(id)),
        vec![Arrival2::Second(Ok(U256::from(1))), Arrival2::First(Ok(None))],
    );
    assert_eq!(out, Step::Failed(QueryError::BlockNotFound(id)));
}

#[test]
fn missing_default_block_is_reported_as_latest() {
    let out = drive_block(
        adapter().block_and_chainid(None),
        vec![Arrival2::First(Ok(None)), Arrival2::Second(Ok(U256::from(1)))],
    );
    assert_eq!(out, Step::Failed(QueryError::BlockNotFound(BlockId::Number(BlockNumber::Latest))));
}

#[test]
fn block_request_failure_is_a_client_error() {
    let out = drive_block(
        adapter().block_and_chainid(None),
        vec![Arrival2::First(Err("timeout".to_string()))],
    );
    assert_eq!(out, Step::Failed(QueryError::Client("timeout".to_string())));
}

#[test]
fn chain_id_failure_beats_a_missing_block() {
    let out = drive_block(
        adapter().block_and_chainid(None),
        vec![Arrival2::First(Ok(None)), Arrival2::Second(Err("refused".to_string()))],
    );
    assert_eq!(out, Step::Failed(QueryError::Client("refused".to_string())));
}

#[test]
fn account_query_remembers_what_to_ask() {
    let address = Address::repeat_byte(0xab);
    let at = Some(BlockId::Number(BlockNumber::Pending));
    let query = adapter().get_account(address, at);
    assert_eq!(
        query,
        AccountQuery {
            address,
            block_id: at,
            join: Join3 { first: None, second: None, third: None },
        }
    );
}

#[test]
fn account_query_passes_no_block_through() {
    let query = adapter().get_account(Address::zero(), None);
    assert_eq!(query.block_id, None);
}

#[test]
fn account_comes_back_as_nonce_balance_code() {
    let out = drive_account(
        adapter().get_account(Address::zero(), None),
        vec![balance(1000), nonce(3), code(&[0x60, 0x80])],
    );
    assert_eq!(
        out,
        Step::Ready((U256::from(3), U256::from(1000), Bytes::from(vec![0x60, 0x80])))
    );
}

#[test]
fn account_result_does_not_depend_on_arrival_order() {
    let expected: AccountStep =
        Step::Ready((U256::from(3), U256::from(1000), Bytes::from(vec![0x60, 0x80])));
    let orders = vec![
        vec![balance(1000), code(&[0x60, 0x80]), nonce(3)],
        vec![nonce(3), balance(1000), code(&[0x60, 0x80])],
        vec![nonce(3), code(&[0x60, 0x80]), balance(1000)],
        vec![code(&[0x60, 0x80]), balance(1000), nonce(3)],
        vec![code(&[0x60, 0x80]), nonce(3), balance(1000)],
    ];
    for order in orders {
        assert_eq!(drive_account(adapter().get_account(Address::zero(), None), order), expected);
    }
}

#[test]
fn account_is_pending_until_the_code_arrives() {
    let address = Address::repeat_byte(1);
    let out = drive_account(adapter().get_account(address, None), vec![nonce(3), balance(9)]);
    assert_eq!(
        out,
        Step::Pending(AccountQuery {
            address,
            block_id: None,
            join: Join3 { first: Some(U256::from(9)), second: Some(U256::from(3)), third: None },
        })
    );
}

#[test]
fn account_failure_returns_no_partial_result() {
    let out = drive_account(
        adapter().get_account(Address::zero(), None),
        vec![balance(1000), nonce(3), Arrival3::Third(Err("boom".to_string()))],
    );
    assert_eq!(out, Step::Failed(QueryError::Client("boom".to_string())));
}

#[test]
fn account_failure_ends_the_query_at_once() {
    let out = drive_account(
        adapter().get_account(Address::zero(), None),
        vec![Arrival3::Second(Err("boom".to_string())), balance(1000), code(&[])],
    );
    assert_eq!(out, Step::Failed(QueryError::Client("boom".to_string())));
}
