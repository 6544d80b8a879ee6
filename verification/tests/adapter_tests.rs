use evm_adapters::adapter::BlockingProvider;
use evm_adapters::engine::Executor;
use std::future::Future;

fn run<M, F: Future>(adapter: &BlockingProvider<M>, work: F) -> F::Output {
    match adapter.executor() {
        Executor::Owned(runtime) => runtime.block_on(work),
        Executor::ContextFree => futures::executor::block_on(work),
    }
}

fn owns_engine<M>(adapter: &BlockingProvider<M>) -> bool {
    matches!(adapter.executor(), Executor::Owned(_))
}

#[test]
fn new_outside_a_scheduler_owns_an_engine() {
    let adapter = BlockingProvider::new("client").unwrap();
    assert!(owns_engine(&adapter));
    assert_eq!(*adapter.provider(), "client");
}

#[test]
fn new_inside_an_entered_scheduler_owns_none() {
    let ambient = tokio::runtime::Runtime::new().unwrap();
    let guard = ambient.enter();
    let adapter = BlockingProvider::new("client").unwrap();
    drop(guard);
    assert!(!owns_engine(&adapter));
    assert_eq!(*adapter.provider(), "client");
}

#[test]
fn new_inside_running_work_owns_none() {
    let ambient = tokio::runtime::Runtime::new().unwrap();
    let owned = ambient.block_on(async {
        let adapter = BlockingProvider::new(1u8).unwrap();
        owns_engine(&adapter)
    });
    assert!(!owned);
}

#[test]
fn new_in_follows_the_ambient_flag() {
    let inside = BlockingProvider::new_in(1u8, true).unwrap();
    assert!(!owns_engine(&inside));
    let outside = BlockingProvider::new_in(2u8, false).unwrap();
    assert!(owns_engine(&outside));
    assert_eq!(*inside.provider(), 1);
    assert_eq!(*outside.provider(), 2);
}

#[test]
fn with_engine_takes_the_engine() {
    let runtime = tokio::runtime::Runtime::new().unwrap();
    let adapter = BlockingProvider::with_engine(5u8, Ok(runtime)).unwrap();
    assert!(owns_engine(&adapter));
    assert_eq!(*adapter.provider(), 5);
}

#[test]
fn with_engine_passes_the_cause_on() {
    let cause = std::io::Error::new(std::io::ErrorKind::OutOfMemory, "no threads");
    let error = BlockingProvider::with_engine(5u8, Err(cause)).unwrap_err();
    assert_eq!(error.cause.kind(), std::io::ErrorKind::OutOfMemory);
    assert_eq!(error.cause.to_string(), "no threads");
}

#[test]
fn owned_engine_runs_work_to_completion() {
    let adapter = BlockingProvider::new(0u8).unwrap();
    assert_eq!(run(&adapter, async { 40 + 2 }), 42);
}

#[test]
fn owned_engine_runs_spawned_tasks() {
    let adapter = BlockingProvider::new(0u8).unwrap();
    let out = run(&adapter, async {
        let task = tokio::spawn(async { 6 * 7 });
        task.await.unwrap()
    });
    assert_eq!(out, 42);
}

#[test]
fn adapter_without_engine_runs_work_to_completion() {
    let ambient = tokio::runtime::Runtime::new().unwrap();
    let guard = ambient.enter();
    let adapter = BlockingProvider::new(0u8).unwrap();
    drop(guard);
    assert_eq!(run(&adapter, async { 40 + 2 }), 42);
}

#[test]
fn clone_of_an_owner_owns_a_fresh_engine() {
    let adapter = BlockingProvider::new(String::from("client")).unwrap();
    let copy = adapter.try_clone().unwrap();
    assert!(owns_engine(&adapter));
    assert!(owns_engine(&copy));
    assert_eq!(copy.provider(), "client");
    match (adapter.executor(), copy.executor()) {
        (Executor::Owned(first), Executor::Owned(second)) => {
            assert!(!std::ptr::eq(first, second));
        }
        _ => panic!("both adapters own an engine"),
    }
}

#[test]
fn clone_outlives_its_source() {
    let adapter = BlockingProvider::new(3u8).unwrap();
    let copy = adapter.try_clone().unwrap();
    drop(adapter);
    assert_eq!(run(&copy, async { 1 + 1 }), 2);
}

#[test]
fn clone_of_a_borrower_owns_none() {
    let adapter = BlockingProvider::new_in(3u8, true).unwrap();
    let copy = adapter.try_clone().unwrap();
    assert!(!owns_engine(&copy));
    assert_eq!(*copy.provider(), 3);
}

#[test]
fn clones_work_side_by_side_on_two_threads() {
    let adapter = BlockingProvider::new(1u64).unwrap();
    let copy = adapter.try_clone().unwrap();
    let (sender, receiver) = std::sync::mpsc::channel();
    let worker = match adapter.executor() {
        Executor::Owned(runtime) => runtime.spawn_blocking(move || {
            let value = run(&copy, async { *copy.provider() + 10 });
            sender.send(value).unwrap();
        }),
        Executor::ContextFree => panic!("the adapter owns an engine"),
    };
    let here = run(&adapter, async { *adapter.provider() + 20 });
    run(&adapter, worker).unwrap();
    assert_eq!(here, 21);
    assert_eq!(receiver.recv().unwrap(), 11);
}

#[test]
fn work_blocks_inside_an_active_scheduler() {
    let ambient = tokio::runtime::Runtime::new().unwrap();
    let out = ambient.block_on(async {
        let adapter = BlockingProvider::new(20u32).unwrap();
        let first = run(&adapter, async { *adapter.provider() + 1 });
        let second = run(&adapter, async { first * 2 });
        (owns_engine(&adapter), first, second)
    });
    assert_eq!(out, (false, 21, 42));
}

#[test]
fn clone_inside_an_active_scheduler_owns_none() {
    let ambient = tokio::runtime::Runtime::new().unwrap();
    let owned = ambient.block_on(async {
        let adapter = BlockingProvider::new(1u8).unwrap();
        let copy = adapter.try_clone().unwrap();
        owns_engine(&copy)
    });
    assert!(!owned);
}
