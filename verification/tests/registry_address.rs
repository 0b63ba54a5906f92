use std::collections::HashSet;
use std::sync::{Arc, Barrier, RwLock};

use client_bridge::address::Address;
use client_bridge::failure::Failure;
use client_bridge::registry::Registry;

fn text(v: &[char]) -> String {
    v.iter().collect()
}

#[test]
fn concurrent_opens_yield_distinct_handles() {
    let runtime = tokio::runtime::Builder::new_multi_thread()
        .worker_threads(4)
        .build()
        .expect("executor");
    let registry: Arc<RwLock<Registry<u64>>> = Arc::new(RwLock::new(Registry::new()));
    let tasks: u64 = 10;
    let opens_per_task: u64 = 1_000;
    let mut joins = Vec::new();
    for t in 0..tasks {
        let registry = Arc::clone(&registry);
        joins.push(runtime.spawn_blocking(move || {
            let mut handles = Vec::new();
            for i in 0..opens_per_task {
                let handle = registry.write().expect("registry lock").open(t * opens_per_task + i);
                assert!(handle.len() >= 10);
                assert!(handle.iter().all(|c| c.is_ascii_alphanumeric()));
                handles.push(text(&handle));
            }
            handles
        }));
    }
    let mut seen: HashSet<String> = HashSet::new();
    for join in joins {
        for handle in runtime.block_on(join).expect("open task") {
            assert!(seen.insert(handle), "handle repeated");
        }
    }
    assert_eq!(seen.len() as u64, tasks * opens_per_task);
    assert_eq!(registry.read().expect("registry lock").len() as u64, tasks * opens_per_task);
}

#[test]
fn unknown_handle_is_a_recoverable_failure() {
    let mut registry: Registry<&'static str> = Registry::new();
    let live = registry.open("alive");
    let bogus: Vec<char> = "notahandle".chars().collect();
    assert!(registry.resolve(&bogus).is_none());
    let outcome = client_bridge::bridge::unknown_handle_outcome(&bogus);
    match outcome {
        client_bridge::failure::TaskOutcome::Failed(Failure::UnknownHandle(h)) => {
            assert_eq!(text(&h), "notahandle");
        }
        _ => panic!("expected the unknown-handle failure"),
    }
    // The failed lookup disturbed nothing: the live handle still resolves.
    assert_eq!(registry.resolve(&live), Some(&"alive"));
}

#[test]
fn close_ends_resolution_but_not_borrowed_resources() {
    let mut registry: Registry<Arc<String>> = Registry::new();
    let handle = registry.open(Arc::new(String::from("payload")));
    let in_flight = registry.resolve(&handle).expect("live handle").clone();
    assert!(registry.close(&handle));
    // The handle is gone for new resolutions...
    assert!(registry.resolve(&handle).is_none());
    assert!(!registry.close(&handle));
    // ...but the task that already resolved it still owns the resource.
    assert_eq!(in_flight.as_str(), "payload");
}

#[test]
fn close_leaves_other_entries_untouched() {
    let mut registry: Registry<u32> = Registry::new();
    let first = registry.open(1);
    let second = registry.open(2);
    let third = registry.open(3);
    assert!(registry.close(&second));
    assert_eq!(registry.resolve(&first), Some(&1));
    assert!(registry.resolve(&second).is_none());
    assert_eq!(registry.resolve(&third), Some(&3));
    assert_eq!(registry.len(), 2);
}

#[test]
fn concurrent_reads_do_not_block_each_other() {
    let runtime = tokio::runtime::Builder::new_multi_thread()
        .worker_threads(2)
        .build()
        .expect("executor");
    let mut registry: Registry<Arc<RwLock<u64>>> = Registry::new();
    let handle = registry.open(Arc::new(RwLock::new(7)));
    let shared = Arc::new(RwLock::new(registry));
    let readers: usize = 8;
    let barrier = Arc::new(Barrier::new(readers));
    let mut joins = Vec::new();
    for _ in 0..readers {
        let shared = Arc::clone(&shared);
        let barrier = Arc::clone(&barrier);
        let handle = handle.clone();
        joins.push(runtime.spawn_blocking(move || {
            let map = shared.read().expect("registry lock");
            let resource = map.resolve(&handle).expect("live handle").clone();
            drop(map);
            let value = resource.read().expect("resource lock");
            // Every reader holds its shared access at the same moment; if
            // readers excluded one another this rendezvous would never
            // complete.
            barrier.wait();
            *value
        }));
    }
    for join in joins {
        let value = runtime.block_on(join).expect("reader task");
        assert_eq!(value, 7);
    }
}

#[test]
fn exclusive_writes_do_not_interleave() {
    let runtime = tokio::runtime::Builder::new_multi_thread()
        .worker_threads(2)
        .build()
        .expect("executor");
    let mut registry: Registry<Arc<RwLock<(u64, u64)>>> = Registry::new();
    let handle = registry.open(Arc::new(RwLock::new((0, 0))));
    let shared = Arc::new(RwLock::new(registry));
    let writers: usize = 4;
    let steps: u64 = 1_000;
    let mut joins = Vec::new();
    for _ in 0..writers {
        let shared = Arc::clone(&shared);
        let handle = handle.clone();
        joins.push(runtime.spawn_blocking(move || {
            let resource = {
                let map = shared.read().expect("registry lock");
                map.resolve(&handle).expect("live handle").clone()
            };
            for _ in 0..steps {
                let mut pair = resource.write().expect("resource lock");
                // Both halves are updated under one exclusive access; a
                // torn update would leave them unequal.
                pair.0 += 1;
                pair.1 = pair.0;
            }
        }));
    }
    for join in joins {
        runtime.block_on(join).expect("writer task");
    }
    let map = shared.read().expect("registry lock");
    let resource = map.resolve(&handle).expect("live handle");
    let pair = resource.read().expect("resource lock");
    assert_eq!(pair.0, writers as u64 * steps);
    assert_eq!(pair.1, pair.0);
}

#[test]
fn address_parse_accepts_valid_bech32() {
    let a = Address::parse("a12uel5l").expect("valid bech32");
    assert_eq!(text(a.text()), "a12uel5l");
    assert!(a.payload().is_empty());
    let b = Address::parse("bc1qw508d6qejxtdg4y5r3zarvary0c5xw7kv8f3t4").expect("valid bech32");
    assert_eq!(text(b.text()), "bc1qw508d6qejxtdg4y5r3zarvary0c5xw7kv8f3t4");
    assert!(!b.payload().is_empty());
    assert!(b.payload().iter().all(|v| *v < 32));
}

#[test]
fn address_parse_rejects_malformed_encodings() {
    // Damaged checksum.
    match Address::parse("a12uel5x") {
        Err(Failure::Address(_)) => {}
        _ => panic!("expected the addressing failure"),
    }
    // No separator at all.
    match Address::parse("nonsense") {
        Err(Failure::Address(_)) => {}
        _ => panic!("expected the addressing failure"),
    }
    // Mixed case is not a valid encoding.
    match Address::parse("A12uEL5L") {
        Err(Failure::Address(_)) => {}
        _ => panic!("expected the addressing failure"),
    }
}
