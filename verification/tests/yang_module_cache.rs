use std::sync::Arc;
use yang_push::yang_module_cache::{
    ModuleFetch, ModuleFetchLease, ModuleFetchWaiter, WaitEvent, WaitStep, YangModuleCache,
};

fn lead(cache: &mut YangModuleCache, name: &str, revision: &str) -> ModuleFetchLease {
    match cache.begin_fetch(name, revision) {
        ModuleFetch::Lead(lease) => lease,
        ModuleFetch::Wait(_) => panic!("should lead, was told to wait"),
        ModuleFetch::Cached(_) => panic!("should lead, was served"),
    }
}

fn wait(cache: &mut YangModuleCache, name: &str, revision: &str) -> ModuleFetchWaiter {
    match cache.begin_fetch(name, revision) {
        ModuleFetch::Wait(waiter) => waiter,
        ModuleFetch::Lead(_) => panic!("should wait, was told to lead"),
        ModuleFetch::Cached(_) => panic!("should wait, was served"),
    }
}

/// Waits until the wait is over.
fn settle(cache: &mut YangModuleCache, mut waiter: ModuleFetchWaiter) -> Option<Arc<str>> {
    let runtime = tokio::runtime::Builder::new_current_thread()
        .build()
        .unwrap();
    loop {
        match cache.wait(waiter.look()) {
            WaitStep::Done(text) => return text,
            WaitStep::Await => {
                let _ = runtime.block_on(waiter.receiver().changed());
            }
        }
    }
}

#[test]
fn test_new_is_empty() {
    let c = YangModuleCache::new();
    assert!(c.is_empty());
    assert_eq!(c.len(), 0);
    assert_eq!(c.stats().size, 0);
}

#[test]
fn test_miss_increments_miss_counter() {
    let mut c = YangModuleCache::new();
    assert!(c.get("ietf-interfaces", "2018-02-20").is_none());
    assert_eq!(c.stats().misses, 1);
    assert_eq!(c.stats().hits, 0);
}

#[test]
fn test_insert_and_hit_increments_hit_counter() {
    let mut c = YangModuleCache::new();
    c.insert(
        "ietf-interfaces",
        "2018-02-20",
        Arc::from("module ietf-interfaces { }"),
    );
    assert_eq!(c.stats().size, 1);

    let result = c.get("ietf-interfaces", "2018-02-20");
    assert_eq!(result.as_deref(), Some("module ietf-interfaces { }"));
    assert_eq!(c.stats().hits, 1);
    assert_eq!(c.stats().misses, 0);
}

#[test]
fn test_first_writer_wins() {
    let mut c = YangModuleCache::new();
    c.insert("mod", "2024-01-01", Arc::from("first"));
    c.insert("mod", "2024-01-01", Arc::from("second"));
    assert_eq!(c.get("mod", "2024-01-01").as_deref(), Some("first"));
    assert_eq!(c.stats().size, 1);
}

#[test]
fn test_different_revisions_are_distinct_keys() {
    let mut c = YangModuleCache::new();
    c.insert("mod", "2023-01-01", Arc::from("old"));
    c.insert("mod", "2024-01-01", Arc::from("new"));
    assert_eq!(c.get("mod", "2023-01-01").as_deref(), Some("old"));
    assert_eq!(c.get("mod", "2024-01-01").as_deref(), Some("new"));
    assert_eq!(c.stats().size, 2);
}

#[test]
fn test_single_flight_coalesces_concurrent_fetches() {
    let mut cache = YangModuleCache::new();

    // First caller leads.
    let lease = lead(&mut cache, "mod", "2024-01-01");

    // While the leader holds the lease, every concurrent caller must wait.
    let n = 8;
    let mut waiters = Vec::new();
    for _ in 0..n {
        waiters.push(wait(&mut cache, "mod", "2024-01-01"));
    }

    // Publish the result; all waiters should observe it.
    let text: Arc<str> = Arc::from("module mod { }");
    assert!(lease.fulfil(&mut cache, Arc::clone(&text)));

    for waiter in waiters {
        let got = settle(&mut cache, waiter);
        assert_eq!(got.as_deref(), Some("module mod { }"));
    }

    assert_eq!(cache.stats().coalesced, n as u64);
    assert_eq!(cache.stats().misses, 1);
    assert_eq!(cache.stats().hits, 0);
    assert_eq!(cache.stats().size, 1);
    assert_eq!(cache.len(), 1);

    // A later caller now takes the fast path.
    match cache.begin_fetch("mod", "2024-01-01") {
        ModuleFetch::Cached(text) => assert_eq!(&*text, "module mod { }"),
        _ => panic!("should be served"),
    }
    assert_eq!(cache.stats().hits, 1);
}

#[test]
fn test_leader_failure_lets_waiters_retry() {
    let mut cache = YangModuleCache::new();
    let lease = lead(&mut cache, "mod", "2024-01-01");
    let waiter = wait(&mut cache, "mod", "2024-01-01");

    // Leader aborts (e.g. its RPC failed).
    lease.abort(&mut cache);

    // The waiter is told to fall back, and no coalesced hit is recorded.
    assert_eq!(settle(&mut cache, waiter), None);
    assert_eq!(cache.stats().coalesced, 0);
    assert_eq!(cache.stats().size, 0);

    // The key is free again, so the next caller re-leads.
    lead(&mut cache, "mod", "2024-01-01");
    assert_eq!(cache.stats().misses, 2);
}

#[test]
fn test_distinct_keys_lead_independently() {
    let mut cache = YangModuleCache::new();
    lead(&mut cache, "a", "2024-01-01");
    lead(&mut cache, "b", "2024-01-01");
    assert_eq!(cache.stats().misses, 2);
}

#[test]
fn module_in_flight_is_not_counted_and_not_served() {
    let mut cache = YangModuleCache::new();
    let _lease = lead(&mut cache, "mod", "2024-01-01");
    assert!(cache.is_empty());
    assert!(cache.get("mod", "2024-01-01").is_none());
    assert_eq!(cache.stats().misses, 2);
    cache.insert("mod", "2024-01-01", Arc::from("late"));
    assert_eq!(cache.stats().size, 0);
}

#[test]
fn fulfil_without_anyone_waiting_fills_the_cache() {
    let mut cache = YangModuleCache::new();
    let lease = lead(&mut cache, "mod", "2024-01-01");
    assert!(!lease.fulfil(&mut cache, Arc::from("text")));
    assert_eq!(cache.get("mod", "2024-01-01").as_deref(), Some("text"));
    assert_eq!(cache.stats().size, 1);
}

#[test]
fn waiting_goes_on_while_nothing_is_published() {
    let mut cache = YangModuleCache::new();
    let lease = lead(&mut cache, "mod", "2024-01-01");
    let mut waiter = wait(&mut cache, "mod", "2024-01-01");
    assert!(matches!(cache.wait(waiter.look()), WaitStep::Await));
    assert_eq!(cache.stats().coalesced, 0);
    lease.fulfil(&mut cache, Arc::from("text"));
    match cache.wait(waiter.look()) {
        WaitStep::Done(Some(text)) => assert_eq!(&*text, "text"),
        _ => panic!("should be done"),
    }
    assert_eq!(cache.stats().coalesced, 1);
}

#[test]
fn each_waiter_sees_the_text_of_its_own_leader() {
    let mut cache = YangModuleCache::new();
    let a = lead(&mut cache, "a", "2024-01-01");
    let b = lead(&mut cache, "b", "2024-01-01");
    let mut waits_for_a = wait(&mut cache, "a", "2024-01-01");
    let waits_for_b = wait(&mut cache, "b", "2024-01-01");
    assert!(b.fulfil(&mut cache, Arc::from("text of b")));
    assert!(matches!(cache.wait(waits_for_a.look()), WaitStep::Await));
    assert!(a.fulfil(&mut cache, Arc::from("text of a")));
    assert_eq!(
        settle(&mut cache, waits_for_a).as_deref(),
        Some("text of a")
    );
    assert_eq!(
        settle(&mut cache, waits_for_b).as_deref(),
        Some("text of b")
    );
}

#[test]
fn text_stays_for_everyone_after_the_leader() {
    let mut cache = YangModuleCache::new();
    let lease = lead(&mut cache, "mod", "2024-01-01");
    lease.fulfil(&mut cache, Arc::from("text"));
    cache.insert("mod", "2024-01-01", Arc::from("other"));
    for _ in 0..3 {
        match cache.begin_fetch("mod", "2024-01-01") {
            ModuleFetch::Cached(text) => assert_eq!(&*text, "text"),
            _ => panic!("should be served"),
        }
    }
    assert_eq!(cache.stats().size, cache.len() as u64);
}

#[test]
fn look_tells_that_the_leader_is_gone() {
    let mut cache = YangModuleCache::new();
    let lease = lead(&mut cache, "mod", "2024-01-01");
    let mut waiter = wait(&mut cache, "mod", "2024-01-01");
    assert!(matches!(waiter.look(), WaitEvent::Seen(None)));
    lease.abort(&mut cache);
    assert!(matches!(waiter.look(), WaitEvent::Closed));
    assert!(matches!(
        cache.wait(WaitEvent::Closed),
        WaitStep::Done(None)
    ));
}

#[test]
fn text_is_seen_after_the_leader_is_gone() {
    let mut cache = YangModuleCache::new();
    let lease = lead(&mut cache, "mod", "2024-01-01");
    let mut waiter = wait(&mut cache, "mod", "2024-01-01");
    assert!(lease.fulfil(&mut cache, Arc::from("text")));
    for _ in 0..2 {
        match waiter.look() {
            WaitEvent::Seen(Some(text)) => assert_eq!(&*text, "text"),
            _ => panic!("the text should be there"),
        }
    }
}

#[test]
fn default_cache_is_empty() {
    let cache = YangModuleCache::default();
    assert!(cache.is_empty());
    assert_eq!(cache.stats().misses, 0);
}

#[test]
fn waiters_are_freed_by_abort_without_being_counted() {
    let mut cache = YangModuleCache::new();
    let lease = lead(&mut cache, "ietf-ip", "2018-02-22");
    let mut first = wait(&mut cache, "ietf-ip", "2018-02-22");
    let mut second = wait(&mut cache, "ietf-ip", "2018-02-22");
    assert!(matches!(first.look(), WaitEvent::Seen(None)));
    lease.abort(&mut cache);
    for waiter in [&mut first, &mut second] {
        assert!(matches!(waiter.look(), WaitEvent::Closed));
        assert!(matches!(cache.wait(waiter.look()), WaitStep::Done(None)));
    }
    assert_eq!(cache.stats().coalesced, 0);
    assert_eq!(cache.stats().misses, 1);
    assert!(cache.is_empty());
    // They ask again: one leads, and the other waits for it.
    let lease = lead(&mut cache, "ietf-ip", "2018-02-22");
    let third = wait(&mut cache, "ietf-ip", "2018-02-22");
    assert!(lease.fulfil(&mut cache, Arc::from("module ietf-ip {}")));
    assert_eq!(settle(&mut cache, third).as_deref(), Some("module ietf-ip {}"));
    assert_eq!(cache.stats().coalesced, 1);
    assert_eq!(cache.stats().misses, 2);
}
