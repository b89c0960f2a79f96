use crawl_session::registry::Registry;
use spider::tokio::runtime::Builder;
use spider::tokio::runtime::Runtime;
use spider::tokio::task::JoinHandle;
use std::sync::atomic::AtomicBool;
use std::sync::atomic::Ordering;
use std::sync::Arc;

struct Raised(Arc<AtomicBool>);

impl Drop for Raised {
    fn drop(&mut self) {
        self.0.store(true, Ordering::SeqCst);
    }
}

fn runtime() -> Runtime {
    Builder::new_current_thread().build().unwrap()
}

/// A task that never ends by itself, and a flag that goes up when the task is dropped.
fn endless(runtime: &Runtime) -> (JoinHandle<()>, Arc<AtomicBool>) {
    let flag = Arc::new(AtomicBool::new(false));
    let raised = Raised(flag.clone());
    let handle = runtime.spawn(async move {
        let _raised = raised;
        std::future::pending::<()>().await;
    });
    (handle, flag)
}

fn turn(runtime: &Runtime) {
    runtime.block_on(async {
        for _ in 0..4 {
            spider::tokio::task::yield_now().await;
        }
    });
}

#[test]
fn a_new_table_is_empty() {
    let registry = Registry::new();
    assert!(registry.is_empty());
    assert_eq!(registry.len(), 0);
    assert_eq!(registry.ids(), Vec::<u32>::new());
    assert!(registry.has_room());
    assert_eq!(registry.allocate_next(), 0);
}

#[test]
fn ids_start_at_zero_and_ascend() {
    let runtime = runtime();
    let mut registry = Registry::new();
    for expected in 0..5u32 {
        let id = registry.allocate_next();
        assert_eq!(id, expected);
        registry.insert(id, runtime.spawn(async {}));
    }
    assert_eq!(registry.ids(), vec![0, 1, 2, 3, 4]);
    assert_eq!(registry.len(), 5);
    assert!(!registry.is_empty());
}

#[test]
fn cancelling_one_keeps_the_order_of_the_rest() {
    let runtime = runtime();
    let mut registry = Registry::new();
    for _ in 0..4 {
        let id = registry.allocate_next();
        registry.insert(id, runtime.spawn(async {}));
    }
    assert!(registry.cancel_one(1));
    assert_eq!(registry.ids(), vec![0, 2, 3]);
    assert!(!registry.cancel_one(1));
    assert!(!registry.cancel_one(17));
    assert_eq!(registry.ids(), vec![0, 2, 3]);
    assert_eq!(registry.allocate_next(), 4);
}

#[test]
fn the_next_id_follows_the_id_registered_last() {
    let runtime = runtime();
    let mut registry = Registry::new();
    registry.insert(7, runtime.spawn(async {}));
    assert_eq!(registry.allocate_next(), 8);
    registry.insert(20, runtime.spawn(async {}));
    assert_eq!(registry.ids(), vec![7, 20]);
    assert_eq!(registry.allocate_next(), 21);
}

#[test]
fn a_table_that_ends_at_the_greatest_id_has_no_room() {
    let runtime = runtime();
    let mut registry = Registry::new();
    registry.insert(u32::MAX - 1, runtime.spawn(async {}));
    assert!(registry.has_room());
    assert_eq!(registry.allocate_next(), u32::MAX);
    registry.insert(u32::MAX, runtime.spawn(async {}));
    assert!(!registry.has_room());
    assert!(registry.cancel_one(u32::MAX));
    assert!(registry.has_room());
}

#[test]
fn a_drained_table_starts_again_at_zero() {
    let runtime = runtime();
    let mut registry = Registry::new();
    for _ in 0..3 {
        let id = registry.allocate_next();
        registry.insert(id, runtime.spawn(async {}));
    }
    assert!(registry.cancel_all());
    assert!(registry.is_empty());
    assert!(!registry.cancel_all());
    assert_eq!(registry.allocate_next(), 0);
}

#[test]
fn draining_by_single_cancels_starts_again_at_zero() {
    let runtime = runtime();
    let mut registry = Registry::new();
    for _ in 0..2 {
        let id = registry.allocate_next();
        registry.insert(id, runtime.spawn(async {}));
    }
    assert!(registry.cancel_one(0));
    assert!(registry.cancel_one(1));
    assert_eq!(registry.allocate_next(), 0);
}

#[test]
fn the_newest_id_is_handed_out_again_after_its_cancel() {
    let runtime = runtime();
    let mut registry = Registry::new();
    for _ in 0..2 {
        let id = registry.allocate_next();
        registry.insert(id, runtime.spawn(async {}));
    }
    assert!(registry.cancel_one(1));
    assert_eq!(registry.ids(), vec![0]);
    assert_eq!(registry.allocate_next(), 1);
}

#[test]
fn cancel_one_stops_the_task() {
    let runtime = runtime();
    let mut registry = Registry::new();
    let (kept, kept_flag) = endless(&runtime);
    let (dropped, dropped_flag) = endless(&runtime);
    registry.insert(0, kept);
    registry.insert(1, dropped);
    turn(&runtime);
    assert!(!kept_flag.load(Ordering::SeqCst));
    assert!(!dropped_flag.load(Ordering::SeqCst));
    assert!(registry.cancel_one(1));
    turn(&runtime);
    assert!(dropped_flag.load(Ordering::SeqCst));
    assert!(!kept_flag.load(Ordering::SeqCst));
}

#[test]
fn cancel_all_stops_every_task() {
    let runtime = runtime();
    let mut registry = Registry::new();
    let mut flags = Vec::new();
    for id in 0..3u32 {
        let (handle, flag) = endless(&runtime);
        registry.insert(id, handle);
        flags.push(flag);
    }
    turn(&runtime);
    assert!(flags.iter().all(|flag| !flag.load(Ordering::SeqCst)));
    assert!(registry.cancel_all());
    turn(&runtime);
    assert!(flags.iter().all(|flag| flag.load(Ordering::SeqCst)));
    assert!(registry.is_empty());
}
