use shared_cell::shared::SharedCounted;
use std::sync::atomic::{AtomicUsize, Ordering};
use std::sync::Arc;

struct DropTally {
    drops: Arc<AtomicUsize>,
    payload: u32,
}

impl Drop for DropTally {
    fn drop(&mut self) {
        self.drops.fetch_add(1, Ordering::SeqCst);
    }
}

#[test]
fn create_then_borrow_reads_the_value() {
    let h = SharedCounted::create(10i32);
    assert_eq!(*h.borrow(), 10);
    assert_eq!(h.strong_count(), 1);
}

#[test]
fn clone_reads_the_same_value_and_counts() {
    let h = SharedCounted::create(String::from("block"));
    let c = h.clone();
    assert_eq!(c.borrow(), "block");
    assert!(h.same_block(&c));
    assert_eq!(h.strong_count(), 2);
    drop(c);
    assert_eq!(h.strong_count(), 1);
}

#[test]
fn separate_blocks_are_not_the_same() {
    let a = SharedCounted::create(1u8);
    let b = SharedCounted::create(1u8);
    assert!(!a.same_block(&b));
}

#[test]
fn handles_that_clone_and_drop_restore_the_count() {
    let h = SharedCounted::create(7u64);
    let before = h.strong_count();
    let clones: Vec<SharedCounted<u64>> = (0..8).map(|_| h.clone()).collect();
    assert_eq!(h.strong_count(), before + 8);
    for c in clones {
        assert_eq!(*c.borrow(), 7);
    }
    assert_eq!(h.strong_count(), before);
}

#[test]
fn value_is_destroyed_exactly_once_after_the_last_drop() {
    let drops = Arc::new(AtomicUsize::new(0));
    let h = SharedCounted::create(DropTally { drops: drops.clone(), payload: 3 });
    let clones: Vec<SharedCounted<DropTally>> = (0..6).map(|_| h.clone()).collect();
    for c in clones {
        assert_eq!(c.borrow().payload, 3);
    }
    assert_eq!(drops.load(Ordering::SeqCst), 0);
    assert_eq!(h.borrow().payload, 3);
    drop(h);
    assert_eq!(drops.load(Ordering::SeqCst), 1);
}
