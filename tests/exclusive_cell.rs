use shared_cell::exclusive::{fetch_add, ExclusiveCell};
use shared_cell::shared::SharedCounted;

#[test]
fn ten_handles_each_adding_one_yield_ten() {
    let shared = SharedCounted::create(ExclusiveCell::create(0u64));
    let copies: Vec<SharedCounted<ExclusiveCell<u64>>> = (0..10).map(|_| shared.clone()).collect();
    for copy in copies {
        let mut guard = copy.borrow().acquire();
        let v = *guard.get();
        guard.set(v + 1);
    }
    assert_eq!(*shared.borrow().acquire().get(), 10);
    assert_eq!(shared.strong_count(), 1);
}

#[test]
fn fetch_add_reports_before_and_after() {
    let cell = ExclusiveCell::create(41u64);
    assert_eq!(fetch_add(&cell, 1), Ok((41, 42)));
    assert_eq!(*cell.acquire().get(), 42);
}

#[test]
fn fetch_add_that_overflows_leaves_the_value() {
    let cell = ExclusiveCell::create(u64::MAX - 1);
    assert_eq!(fetch_add(&cell, 2), Err(u64::MAX - 1));
    assert_eq!(*cell.acquire().get(), u64::MAX - 1);
}

#[test]
fn fetch_add_up_to_the_largest_value() {
    let cell = ExclusiveCell::create(u64::MAX - 1);
    assert_eq!(fetch_add(&cell, 1), Ok((u64::MAX - 1, u64::MAX)));
}

#[test]
fn replace_returns_the_previous_value() {
    let cell = ExclusiveCell::create(String::from("old"));
    let mut guard = cell.acquire();
    assert_eq!(guard.replace(String::from("new")), "old");
    assert_eq!(guard.get(), "new");
}

#[test]
fn try_acquire_on_a_free_cell_gets_a_guard() {
    let cell = ExclusiveCell::create(5i32);
    let guard = cell.try_acquire();
    assert!(guard.is_some());
    assert_eq!(*guard.unwrap().get(), 5);
}

#[test]
fn try_acquire_on_a_held_cell_returns_no_guard() {
    let shared = SharedCounted::create(ExclusiveCell::create(0u64));
    let other = shared.clone();
    let held = shared.borrow().acquire();
    assert!(other.borrow().try_acquire().is_none());
    assert!(shared.borrow().try_acquire().is_none());
    drop(held);
    assert!(other.borrow().try_acquire().is_some());
}

#[test]
fn dropping_the_guard_releases_the_lock() {
    let cell = ExclusiveCell::create(1u64);
    {
        let mut guard = cell.acquire();
        guard.set(2);
    }
    let guard = cell.try_acquire().unwrap();
    assert_eq!(*guard.get(), 2);
}

#[test]
fn holding_the_lock_leaves_the_count_alone() {
    let shared = SharedCounted::create(ExclusiveCell::create(0u64));
    let copy = shared.clone();
    let guard = shared.borrow().acquire();
    assert_eq!(shared.strong_count(), 2);
    drop(copy);
    assert_eq!(shared.strong_count(), 1);
    drop(guard);
}
