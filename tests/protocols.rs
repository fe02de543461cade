use shared_cell::borrowing;
use shared_cell::counting::{Release, StrongCount};
use shared_cell::locking::{simulate, LockState};
use shared_cell::ownership::{self, Wrapped};

#[test]
fn strong_count_starts_at_one() {
    let c = StrongCount::new();
    assert_eq!(c.get(), 1);
    assert!(!c.is_freed());
}

#[test]
fn only_the_last_decrement_frees() {
    let mut c = StrongCount::new();
    c.increment();
    c.increment();
    assert_eq!(c.get(), 3);
    assert_eq!(c.decrement(), Release::Kept);
    assert_eq!(c.decrement(), Release::Kept);
    assert!(!c.is_freed());
    assert_eq!(c.decrement(), Release::Freed);
    assert!(c.is_freed());
    assert_eq!(c.get(), 0);
}

#[test]
fn balanced_clones_and_drops_keep_the_count() {
    let mut c = StrongCount::new();
    for _ in 0..5 {
        c.increment();
    }
    for _ in 0..5 {
        assert_eq!(c.decrement(), Release::Kept);
    }
    assert_eq!(c.get(), 1);
}

#[test]
fn lock_is_taken_once_and_released_by_its_holder() {
    let mut l = LockState::new();
    assert_eq!(l.holder(), None);
    assert!(l.try_acquire(1));
    assert_eq!(l.holder(), Some(1));
    assert!(!l.try_acquire(2));
    assert_eq!(l.holder(), Some(1));
    l.release(1);
    assert_eq!(l.holder(), None);
    assert!(l.try_acquire(2));
    assert_eq!(l.holder(), Some(2));
}

#[test]
fn ten_workers_one_after_another_reach_ten() {
    let mut schedule = Vec::new();
    for t in 0..10usize {
        for _ in 0..4 {
            schedule.push(t);
        }
    }
    assert_eq!(simulate(10, 0, &schedule), (10, true));
}

#[test]
fn ten_workers_round_robin_reach_ten() {
    let mut schedule = Vec::new();
    for _ in 0..40 {
        for t in 0..10usize {
            schedule.push(t);
        }
    }
    assert_eq!(simulate(10, 0, &schedule), (10, true));
}

#[test]
fn interleaved_workers_do_not_lose_an_update() {
    // Worker 1 tries to take the lock between worker 0's read and write.
    let schedule = vec![0, 0, 1, 1, 0, 1, 0, 1, 1, 1, 1];
    assert_eq!(simulate(2, 5, &schedule), (7, true));
}

#[test]
fn unfinished_schedule_is_reported() {
    let schedule = vec![0, 0, 0, 1, 1];
    assert_eq!(simulate(2, 0, &schedule), (1, false));
}

#[test]
fn unknown_workers_are_skipped() {
    let schedule = vec![9, 0, 9, 0, 0, 0, 9];
    assert_eq!(simulate(1, 3, &schedule), (4, true));
}

#[test]
fn no_workers_leave_the_value() {
    assert_eq!(simulate(0, 42, &vec![0, 1, 2]), (42, true));
}

#[test]
fn owned_payload_moves_to_the_other_side() {
    match ownership::f(ownership::Either::A(Wrapped(5))) {
        ownership::Either::B(Wrapped(v)) => assert_eq!(v, 5),
        ownership::Either::A(_) => panic!("stayed on the same side"),
    }
    match ownership::f(ownership::Either::B(Wrapped(6))) {
        ownership::Either::A(Wrapped(v)) => assert_eq!(v, 6),
        ownership::Either::B(_) => panic!("stayed on the same side"),
    }
}

#[test]
fn borrowed_payload_moves_to_the_other_side() {
    let w = Wrapped(5);
    let mut e = borrowing::Either::A(&w);
    borrowing::f(&mut e);
    match e {
        borrowing::Either::B(r) => assert_eq!(r.0, 5),
        borrowing::Either::A(_) => panic!("stayed on the same side"),
    }
}

#[test]
fn assign_through_borrow_repoints_the_target() {
    let x = 10;
    let y = 20;
    let mut a = &x;
    let mut b = &y;
    borrowing::assign_through_borrow(&mut a, &mut b);
    assert_eq!(*b, 10);
    assert!(std::ptr::eq(a, b));
}

#[test]
fn annotated_assign_through_borrow_repoints_the_target() {
    let long = 3;
    let mut a = &long;
    {
        let short = 1;
        let mut b = &short;
        borrowing::annotated_assign_through_borrow(&mut a, &mut b);
        assert_eq!(*b, 3);
        assert!(std::ptr::eq(a, b));
    }
}
