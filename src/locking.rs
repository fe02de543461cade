//! The locking protocol of an exclusive cell, as a state machine, and a
//! model of the worker pool that drives it.
//!
//! `LockState` is the lock: unlocked, or held by one thread. A worker takes
//! the lock, reads the shared integer, writes it back plus one, and releases
//! the lock, one step at a time; a schedule says which worker moves next,
//! and a worker that tries to take a held lock waits. The guarantees of the
//! protocol are stated over every schedule.
use vstd::prelude::*;

verus! {

/// The lock of one cell.
pub struct LockState {
    holder: Option<u64>,
}

impl View for LockState {
    type V = Option<u64>;

    /// The thread that holds the lock, if any.
    closed spec fn view(&self) -> Option<u64> {
        self.holder
    }
}

impl LockState {
    /// An unlocked lock.
    pub fn new() -> (r: Self)
        ensures
            r@ is None,
    {
        LockState { holder: None }
    }

    /// The thread that holds the lock, if any.
    pub fn holder(&self) -> (r: Option<u64>)
        ensures
            r == self@,
    {
        self.holder
    }

    /// Takes the lock for `thread` if it is free; otherwise returns `false`
    /// at once and changes nothing.
    pub fn try_acquire(&mut self, thread: u64) -> (r: bool)
        ensures
            r == (old(self)@ is None),
            final(self)@ == if r {
                Some(thread)
            } else {
                old(self)@
            },
    {
        if self.holder.is_none() {
            self.holder = Some(thread);
            true
        } else {
            false
        }
    }

    /// `thread` gives the lock back.
    pub fn release(&mut self, thread: u64)
        requires
            old(self)@ == Some(thread),
        ensures
            final(self)@ is None,
    {
        self.holder = None;
    }
}

/// Where a worker stands: waiting for the lock, holding it, having read the
/// value, having written it back, or done (lock released).
pub open spec fn waiting() -> nat {
    0
}

pub open spec fn holding() -> nat {
    1
}

pub open spec fn has_read() -> nat {
    2
}

pub open spec fn has_written() -> nat {
    3
}

pub open spec fn done() -> nat {
    4
}

/// A worker inside its critical section: from taking the lock to releasing it.
pub open spec fn in_critical(phase: nat) -> bool {
    holding() <= phase <= has_written()
}

/// The worker pool: who holds the lock, the shared value, each worker's
/// phase, and the value each worker has read.
pub struct Workers {
    pub holder: Option<nat>,
    pub value: int,
    pub phases: Seq<nat>,
    pub seen: Seq<int>,
}

/// `n` workers, all waiting, around a cell holding `start`.
pub open spec fn initial(n: nat, start: int) -> Workers {
    Workers {
        holder: None,
        value: start,
        phases: Seq::new(n, |i: int| waiting()),
        seen: Seq::new(n, |i: int| 0int),
    }
}

/// The pool after worker `t` is scheduled once. A waiting worker takes the
/// lock if it is free and otherwise stays waiting; a worker that is done,
/// or that does not exist, does nothing.
pub open spec fn step(s: Workers, t: nat) -> Workers {
    if t >= s.phases.len() {
        s
    } else if s.phases[t as int] == waiting() {
        if s.holder is None {
            Workers {
                holder: Some(t),
                value: s.value,
                phases: s.phases.update(t as int, holding()),
                seen: s.seen,
            }
        } else {
            s
        }
    } else if s.phases[t as int] == holding() {
        Workers {
            holder: s.holder,
            value: s.value,
            phases: s.phases.update(t as int, has_read()),
            seen: s.seen.update(t as int, s.value),
        }
    } else if s.phases[t as int] == has_read() {
        Workers {
            holder: s.holder,
            value: s.seen[t as int] + 1,
            phases: s.phases.update(t as int, has_written()),
            seen: s.seen,
        }
    } else if s.phases[t as int] == has_written() {
        Workers {
            holder: None,
            value: s.value,
            phases: s.phases.update(t as int, done()),
            seen: s.seen,
        }
    } else {
        s
    }
}

/// The pool after the workers of `schedule` are scheduled in turn.
pub open spec fn run(s: Workers, schedule: Seq<nat>) -> Workers
    decreases schedule.len(),
{
    if schedule.len() == 0 {
        s
    } else {
        step(run(s, schedule.drop_last()), schedule.last())
    }
}

/// How many workers have written their increment.
pub open spec fn written(phases: Seq<nat>) -> nat
    decreases phases.len(),
{
    if phases.len() == 0 {
        0
    } else {
        written(phases.drop_last()) + if phases.last() >= has_written() {
            1nat
        } else {
            0nat
        }
    }
}

/// Every worker is done.
pub open spec fn all_done(s: Workers) -> bool {
    forall|t: int| 0 <= t < s.phases.len() ==> s.phases[t] == done()
}

/// A consistent pool: a worker is in its critical section exactly when it
/// holds the lock, a worker that has read saw the current value, and the
/// value has grown by one for each worker that wrote.
pub open spec fn workers_wf(s: Workers, start: int) -> bool {
    &&& s.seen.len() == s.phases.len()
    &&& forall|t: int| 0 <= t < s.phases.len() ==> s.phases[t] <= done()
    &&& forall|t: int|
        0 <= t < s.phases.len() ==> (in_critical(s.phases[t]) <==> s.holder == Some(t as nat))
    &&& (s.holder matches Some(o) ==> o < s.phases.len())
    &&& forall|t: int| 0 <= t < s.phases.len() && s.phases[t] == has_read() ==> s.seen[t] == s.value
    &&& s.value == start + written(s.phases)
}

proof fn lemma_written_update(phases: Seq<nat>, t: int, p: nat)
    requires
        0 <= t < phases.len(),
    ensures
        written(phases.update(t, p)) as int == written(phases) as int - (if phases[t]
            >= has_written() {
            1int
        } else {
            0int
        }) + (if p >= has_written() {
            1int
        } else {
            0int
        }),
    decreases phases.len(),
{
    let u = phases.update(t, p);
    assert(u.drop_last() =~= if t == phases.len() - 1 {
        phases.drop_last()
    } else {
        phases.drop_last().update(t, p)
    });
    if t < phases.len() - 1 {
        lemma_written_update(phases.drop_last(), t, p);
    }
}

proof fn lemma_written_bound(phases: Seq<nat>)
    ensures
        written(phases) <= phases.len(),
        (forall|t: int| 0 <= t < phases.len() ==> phases[t] >= has_written()) ==> written(phases)
            == phases.len(),
        (exists|t: int| 0 <= t < phases.len() && phases[t] < has_written()) ==> written(phases)
            < phases.len(),
    decreases phases.len(),
{
    if phases.len() > 0 {
        let d = phases.drop_last();
        lemma_written_bound(d);
        assert(forall|t: int| 0 <= t < d.len() ==> d[t] == phases[t]);
        if exists|t: int| 0 <= t < phases.len() && phases[t] < has_written() {
            let t = choose|t: int| 0 <= t < phases.len() && phases[t] < has_written();
            if t < d.len() {
                assert(d[t] < has_written());
            }
        }
    }
}

proof fn lemma_initial_wf(n: nat, start: int)
    ensures
        workers_wf(initial(n, start), start),
    decreases n,
{
    let s = initial(n, start);
    if n > 0 {
        lemma_initial_wf((n - 1) as nat, start);
        assert(s.phases.drop_last() =~= initial((n - 1) as nat, start).phases);
    } else {
        assert(s.phases =~= Seq::<nat>::empty());
    }
}

proof fn lemma_step_wf(s: Workers, start: int, t: nat)
    requires
        workers_wf(s, start),
    ensures
        workers_wf(step(s, t), start),
        step(s, t).phases.len() == s.phases.len(),
{
    if t < s.phases.len() {
        let p = s.phases[t as int];
        if p == waiting() && s.holder is None {
            lemma_written_update(s.phases, t as int, holding());
        } else if p == holding() {
            lemma_written_update(s.phases, t as int, has_read());
        } else if p == has_read() {
            lemma_written_update(s.phases, t as int, has_written());
        } else if p == has_written() {
            lemma_written_update(s.phases, t as int, done());
        }
    }
}

proof fn lemma_run_wf(n: nat, start: int, schedule: Seq<nat>)
    ensures
        workers_wf(run(initial(n, start), schedule), start),
        run(initial(n, start), schedule).phases.len() == n,
    decreases schedule.len(),
{
    if schedule.len() == 0 {
        lemma_initial_wf(n, start);
    } else {
        lemma_run_wf(n, start, schedule.drop_last());
        lemma_step_wf(run(initial(n, start), schedule.drop_last()), start, schedule.last());
    }
}

/// Under every schedule, no two workers are ever in their critical sections
/// at once, and the one that is holds the lock.
pub proof fn lemma_mutual_exclusion(n: nat, start: int, schedule: Seq<nat>, a: int, b: int)
    requires
        0 <= a < n,
        0 <= b < n,
    ensures
        ({
            let s = run(initial(n, start), schedule);
            in_critical(s.phases[a]) && in_critical(s.phases[b]) ==> a == b
        }),
        ({
            let s = run(initial(n, start), schedule);
            in_critical(s.phases[a]) ==> s.holder == Some(a as nat)
        }),
{
    lemma_run_wf(n, start, schedule);
}

/// Under every schedule, once all `n` workers are done, each has added one:
/// the value is `start + n`, whatever the interleaving.
pub proof fn lemma_serialized_increments(n: nat, start: int, schedule: Seq<nat>)
    ensures
        all_done(run(initial(n, start), schedule)) ==> run(initial(n, start), schedule).value
            == start + n,
{
    lemma_run_wf(n, start, schedule);
    lemma_written_bound(run(initial(n, start), schedule).phases);
}

/// Under every schedule, while some worker is not done, some worker can
/// move on: the pool never deadlocks. And no step sends a worker back or
/// past done, so the steps that change anything are finitely many.
pub proof fn lemma_no_deadlock(n: nat, start: int, schedule: Seq<nat>)
    ensures
        ({
            let s = run(initial(n, start), schedule);
            (exists|t: int| 0 <= t < n && s.phases[t] != done()) ==> exists|t: int|
                0 <= t < n && #[trigger] step(s, t as nat).phases[t] == s.phases[t] + 1
        }),
        ({
            let s = run(initial(n, start), schedule);
            forall|u: nat, t: int|
                0 <= t < n ==> s.phases[t] <= #[trigger] step(s, u).phases[t] <= done()
        }),
{
    lemma_run_wf(n, start, schedule);
    let s = run(initial(n, start), schedule);
    if exists|t: int| 0 <= t < n && s.phases[t] != done() {
        let t = choose|t: int| 0 <= t < n && s.phases[t] != done();
        match s.holder {
            Some(o) => {
                assert(step(s, o).phases[o as int] == s.phases[o as int] + 1);
            },
            None => {
                assert(step(s, t as nat).phases[t] == s.phases[t] + 1);
            },
        }
    }
    assert forall|u: nat, t: int| 0 <= t < n implies s.phases[t] <= #[trigger] step(s, u).phases[t]
        <= done() by {
        lemma_step_wf(s, start, u);
    }
}

/// A schedule of worker numbers, as the model reads it.
pub open spec fn as_workers(schedule: Seq<usize>) -> Seq<nat> {
    schedule.map_values(|t: usize| t as nat)
}

/// The lock's holder as the model names it.
pub open spec fn holder_of(holder: Option<nat>) -> Option<u64> {
    match holder {
        Some(h) => Some(h as u64),
        None => None,
    }
}

/// The executable pool stands for the model's `s`.
spec fn mirrors(s: Workers, lock: LockState, value: u64, phases: Seq<u8>, seen: Seq<u64>) -> bool {
    &&& lock@ == holder_of(s.holder)
    &&& value as int == s.value
    &&& phases.len() == s.phases.len()
    &&& seen.len() == s.seen.len()
    &&& forall|t: int| 0 <= t < phases.len() ==> phases[t] as nat == s.phases[t]
    &&& forall|t: int| 0 <= t < seen.len() ==> seen[t] as int == s.seen[t]
}

/// Runs `n` workers around a cell holding `start`, scheduling them in the
/// order that `schedule` gives (numbers of no worker are skipped). Returns
/// the final value and whether every worker is done.
pub fn simulate(n: usize, start: u64, schedule: &Vec<usize>) -> (r: (u64, bool))
    requires
        start as int + n <= u64::MAX,
    ensures
        r.0 as int == run(initial(n as nat, start as int), as_workers(schedule@)).value,
        r.1 == all_done(run(initial(n as nat, start as int), as_workers(schedule@))),
{
    let ghost sched = as_workers(schedule@);
    let ghost st = start as int;
    let mut lock = LockState::new();
    let mut value: u64 = start;
    let mut phases: Vec<u8> = Vec::new();
    let mut seen: Vec<u64> = Vec::new();
    let mut k: usize = 0;
    while k < n
        invariant
            0 <= k <= n,
            lock@ is None,
            value == start,
            phases.len() == k,
            seen.len() == k,
            forall|t: int| 0 <= t < k ==> phases[t] == 0 && seen[t] == 0,
        decreases n - k,
    {
        phases.push(0);
        seen.push(0);
        k = k + 1;
    }
    proof {
        lemma_run_wf(n as nat, st, sched.take(0));
        assert(sched.take(0) =~= Seq::<nat>::empty());
    }
    let mut i: usize = 0;
    while i < schedule.len()
        invariant
            0 <= i <= schedule.len(),
            sched == as_workers(schedule@),
            st == start as int,
            start as int + n <= u64::MAX,
            workers_wf(run(initial(n as nat, st), sched.take(i as int)), st),
            run(initial(n as nat, st), sched.take(i as int)).phases.len() == n,
            mirrors(run(initial(n as nat, st), sched.take(i as int)), lock, value, phases@, seen@),
        decreases schedule.len() - i,
    {
        let ghost s = run(initial(n as nat, st), sched.take(i as int));
        let t = schedule[i];
        if t < n {
            let p = phases[t];
            if p == 0 {
                if lock.try_acquire(t as u64) {
                    phases.set(t, 1);
                }
            } else if p == 1 {
                seen.set(t, value);
                phases.set(t, 2);
            } else if p == 2 {
                proof {
                    lemma_written_bound(s.phases);
                }
                value = seen[t] + 1;
                phases.set(t, 3);
            } else if p == 3 {
                lock.release(t as u64);
                phases.set(t, 4);
            }
        }
        proof {
            assert(sched.take(i + 1).drop_last() =~= sched.take(i as int));
            lemma_step_wf(s, st, t as nat);
        }
        i = i + 1;
    }
    let ghost last = run(initial(n as nat, st), sched);
    proof {
        assert(sched.take(schedule.len() as int) =~= sched);
    }
    let mut finished = true;
    let mut j: usize = 0;
    while j < n
        invariant
            0 <= j <= n,
            phases.len() == n,
            last.phases.len() == n,
            forall|t: int| 0 <= t < n ==> phases@[t] as nat == last.phases[t],
            finished == forall|t: int| 0 <= t < j ==> phases[t] == 4,
        decreases n - j,
    {
        if phases[j] != 4 {
            finished = false;
        }
        j = j + 1;
    }
    assert(finished == all_done(last));
    (value, finished)
}

} // verus!
