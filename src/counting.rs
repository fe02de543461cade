//! The reference-counting protocol of a control block, as a state machine.
//!
//! `StrongCount` is the count itself, with the two transitions that handles
//! make on it. `BlockState` follows a block through any linearised sequence
//! of clones and drops, keeping the set of live handles beside the count, so
//! that the protocol's guarantees can be stated over every such sequence.
use vstd::prelude::*;

verus! {

/// The count after one more handle is made.
pub open spec fn counted_up(count: nat) -> nat {
    count + 1
}

/// The count after one handle is dropped.
pub open spec fn counted_down(count: nat) -> nat {
    (count - 1) as nat
}

/// Whether dropping a handle when the count is `count` frees the block.
pub open spec fn frees_block(count: nat) -> bool {
    count == 1
}

/// What a decrement tells the handle that made it.
#[derive(PartialEq, Eq, Structural, Clone, Copy, Debug)]
pub enum Release {
    /// Other handles remain; the block stays.
    Kept,
    /// This was the last handle; its owner destroys the value and frees the block.
    Freed,
}

/// The strong count of one control block.
pub struct StrongCount {
    count: usize,
}

impl View for StrongCount {
    type V = nat;

    closed spec fn view(&self) -> nat {
        self.count as nat
    }
}

impl StrongCount {
    /// The count of a newly allocated block: its one handle.
    pub fn new() -> (r: Self)
        ensures
            r@ == 1,
    {
        StrongCount { count: 1 }
    }

    /// The count as observed now.
    pub fn get(&self) -> (r: usize)
        ensures
            r as nat == self@,
    {
        self.count
    }

    /// Whether the block has been freed.
    pub fn is_freed(&self) -> (r: bool)
        ensures
            r == (self@ == 0),
    {
        self.count == 0
    }

    /// A live handle was cloned.
    pub fn increment(&mut self)
        requires
            old(self)@ >= 1,
            old(self)@ < usize::MAX,
        ensures
            final(self)@ == counted_up(old(self)@),
    {
        self.count = self.count + 1;
    }

    /// A live handle was dropped; tells whether it was the last one.
    pub fn decrement(&mut self) -> (r: Release)
        requires
            old(self)@ >= 1,
        ensures
            final(self)@ == counted_down(old(self)@),
            (r == Release::Freed) == frees_block(old(self)@),
    {
        self.count = self.count - 1;
        if self.count == 0 {
            Release::Freed
        } else {
            Release::Kept
        }
    }
}

/// One operation of a handle, named by the handle's number.
pub enum HandleEvent {
    /// The handle is cloned; the clone gets the next unused number.
    Clone(nat),
    /// The handle is dropped.
    Drop(nat),
    /// The handle reads the shared value.
    Read(nat),
}

/// A control block as seen from outside: the handles that are live, the
/// number the next clone gets, the strong count, and how many times the
/// block has been freed.
pub struct BlockState {
    pub live: Set<nat>,
    pub next: nat,
    pub count: nat,
    pub frees: nat,
}

/// A block just created: handle 0 is its only handle.
pub open spec fn created() -> BlockState {
    BlockState { live: set![0], next: 1, count: 1, frees: 0 }
}

/// The handle that makes an event.
pub open spec fn handle_of(e: HandleEvent) -> nat {
    match e {
        HandleEvent::Clone(h) => h,
        HandleEvent::Drop(h) => h,
        HandleEvent::Read(h) => h,
    }
}

/// Only a live handle can be cloned, dropped or read through.
pub open spec fn allowed(s: BlockState, e: HandleEvent) -> bool {
    s.live.contains(handle_of(e))
}

/// The block after one event.
pub open spec fn step(s: BlockState, e: HandleEvent) -> BlockState {
    match e {
        HandleEvent::Clone(h) => BlockState {
            live: s.live.insert(s.next),
            next: s.next + 1,
            count: counted_up(s.count),
            frees: s.frees,
        },
        HandleEvent::Drop(h) => BlockState {
            live: s.live.remove(h),
            next: s.next,
            count: counted_down(s.count),
            frees: if frees_block(s.count) {
                s.frees + 1
            } else {
                s.frees
            },
        },
        HandleEvent::Read(h) => s,
    }
}

/// The block after a sequence of events, in order.
pub open spec fn run(s: BlockState, evs: Seq<HandleEvent>) -> BlockState
    decreases evs.len(),
{
    if evs.len() == 0 {
        s
    } else {
        step(run(s, evs.drop_last()), evs.last())
    }
}

/// Every event of the sequence is made by a handle live at that moment.
pub open spec fn events_ok(s: BlockState, evs: Seq<HandleEvent>) -> bool
    decreases evs.len(),
{
    if evs.len() == 0 {
        true
    } else {
        events_ok(s, evs.drop_last()) && allowed(run(s, evs.drop_last()), evs.last())
    }
}

/// How many clones the sequence holds.
pub open spec fn clones(evs: Seq<HandleEvent>) -> nat
    decreases evs.len(),
{
    if evs.len() == 0 {
        0
    } else {
        clones(evs.drop_last()) + if evs.last() is Clone {
            1nat
        } else {
            0nat
        }
    }
}

/// How many drops the sequence holds.
pub open spec fn drops(evs: Seq<HandleEvent>) -> nat
    decreases evs.len(),
{
    if evs.len() == 0 {
        0
    } else {
        drops(evs.drop_last()) + if evs.last() is Drop {
            1nat
        } else {
            0nat
        }
    }
}

/// A consistent block: the count is the number of live handles, every live
/// handle has a number below `next`, and the block has been freed once if
/// no handle is left, never otherwise.
pub open spec fn block_wf(s: BlockState) -> bool {
    &&& s.live.finite()
    &&& s.count == s.live.len()
    &&& forall|h: nat| s.live.contains(h) ==> h < s.next
    &&& s.frees == if s.live.len() == 0 {
        1nat
    } else {
        0nat
    }
}

proof fn lemma_step_wf(s: BlockState, e: HandleEvent)
    requires
        block_wf(s),
        allowed(s, e),
    ensures
        block_wf(step(s, e)),
        step(s, e).count as int == if e is Clone {
            s.count + 1int
        } else if e is Drop {
            s.count - 1
        } else {
            s.count as int
        },
{
    match e {
        HandleEvent::Clone(h) => {
            assert(!s.live.contains(s.next));
        },
        HandleEvent::Drop(h) => {
            if s.live.len() == 1 {
                assert(s.live.remove(h).len() == 0);
            } else {
                assert(s.live.remove(h).len() > 0);
            }
        },
        HandleEvent::Read(h) => {},
    }
}

/// From any consistent block, a sequence of events made by live handles
/// keeps the block consistent (count equal to the live handles, freed once
/// exactly when none is left), and the count moves by the clones minus the
/// drops.
pub proof fn lemma_run_wf(s: BlockState, evs: Seq<HandleEvent>)
    requires
        block_wf(s),
        events_ok(s, evs),
    ensures
        block_wf(run(s, evs)),
        run(s, evs).count == s.count + clones(evs) - drops(evs),
    decreases evs.len(),
{
    if evs.len() > 0 {
        lemma_run_wf(s, evs.drop_last());
        lemma_step_wf(run(s, evs.drop_last()), evs.last());
    }
}

/// At every point of every sequence of clones and drops made by live
/// handles, the strong count equals the number of live handles.
pub proof fn lemma_count_is_live_handles(evs: Seq<HandleEvent>)
    requires
        events_ok(created(), evs),
    ensures
        run(created(), evs).count == run(created(), evs).live.len(),
{
    lemma_run_wf(created(), evs);
}

/// Clones and drops in equal number, interleaved in any order and made by
/// live handles, leave the strong count where it was.
pub proof fn lemma_balanced_events_keep_count(s: BlockState, evs: Seq<HandleEvent>)
    requires
        block_wf(s),
        events_ok(s, evs),
        clones(evs) == drops(evs),
    ensures
        run(s, evs).count == s.count,
{
    lemma_run_wf(s, evs);
}

/// The block is freed at most once, and exactly once as soon as no handle
/// is left; once freed, no handle remains to clone, drop or read through.
pub proof fn lemma_freed_exactly_once(evs: Seq<HandleEvent>, e: HandleEvent)
    requires
        events_ok(created(), evs),
    ensures
        run(created(), evs).frees <= 1,
        (run(created(), evs).frees == 1) == (run(created(), evs).live.len() == 0),
        run(created(), evs).frees == 1 ==> !allowed(run(created(), evs), e),
{
    lemma_run_wf(created(), evs);
    let s = run(created(), evs);
    if s.live.len() == 0 && s.live.contains(handle_of(e)) {
        vstd::set_lib::lemma_set_empty_equivalency_len(s.live);
    }
}

/// While one handle is kept (never dropped), whatever the other handles do
/// the block is never freed and that handle stays live; with clones and
/// drops in equal number the count also comes back to where it was.
pub proof fn lemma_kept_handle_keeps_block(s: BlockState, evs: Seq<HandleEvent>, h: nat)
    requires
        block_wf(s),
        s.live.contains(h),
        events_ok(s, evs),
        forall|i: int| 0 <= i < evs.len() ==> evs[i] != HandleEvent::Drop(h),
    ensures
        run(s, evs).live.contains(h),
        run(s, evs).frees == 0,
        clones(evs) == drops(evs) ==> run(s, evs).count == s.count,
    decreases evs.len(),
{
    lemma_run_wf(s, evs);
    if evs.len() > 0 {
        let d = evs.drop_last();
        assert forall|i: int| 0 <= i < d.len() implies d[i] != HandleEvent::Drop(h) by {
            assert(d[i] == evs[i]);
        }
        lemma_kept_handle_keeps_block(s, d, h);
        assert(evs.last() == evs[evs.len() - 1]);
    }
    let r = run(s, evs);
    if r.live.len() == 0 {
        vstd::set_lib::lemma_set_empty_equivalency_len(r.live);
    }
}

} // verus!
