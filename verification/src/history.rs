//! The bounded, navigable snapshot history: an ordered sequence of grid
//! snapshots with a cursor, oldest-first eviction at capacity, and
//! frontier extension through the stepper.

use std::collections::VecDeque;

use vstd::prelude::*;

use crate::grid::Grid;
use crate::grid::GridView;
use crate::rules::CellRules;
use crate::rules::Rule;
use crate::step::cell_generation_tick;
use crate::step::spec_tick;
use crate::SimError;

verus! {

/// Mathematical model of the history: the retained snapshots in order
/// (oldest first), the navigation cursor, and the capacity bound.
#[verifier::ext_equal]
pub ghost struct HistoryView {
    pub snapshots: Seq<GridView>,
    pub cursor: nat,
    pub capacity: nat,
}

impl HistoryView {
    /// Standing invariants: never empty, never over capacity, cursor on a
    /// retained snapshot, every retained snapshot a well-formed grid.
    pub open spec fn wf(self) -> bool {
        &&& 1 <= self.snapshots.len() <= self.capacity
        &&& self.cursor < self.snapshots.len()
        &&& forall|i: int| 0 <= i < self.snapshots.len() ==> (#[trigger] self.snapshots[i]).wf()
    }

    /// The newest retained snapshot: the frontier.
    pub open spec fn newest(self) -> GridView {
        self.snapshots.last()
    }

    /// Whether the cursor sits on the frontier, so that advancing it
    /// triggers a new simulation step.
    pub open spec fn at_frontier(self) -> bool {
        self.cursor == self.snapshots.len() - 1
    }
}

/// Appending a snapshot: below capacity it is appended outright; at
/// capacity the oldest snapshot (index 0) is evicted, the rest shift down
/// by one, and the cursor is decremented along with them, clamped at 0.
pub open spec fn spec_push(h: HistoryView, s: GridView) -> HistoryView {
    if h.snapshots.len() < h.capacity {
        HistoryView { snapshots: h.snapshots.push(s), cursor: h.cursor, capacity: h.capacity }
    } else {
        HistoryView {
            snapshots: h.snapshots.subrange(1, h.snapshots.len() as int).push(s),
            cursor: if h.cursor > 0 {
                (h.cursor - 1) as nat
            } else {
                0
            },
            capacity: h.capacity,
        }
    }
}

/// Moving the cursor one snapshot back, clamped at the oldest; never
/// simulates.
pub open spec fn spec_step_backward(h: HistoryView) -> HistoryView {
    HistoryView {
        snapshots: h.snapshots,
        cursor: if h.cursor > 0 {
            (h.cursor - 1) as nat
        } else {
            0
        },
        capacity: h.capacity,
    }
}

/// Moving the cursor one snapshot forward: behind the frontier it only
/// reveals the already-recorded next snapshot; at the frontier a new
/// snapshot is computed from the newest one, pushed (evicting the oldest
/// if at capacity), and the cursor lands on the new frontier.
pub open spec fn spec_step_forward(h: HistoryView, rules: Seq<Rule>) -> HistoryView {
    if !h.at_frontier() && h.cursor + 1 < h.snapshots.len() {
        HistoryView { snapshots: h.snapshots, cursor: (h.cursor + 1) as nat, capacity: h.capacity }
    } else {
        let pushed = spec_push(h, spec_tick(h.newest(), rules));
        HistoryView {
            snapshots: pushed.snapshots,
            cursor: (pushed.snapshots.len() - 1) as nat,
            capacity: h.capacity,
        }
    }
}

/// The bounded snapshot history with its navigation cursor.
pub struct HistoryBuffer {
    snapshots: VecDeque<Grid>,
    cursor: usize,
    capacity: usize,
}

impl View for HistoryBuffer {
    type V = HistoryView;

    closed spec fn view(&self) -> HistoryView {
        HistoryView {
            snapshots: self.snapshots@.map_values(|g: Grid| g@),
            cursor: self.cursor as nat,
            capacity: self.capacity as nat,
        }
    }
}

impl HistoryBuffer {
    /// Starts a history holding the initial snapshot as generation 0,
    /// with the cursor on it. A capacity of zero cannot hold even that
    /// one snapshot and is rejected.
    pub fn new_history(initial: Grid, capacity: usize) -> (r: Result<HistoryBuffer, SimError>)
        requires
            initial@.wf(),
        ensures
            match r {
                Ok(h) => {
                    &&& h@.wf()
                    &&& h@.capacity == capacity
                    &&& h@.cursor == 0
                    &&& h@.snapshots =~= seq![initial@]
                },
                Err(e) => e == SimError::InvalidCapacity && capacity == 0,
            },
            r is Ok <==> capacity >= 1,
    {
        if capacity == 0 {
            return Err(SimError::InvalidCapacity);
        }
        let mut snapshots: VecDeque<Grid> = VecDeque::new();
        snapshots.push_back(initial);
        let h = HistoryBuffer { snapshots, cursor: 0, capacity };
        proof {
            assert(h@.snapshots =~= seq![initial@]);
        }
        Ok(h)
    }

    /// Number of retained snapshots.
    pub fn len(&self) -> (n: usize)
        ensures
            n == self@.snapshots.len(),
    {
        self.snapshots.len()
    }

    /// The capacity bound the history was created with.
    pub fn capacity(&self) -> (c: usize)
        ensures
            c == self@.capacity,
    {
        self.capacity
    }

    /// The cursor's position among the retained snapshots.
    pub fn cursor(&self) -> (c: usize)
        ensures
            c == self@.cursor,
    {
        self.cursor
    }

    /// The snapshot under the cursor. Never fails: the history is never
    /// empty and the cursor always sits on a retained snapshot.
    pub fn current(&self) -> (g: &Grid)
        requires
            self@.wf(),
        ensures
            g@ == self@.snapshots[self@.cursor as int],
            g@.wf(),
    {
        proof {
            assert(self@.snapshots[self@.cursor as int].wf());
        }
        &self.snapshots[self.cursor]
    }

    /// Appends a snapshot, evicting the oldest one if the history is at
    /// capacity (see `spec_push`).
    pub fn push(&mut self, snapshot: Grid)
        requires
            old(self)@.wf(),
            snapshot@.wf(),
        ensures
            final(self)@ == spec_push(old(self)@, snapshot@),
            final(self)@.wf(),
    {
        if self.snapshots.len() < self.capacity {
            self.snapshots.push_back(snapshot);
            proof {
                assert(self@.snapshots =~= old(self)@.snapshots.push(snapshot@));
                assert(self@ =~= spec_push(old(self)@, snapshot@));
            }
        } else {
            self.snapshots.pop_front();
            self.snapshots.push_back(snapshot);
            if self.cursor > 0 {
                self.cursor = self.cursor - 1;
            }
            proof {
                let len = old(self)@.snapshots.len() as int;
                assert(self@.snapshots =~= old(self)@.snapshots.subrange(1, len).push(snapshot@));
                assert(self@ =~= spec_push(old(self)@, snapshot@));
            }
        }
    }

    /// Moves the cursor one snapshot back, clamped at the oldest. Never
    /// simulates and never fails.
    pub fn step_backward(&mut self)
        requires
            old(self)@.wf(),
        ensures
            final(self)@ == spec_step_backward(old(self)@),
            final(self)@.wf(),
    {
        if self.cursor > 0 {
            self.cursor = self.cursor - 1;
        }
    }

    /// Moves the cursor one snapshot forward. Behind the frontier this
    /// only replays the recorded next snapshot; at the frontier it
    /// computes the next generation with the given rules and records it.
    pub fn step_forward(&mut self, rules: &CellRules)
        requires
            old(self)@.wf(),
        ensures
            final(self)@ == spec_step_forward(old(self)@, rules@),
            final(self)@.wf(),
    {
        let len = self.snapshots.len();
        if self.cursor + 1 < len {
            self.cursor = self.cursor + 1;
        } else {
            let next = cell_generation_tick(&self.snapshots[len - 1], rules);
            self.push(next);
            let new_len = self.snapshots.len();
            self.cursor = new_len - 1;
            proof {
                assert(self@ =~= spec_step_forward(old(self)@, rules@));
            }
        }
    }

    /// Puts the cursor on the oldest retained snapshot.
    pub fn jump_to_start(&mut self)
        requires
            old(self)@.wf(),
        ensures
            final(self)@.snapshots == old(self)@.snapshots,
            final(self)@.capacity == old(self)@.capacity,
            final(self)@.cursor == 0,
            final(self)@.wf(),
    {
        self.cursor = 0;
    }

    /// Puts the cursor on the newest retained snapshot (the frontier).
    pub fn jump_to_end(&mut self)
        requires
            old(self)@.wf(),
        ensures
            final(self)@.snapshots == old(self)@.snapshots,
            final(self)@.capacity == old(self)@.capacity,
            final(self)@.cursor == old(self)@.snapshots.len() - 1,
            final(self)@.wf(),
    {
        self.cursor = self.snapshots.len() - 1;
    }
}

/// Pushing preserves every standing invariant — so after any sequence of
/// pushes the history never exceeds its capacity — and what is retained
/// is exactly the most recent snapshots of old-plus-new, in their
/// original relative order.
pub proof fn lemma_push_bounded_and_ordered(h: HistoryView, s: GridView)
    requires
        h.wf(),
        s.wf(),
    ensures
        spec_push(h, s).wf(),
        spec_push(h, s).capacity == h.capacity,
        spec_push(h, s).snapshots.len() <= h.capacity,
        spec_push(h, s).snapshots.len() == if h.snapshots.len() < h.capacity {
            (h.snapshots.len() + 1) as int
        } else {
            h.capacity as int
        },
        ({
            let all = h.snapshots.push(s);
            let keep = spec_push(h, s).snapshots;
            forall|j: int|
                0 <= j < keep.len() ==> keep[j] == all[all.len() - keep.len() + j]
        }),
{
}

/// The cursor after `k` backward steps.
pub open spec fn spec_back_k(h: HistoryView, k: nat) -> HistoryView
    decreases k,
{
    if k == 0 {
        h
    } else {
        spec_step_backward(spec_back_k(h, (k - 1) as nat))
    }
}

/// The state after `k` forward steps.
pub open spec fn spec_forward_k(h: HistoryView, rules: Seq<Rule>, k: nat) -> HistoryView
    decreases k,
{
    if k == 0 {
        h
    } else {
        spec_step_forward(spec_forward_k(h, rules, (k - 1) as nat), rules)
    }
}

/// `k` backward steps, none of them clamped, only move the cursor back by
/// `k` and touch nothing else.
proof fn lemma_back_k(h: HistoryView, k: nat)
    requires
        k <= h.cursor,
    ensures
        spec_back_k(h, k) == (HistoryView {
            snapshots: h.snapshots,
            cursor: (h.cursor - k) as nat,
            capacity: h.capacity,
        }),
    decreases k,
{
    if k > 0 {
        lemma_back_k(h, (k - 1) as nat);
    }
}

/// `k` forward steps that all stay behind the frontier only move the
/// cursor forward by `k`: no simulation occurs and no snapshot changes.
proof fn lemma_forward_k_within(h: HistoryView, rules: Seq<Rule>, k: nat)
    requires
        h.cursor + k < h.snapshots.len(),
    ensures
        spec_forward_k(h, rules, k) == (HistoryView {
            snapshots: h.snapshots,
            cursor: (h.cursor + k) as nat,
            capacity: h.capacity,
        }),
    decreases k,
{
    if k > 0 {
        lemma_forward_k_within(h, rules, (k - 1) as nat);
    }
}

/// Idempotent replay: stepping backward `k` times and then forward `k`
/// times (with no intervening push, and without hitting the backward
/// clamp, i.e. `k <= cursor`) restores the exact history state — same
/// cursor, same snapshots, so `current()` yields the identical snapshot —
/// and no new simulation occurs along the way.
pub proof fn lemma_replay_round_trip(h: HistoryView, rules: Seq<Rule>, k: nat)
    requires
        h.wf(),
        k <= h.cursor,
    ensures
        spec_forward_k(spec_back_k(h, k), rules, k) == h,
        forall|j: nat|
            j <= k ==> #[trigger] spec_forward_k(spec_back_k(h, k), rules, j).snapshots
                == h.snapshots,
{
    lemma_back_k(h, k);
    lemma_forward_k_within(spec_back_k(h, k), rules, k);
    assert forall|j: nat| j <= k implies #[trigger] spec_forward_k(
        spec_back_k(h, k),
        rules,
        j,
    ).snapshots == h.snapshots by {
        lemma_forward_k_within(spec_back_k(h, k), rules, j);
    }
}

/// Clamped cursor arithmetic: moves index `i` by `dir`, clamped into
/// `[0, max]`.
pub fn get_next_skip_index(dir: isize, i: usize, max: usize) -> (r: usize)
    requires
        i <= isize::MAX,
        dir + i <= isize::MAX,
    ensures
        dir + i < 0 ==> r == 0,
        dir + i > max ==> r == max,
        0 <= dir + i <= max ==> r == dir + i,
{
    let tv = dir + (i as isize);
    if tv < 0 {
        0
    } else if (tv as usize) > max {
        max
    } else {
        tv as usize
    }
}

} // verus!
