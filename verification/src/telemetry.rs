//! The step counter and rolling outcome history a validator exposes while its
//! evaluation loop runs.
//!
//! A [`TelemetryState`] is owned by the single writer.  Readers never see the
//! state itself: they are handed a [`TelemetrySnapshot`], an immutable copy
//! taken between two appends.  History is always reported oldest first.

use vstd::prelude::*;

verus! {

/// The last `capacity` entries of `history`, oldest first; all of it while
/// it is no longer than `capacity`.
pub open spec fn keep_last(history: Seq<bool>, capacity: nat) -> Seq<bool> {
    if history.len() <= capacity {
        history
    } else {
        history.subrange(history.len() - capacity, history.len() as int)
    }
}

/// Position in the ring of the `offset`-th oldest entry, for a ring of `len`
/// slots whose oldest entry sits at `head`.
pub open spec fn ring_index(head: int, offset: int, len: int) -> int {
    if head + offset < len {
        head + offset
    } else {
        head + offset - len
    }
}

/// What a reader sees of the telemetry at one instant.
#[derive(Clone, Debug)]
pub struct TelemetrySnapshot {
    /// Number of evaluation iterations completed so far.
    pub step: u64,
    /// The most recent outcomes, oldest first.
    pub bits: Vec<bool>,
}

impl TelemetrySnapshot {
    /// A snapshot is consistent for capacity `capacity` when its history has
    /// exactly the length that `step` completed appends leave behind.
    pub open spec fn consistent(&self, capacity: nat) -> bool {
        self.bits@.len() == if self.step <= capacity {
            self.step as nat
        } else {
            capacity
        }
    }
}

/// Step counter and bounded outcome history of a validator.
pub struct TelemetryState {
    step: u64,
    slots: Vec<bool>,
    head: usize,
    capacity: usize,
    history: Ghost<Seq<bool>>,
}

impl TelemetryState {
    /// Every bit appended since creation, oldest first.
    pub closed spec fn history(&self) -> Seq<bool> {
        self.history@
    }

    /// The bound `N` on the reported history.
    pub closed spec fn capacity_spec(&self) -> nat {
        self.capacity as nat
    }

    /// The history a reader is shown: the last `N` appended bits, oldest first.
    pub open spec fn recent(&self) -> Seq<bool> {
        keep_last(self.history(), self.capacity_spec())
    }

    /// Representation invariant: the counter counts the appends, and the ring
    /// holds the most recent of them in order starting at `head`.
    pub closed spec fn wf(&self) -> bool {
        let n = self.slots@.len() as int;
        let total = self.history@.len() as int;
        &&& self.step as int == total
        &&& n <= self.capacity
        &&& n <= total
        &&& n < self.capacity ==> self.head == 0 && n == total
        &&& n == 0 ==> self.head == 0
        &&& n > 0 ==> self.head < n
        &&& forall|i: int|
            0 <= i < n ==> self.slots@[ring_index(self.head as int, i, n)]
                == #[trigger] self.history@[total - n + i]
    }

    /// Whether another append fits the counter.
    pub open spec fn has_room(&self) -> bool {
        self.history().len() < u64::MAX
    }

    /// An empty telemetry state reporting at most `capacity` bits.
    pub fn new(capacity: usize) -> (state: TelemetryState)
        ensures
            state.wf(),
            state.history() == Seq::<bool>::empty(),
            state.capacity_spec() == capacity,
    {
        TelemetryState {
            step: 0,
            slots: Vec::new(),
            head: 0,
            capacity,
            history: Ghost(Seq::empty()),
        }
    }

    /// The bound `N` on the reported history.
    pub fn capacity(&self) -> (n: usize)
        ensures
            n == self.capacity_spec(),
    {
        self.capacity
    }

    /// Number of appends completed so far.
    pub fn current_step(&self) -> (step: u64)
        requires
            self.wf(),
        ensures
            step == self.history().len(),
    {
        self.step
    }

    /// Whether another append fits the counter; `append` may be called
    /// exactly when this holds.
    pub fn can_append(&self) -> (ok: bool)
        requires
            self.wf(),
        ensures
            ok == self.has_room(),
    {
        self.step < u64::MAX
    }

    /// Records the outcome of one completed evaluation iteration: the counter
    /// grows by one and `bit` becomes the newest history entry, the oldest
    /// entry leaving once more than `N` would be reported.
    pub fn append(&mut self, bit: bool)
        requires
            old(self).wf(),
            old(self).has_room(),
        ensures
            final(self).wf(),
            final(self).history() == old(self).history().push(bit),
            final(self).capacity_spec() == old(self).capacity_spec(),
    {
        let ghost before = self.history@;
        let ghost old_slots = self.slots@;
        let ghost old_head = self.head as int;
        let n = self.slots.len();
        self.step = self.step + 1;
        self.history = Ghost(before.push(bit));
        if n < self.capacity {
            self.slots.push(bit);
            assert forall|i: int| 0 <= i < n + 1 implies self.slots@[ring_index(0, i, n + 1)]
                == #[trigger] self.history@[self.history@.len() - (n + 1) + i] by {
                if i < n {
                    assert(old_slots[ring_index(0, i, n as int)] == before[before.len() - n + i]);
                }
            }
        } else if n > 0 {
            let at = self.head;
            self.slots[at] = bit;
            self.head = if at + 1 == n {
                0
            } else {
                at + 1
            };
            assert forall|i: int| 0 <= i < n implies self.slots@[ring_index(
                self.head as int,
                i,
                n as int,
            )] == #[trigger] self.history@[self.history@.len() - n + i] by {
                if i < n - 1 {
                    assert(old_slots[ring_index(old_head, i + 1, n as int)] == before[before.len()
                        - n + (i + 1)]);
                }
            }
        }
    }

    /// The most recent `min(current_step, N)` appended bits, oldest first.
    pub fn last_n_bits(&self) -> (bits: Vec<bool>)
        requires
            self.wf(),
        ensures
            bits@ == self.recent(),
    {
        let n = self.slots.len();
        let mut bits: Vec<bool> = Vec::with_capacity(n);
        let mut i: usize = 0;
        while i < n
            invariant
                self.wf(),
                n == self.slots@.len(),
                i <= n,
                bits@.len() == i,
                forall|j: int| 0 <= j < i ==> bits@[j] == self.recent()[j],
            decreases n - i,
        {
            let at = if i < n - self.head {
                self.head + i
            } else {
                i - (n - self.head)
            };
            assert(at == ring_index(self.head as int, i as int, n as int));
            assert(self.slots@[at as int] == self.history@[self.history@.len() - n + i]);
            bits.push(self.slots[at]);
            i = i + 1;
        }
        assert(bits@ =~= self.recent());
        bits
    }

    /// A copy of the counter and the reported history as they stand after the
    /// latest completed append.
    pub fn snapshot(&self) -> (snap: TelemetrySnapshot)
        requires
            self.wf(),
        ensures
            snap.step == self.history().len(),
            snap.bits@ == self.recent(),
            snap.consistent(self.capacity_spec()),
    {
        TelemetrySnapshot { step: self.current_step(), bits: self.last_n_bits() }
    }
}

/// The history of a state after each entry of `bits` has been appended to
/// it in order, for a state whose history was `start`.
pub open spec fn history_after(start: Seq<bool>, bits: Seq<bool>) -> Seq<bool>
    decreases bits.len(),
{
    if bits.len() == 0 {
        start
    } else {
        history_after(start, bits.drop_last()).push(bits.last())
    }
}

/// Appending one by one is appending all at once.
pub proof fn lemma_history_after(start: Seq<bool>, bits: Seq<bool>)
    ensures
        history_after(start, bits) == start + bits,
    decreases bits.len(),
{
    if bits.len() == 0 {
        assert(start + bits =~= start);
    } else {
        lemma_history_after(start, bits.drop_last());
        assert((start + bits.drop_last()).push(bits.last()) =~= start + bits);
    }
}

/// After `k` appends to a new state the step counter, which is the length of
/// the history, is exactly `k`.
pub proof fn lemma_step_counts_appends(bits: Seq<bool>)
    ensures
        history_after(Seq::empty(), bits).len() == bits.len(),
{
    lemma_history_after(Seq::empty(), bits);
}

/// After `k` appends to a new state of capacity `N` the reported history has
/// `min(k, N)` entries: all the appended bits in order while `k <= N`, and
/// the `N` most recent of them, oldest first, after that.
pub proof fn lemma_reported_history_is_most_recent(bits: Seq<bool>, capacity: nat)
    ensures
        ({
            let reported = keep_last(history_after(Seq::empty(), bits), capacity);
            &&& reported.len() == if bits.len() <= capacity {
                bits.len()
            } else {
                capacity
            }
            &&& bits.len() <= capacity ==> reported == bits
            &&& bits.len() > capacity ==> reported == bits.subrange(
                bits.len() - capacity,
                bits.len() as int,
            )
            &&& forall|i: int|
                0 <= i < reported.len() ==> #[trigger] reported[i] == bits[bits.len()
                    - reported.len() + i]
        }),
{
    lemma_history_after(Seq::empty(), bits);
    assert(Seq::<bool>::empty() + bits =~= bits);
}

/// One more append moves the reported history on by one: the new bit comes
/// last, and the oldest entry leaves exactly when the history was full.
pub proof fn lemma_append_evicts_oldest(history: Seq<bool>, bit: bool, capacity: nat)
    requires
        capacity > 0,
    ensures
        keep_last(history.push(bit), capacity) == if history.len() < capacity {
            keep_last(history, capacity).push(bit)
        } else {
            keep_last(history, capacity).drop_first().push(bit)
        },
{
    if history.len() < capacity {
        assert(keep_last(history.push(bit), capacity) =~= keep_last(history, capacity).push(bit));
    } else {
        assert(keep_last(history.push(bit), capacity) =~= keep_last(
            history,
            capacity,
        ).drop_first().push(bit));
    }
}

} // verus!
