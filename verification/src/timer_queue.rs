//! The queue of pending wake deadlines.
//!
//! Entries are kept by ascending deadline. Entries with the same deadline
//! stay in the order in which they were inserted.

use std::collections::VecDeque;
use vstd::prelude::*;

verus! {

/// One pending wake-up: who waits, and until when.
#[derive(Clone, Copy, Debug, PartialEq, Eq, Structural)]
pub struct Entry {
    /// The logical tick at which the waiter is due.
    pub deadline: u64,
    /// The identity of the waiter, chosen by whoever queued it.
    pub waiter: usize,
}

/// No entry stands before one that is due earlier.
pub open spec fn ascending(entries: Seq<Entry>) -> bool {
    forall|i: int, j: int|
        0 <= i <= j < entries.len() ==> (#[trigger] entries[i]).deadline <= (
        #[trigger] entries[j]).deadline
}

/// How many of the entries are due at `tick` or before.
pub open spec fn due_count(entries: Seq<Entry>, tick: u64) -> nat
    decreases entries.len(),
{
    if entries.len() == 0 {
        0
    } else {
        due_count(entries.drop_last(), tick) + if entries.last().deadline <= tick {
            1nat
        } else {
            0nat
        }
    }
}

/// The entries that are left, in their order, when everything that
/// `waiter` queued is taken out.
pub open spec fn without(entries: Seq<Entry>, waiter: usize) -> Seq<Entry>
    decreases entries.len(),
{
    if entries.len() == 0 {
        entries
    } else if entries.last().waiter == waiter {
        without(entries.drop_last(), waiter)
    } else {
        without(entries.drop_last(), waiter).push(entries.last())
    }
}

/// Whether `waiter` has an entry among these.
pub open spec fn waits(entries: Seq<Entry>, waiter: usize) -> bool {
    exists|i: int| 0 <= i < entries.len() && (#[trigger] entries[i]).waiter == waiter
}

/// In an ascending queue the entries due by `tick` are exactly the first
/// `due_count` ones.
pub proof fn lemma_due_prefix(entries: Seq<Entry>, tick: u64)
    requires
        ascending(entries),
    ensures
        due_count(entries, tick) <= entries.len(),
        forall|i: int| 0 <= i < due_count(entries, tick) ==> (#[trigger] entries[i]).deadline <= tick,
        forall|i: int|
            due_count(entries, tick) <= i < entries.len() ==> (#[trigger] entries[i]).deadline
                > tick,
    decreases entries.len(),
{
    if entries.len() > 0 {
        let front = entries.drop_last();
        assert forall|i: int, j: int| 0 <= i <= j < front.len() implies (#[trigger] front[i]).deadline
            <= (#[trigger] front[j]).deadline by {
            assert(front[i] == entries[i] && front[j] == entries[j]);
        }
        lemma_due_prefix(front, tick);
        let k = due_count(front, tick) as int;
        assert forall|i: int| 0 <= i < front.len() implies front[i] == entries[i] by {}
        if entries.last().deadline <= tick {
            // everything before the last entry is due no later than it
            assert forall|i: int| 0 <= i < entries.len() implies (#[trigger] entries[i]).deadline
                <= tick by {
                assert(entries[i].deadline <= entries[entries.len() - 1].deadline);
            }
            if k < front.len() {
                assert(front[k].deadline > tick);
                assert(entries[k].deadline <= tick);
            }
        }
    }
}

/// The split point of an ascending queue is the number of entries due.
pub proof fn lemma_due_count_is_split(entries: Seq<Entry>, tick: u64, k: int)
    requires
        ascending(entries),
        0 <= k <= entries.len(),
        forall|i: int| 0 <= i < k ==> (#[trigger] entries[i]).deadline <= tick,
        k < entries.len() ==> entries[k].deadline > tick,
    ensures
        due_count(entries, tick) == k,
{
    lemma_due_prefix(entries, tick);
    let c = due_count(entries, tick) as int;
    if c < k {
        assert(entries[c].deadline > tick);
    }
    if k < c {
        assert(entries[k].deadline <= tick);
    }
}

/// What is left after a cancellation was there before, and none of it is the
/// cancelled waiter's.
pub proof fn lemma_without_members(entries: Seq<Entry>, waiter: usize)
    ensures
        without(entries, waiter).len() <= entries.len(),
        forall|i: int|
            0 <= i < without(entries, waiter).len() ==> (#[trigger] without(
                entries,
                waiter,
            )[i]).waiter != waiter && entries.contains(without(entries, waiter)[i]),
    decreases entries.len(),
{
    if entries.len() > 0 {
        let front = entries.drop_last();
        lemma_without_members(front, waiter);
        let kept = without(entries, waiter);
        let kept_front = without(front, waiter);
        assert forall|i: int| 0 <= i < kept.len() implies (#[trigger] kept[i]).waiter != waiter
            && entries.contains(kept[i]) by {
            if i < kept_front.len() {
                assert(kept[i] == kept_front[i]);
                let j = choose|j: int| 0 <= j < front.len() && front[j] == kept_front[i];
                assert(entries[j] == kept[i]);
            } else {
                assert(entries[entries.len() - 1] == kept[i]);
            }
        }
    }
}

/// Taking a waiter's entries out of an ascending queue leaves it ascending;
/// the queue gets shorter exactly when the waiter had an entry in it.
pub proof fn lemma_without_ascending(entries: Seq<Entry>, waiter: usize)
    requires
        ascending(entries),
    ensures
        ascending(without(entries, waiter)),
        !waits(without(entries, waiter), waiter),
        waits(entries, waiter) <==> without(entries, waiter).len() < entries.len(),
        !waits(entries, waiter) ==> without(entries, waiter) == entries,
    decreases entries.len(),
{
    let kept = without(entries, waiter);
    lemma_without_members(entries, waiter);
    if waits(kept, waiter) {
        let i = choose|i: int| 0 <= i < kept.len() && (#[trigger] kept[i]).waiter == waiter;
        assert(kept[i].waiter != waiter);
    }
    if entries.len() > 0 {
        let front = entries.drop_last();
        let last = entries.last();
        assert forall|i: int, j: int| 0 <= i <= j < front.len() implies (#[trigger] front[i]).deadline
            <= (#[trigger] front[j]).deadline by {
            assert(front[i] == entries[i] && front[j] == entries[j]);
        }
        lemma_without_ascending(front, waiter);
        lemma_without_members(front, waiter);
        let kept_front = without(front, waiter);
        assert forall|i: int, j: int| 0 <= i <= j < kept.len() implies (#[trigger] kept[i]).deadline
            <= (#[trigger] kept[j]).deadline by {
            if j < kept_front.len() {
                assert(kept[i] == kept_front[i] && kept[j] == kept_front[j]);
            } else if i < kept_front.len() {
                assert(kept[i] == kept_front[i]);
                let k = choose|k: int| 0 <= k < front.len() && front[k] == kept_front[i];
                assert(entries[k].deadline <= entries[entries.len() - 1].deadline);
            }
        }
        if waits(entries, waiter) && last.waiter != waiter {
            let i = choose|i: int| 0 <= i < entries.len() && (#[trigger] entries[i]).waiter == waiter;
            assert(front[i].waiter == waiter);
        }
        if waits(front, waiter) {
            let i = choose|i: int| 0 <= i < front.len() && (#[trigger] front[i]).waiter == waiter;
            assert(entries[i].waiter == waiter);
        }
        if last.waiter == waiter {
            assert(entries[entries.len() - 1].waiter == waiter);
        }
        if !waits(entries, waiter) {
            assert(kept_front == front);
            assert(kept =~= entries);
        }
    }
}

/// Once a waiter is cancelled, no later delivery hands out an entry of its.
pub proof fn lemma_cancelled_is_not_delivered(entries: Seq<Entry>, waiter: usize, now: u64)
    requires
        ascending(entries),
    ensures
        !waits(without(entries, waiter).take(due_count(without(entries, waiter), now) as int), waiter),
{
    let kept = without(entries, waiter);
    lemma_without_ascending(entries, waiter);
    lemma_due_prefix(kept, now);
    let delivered = kept.take(due_count(kept, now) as int);
    if waits(delivered, waiter) {
        let i = choose|i: int| 0 <= i < delivered.len() && (#[trigger] delivered[i]).waiter == waiter;
        assert(kept[i].waiter == waiter);
    }
}

/// Cancelling a waiter whose entries have all been delivered changes
/// nothing: what is left in the queue holds none of them.
pub proof fn lemma_cancel_after_delivery_changes_nothing(
    entries: Seq<Entry>,
    waiter: usize,
    now: u64,
)
    requires
        ascending(entries),
        forall|i: int|
            0 <= i < entries.len() && (#[trigger] entries[i]).waiter == waiter
                ==> entries[i].deadline <= now,
    ensures
        !waits(entries.skip(due_count(entries, now) as int), waiter),
        without(entries.skip(due_count(entries, now) as int), waiter) == entries.skip(
            due_count(entries, now) as int,
        ),
{
    lemma_due_prefix(entries, now);
    let due = due_count(entries, now) as int;
    let left = entries.skip(due);
    if waits(left, waiter) {
        let i = choose|i: int| 0 <= i < left.len() && (#[trigger] left[i]).waiter == waiter;
        assert(left[i] == entries[i + due]);
        assert(entries[i + due].deadline > now);
    }
    assert forall|i: int, j: int| 0 <= i <= j < left.len() implies (#[trigger] left[i]).deadline
        <= (#[trigger] left[j]).deadline by {
        assert(left[i] == entries[i + due] && left[j] == entries[j + due]);
    }
    lemma_without_ascending(left, waiter);
}

/// The pending wake-ups, earliest deadline first.
pub struct TimerQueue {
    entries: VecDeque<Entry>,
}

impl View for TimerQueue {
    type V = Seq<Entry>;

    /// The entries from the head of the queue to its tail.
    closed spec fn view(&self) -> Seq<Entry> {
        self.entries@
    }
}

impl TimerQueue {
    /// The queue's invariant: its entries are in ascending order of deadline.
    pub open spec fn wf(&self) -> bool {
        ascending(self@)
    }

    /// An empty queue.
    pub fn new() -> (queue: Self)
        ensures
            queue.wf(),
            queue@ == Seq::<Entry>::empty(),
    {
        TimerQueue { entries: VecDeque::new() }
    }

    /// The number of pending entries.
    pub fn len(&self) -> (n: usize)
        ensures
            n == self@.len(),
    {
        self.entries.len()
    }

    /// Whether nothing is pending.
    pub fn is_empty(&self) -> (empty: bool)
        ensures
            empty == (self@.len() == 0),
    {
        self.entries.len() == 0
    }

    /// The entry that is due first, if there is one.
    pub fn peek(&self) -> (head: Option<Entry>)
        ensures
            head == if self@.len() == 0 {
                None
            } else {
                Some(self@[0])
            },
    {
        if self.entries.len() == 0 {
            None
        } else {
            Some(self.entries[0])
        }
    }

    /// Queues `waiter` for `deadline`.
    ///
    /// The entry goes behind every entry that is due at `deadline` or
    /// before, and so in front of every entry that is due later. The
    /// result says whether it became the head of the queue.
    pub fn insert(&mut self, deadline: u64, waiter: usize) -> (head_updated: bool)
        requires
            old(self).wf(),
        ensures
            final(self).wf(),
            final(self)@ == old(self)@.insert(
                due_count(old(self)@, deadline) as int,
                Entry { deadline, waiter },
            ),
            head_updated == (due_count(old(self)@, deadline) == 0),
    {
        let mut at: usize = 0;
        while at < self.entries.len() && self.entries[at].deadline <= deadline
            invariant
                0 <= at <= self.entries@.len(),
                forall|i: int| 0 <= i < at ==> (#[trigger] self.entries@[i]).deadline <= deadline,
            decreases self.entries@.len() - at,
        {
            at += 1;
        }
        proof {
            lemma_due_count_is_split(self.entries@, deadline, at as int);
        }
        let ghost before = self.entries@;
        self.entries.insert(at, Entry { deadline, waiter });
        assert(ascending(self.entries@)) by {
            let after = self.entries@;
            assert forall|i: int, j: int| 0 <= i <= j < after.len() implies (#[trigger] after[i]).deadline
                <= (#[trigger] after[j]).deadline by {
                let a = if i < at {
                    i
                } else {
                    i - 1
                };
                let b = if j < at {
                    j
                } else {
                    j - 1
                };
                if i != at && j != at {
                    assert(after[i] == before[a] && after[j] == before[b]);
                    assert(before[a].deadline <= before[b].deadline);
                } else if i == at && j != at {
                    assert(after[j] == before[b]);
                    assert(before[at as int].deadline <= before[b].deadline);
                } else if i != at && j == at {
                    assert(after[i] == before[a]);
                }
            }
        }
        at == 0
    }

    /// Takes out every entry that `waiter` has queued, and says whether
    /// there was one. The other entries keep their order.
    pub fn cancel(&mut self, waiter: usize) -> (removed: bool)
        requires
            old(self).wf(),
        ensures
            final(self).wf(),
            final(self)@ == without(old(self)@, waiter),
            removed == waits(old(self)@, waiter),
    {
        let ghost before = self.entries@;
        let mut kept: VecDeque<Entry> = VecDeque::new();
        let mut i: usize = 0;
        while i < self.entries.len()
            invariant
                0 <= i <= self.entries@.len(),
                self.entries@ == before,
                kept@ == without(before.take(i as int), waiter),
            decreases self.entries@.len() - i,
        {
            let entry = self.entries[i];
            proof {
                assert(before.take(i + 1).drop_last() =~= before.take(i as int));
                assert(before.take(i + 1).last() == entry);
            }
            if entry.waiter != waiter {
                kept.push_back(entry);
            }
            i += 1;
        }
        proof {
            assert(before.take(i as int) =~= before);
            lemma_without_ascending(before, waiter);
        }
        let removed = kept.len() < self.entries.len();
        self.entries = kept;
        removed
    }

    /// Takes every entry that is due at `now` or before off the head of the
    /// queue and hands them back, earliest first. What is left is due later.
    pub fn pop_due(&mut self, now: u64) -> (delivered: Vec<Entry>)
        requires
            old(self).wf(),
        ensures
            final(self).wf(),
            delivered@ == old(self)@.take(due_count(old(self)@, now) as int),
            final(self)@ == old(self)@.skip(due_count(old(self)@, now) as int),
            ascending(delivered@),
            forall|i: int| 0 <= i < delivered@.len() ==> (#[trigger] delivered@[i]).deadline <= now,
            forall|i: int| 0 <= i < final(self)@.len() ==> (#[trigger] final(self)@[i]).deadline > now,
    {
        let ghost before = self.entries@;
        let mut delivered: Vec<Entry> = Vec::new();
        while self.entries.len() > 0 && self.entries[0].deadline <= now
            invariant
                delivered@ + self.entries@ == before,
                forall|i: int| 0 <= i < delivered@.len() ==> (#[trigger] before[i]).deadline <= now,
            decreases self.entries@.len(),
        {
            if let Some(entry) = self.entries.pop_front() {
                delivered.push(entry);
                proof {
                    assert(delivered@ + self.entries@ =~= before);
                    assert(before[delivered@.len() - 1] == entry);
                }
            }
        }
        proof {
            let count = delivered@.len() as int;
            assert(before.take(count) =~= delivered@);
            assert(before.skip(count) =~= self.entries@);
            if count < before.len() {
                assert(before[count] == self.entries@[0]);
            }
            lemma_due_count_is_split(before, now, count);
            lemma_due_prefix(before, now);
            let after = self.entries@;
            assert forall|i: int, j: int| 0 <= i <= j < after.len() implies (#[trigger] after[i]).deadline
                <= (#[trigger] after[j]).deadline by {
                assert(after[i] == before[i + count] && after[j] == before[j + count]);
            }
            assert forall|i: int| 0 <= i < after.len() implies (#[trigger] after[i]).deadline
                > now by {
                assert(after[i] == before[i + count]);
            }
            assert forall|i: int| 0 <= i < delivered@.len() implies (#[trigger] delivered@[i]).deadline
                <= now by {
                assert(delivered@[i] == before[i]);
            }
            assert forall|i: int, j: int| 0 <= i <= j < delivered@.len() implies (
            #[trigger] delivered@[i]).deadline <= (#[trigger] delivered@[j]).deadline by {
                assert(delivered@[i] == before[i] && delivered@[j] == before[j]);
            }
        }
        delivered
    }
}

} // verus!
