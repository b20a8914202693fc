use vstd::prelude::*;

use crossbeam::queue::SegQueue;

use crate::event::FileChange;

verus! {

#[verifier::external_type_specification]
#[verifier::external_body]
#[verifier::reject_recursive_types(T)]
pub struct ExSegQueue<T>(SegQueue<T>);

/// What a segmented queue of change records holds, head first.
pub uninterp spec fn queued(q: SegQueue<FileChange>) -> Seq<FileChange>;

/// Relies on SegQueue::new: a new queue is empty.
#[verifier::external_body]
fn seg_new() -> (q: SegQueue<FileChange>)
    ensures
        queued(q) == Seq::<FileChange>::empty(),
{
    SegQueue::new()
}

/// Relies on SegQueue::push_mut: the element is appended at the tail.
#[verifier::external_body]
fn seg_push(q: &mut SegQueue<FileChange>, c: FileChange)
    ensures
        queued(*final(q)) == queued(*old(q)).push(c),
{
    q.push_mut(c)
}

/// Relies on SegQueue::pop_mut: `None` on an empty queue, else the head
/// element, which leaves the queue.
#[verifier::external_body]
fn seg_pop(q: &mut SegQueue<FileChange>) -> (r: Option<FileChange>)
    ensures
        queued(*old(q)).len() == 0 ==> r is None && queued(*final(q)) == queued(*old(q)),
        queued(*old(q)).len() > 0 ==> r == Some(queued(*old(q))[0])
            && queued(*final(q)) == queued(*old(q)).drop_first(),
{
    q.pop_mut()
}

/// The first-in, first-out handoff of change records from the watcher to the
/// host's tick.
pub struct ChangeQueue {
    items: SegQueue<FileChange>,
}

impl View for ChangeQueue {
    type V = Seq<FileChange>;

    closed spec fn view(&self) -> Seq<FileChange> {
        queued(self.items)
    }
}

/// The records of a sequence, as views.
pub open spec fn views(s: Seq<FileChange>) -> Seq<(Seq<char>, crate::event::FileEventType)> {
    s.map_values(|c: FileChange| c@)
}

impl ChangeQueue {
    /// An empty queue.
    pub fn new() -> (q: ChangeQueue)
        ensures
            q@ == Seq::<FileChange>::empty(),
    {
        ChangeQueue { items: seg_new() }
    }

    /// Appends one record at the tail.
    pub fn push(&mut self, c: FileChange)
        ensures
            final(self)@ == old(self)@.push(c),
    {
        seg_push(&mut self.items, c);
    }

    /// Appends the records of `batch` at the tail, in order.
    pub fn push_all(&mut self, batch: Vec<FileChange>)
        ensures
            final(self)@ == old(self)@ + batch@,
    {
        let ghost start = self@;
        let mut rest = batch;
        while rest.len() > 0
            invariant
                self@ + rest@ == start + batch@,
            decreases rest.len(),
        {
            let c = rest.remove(0);
            self.push(c);
        }
        assert(self@ =~= start + batch@);
    }

    /// Takes the record at the head, if there is one.
    pub fn pop(&mut self) -> (r: Option<FileChange>)
        ensures
            old(self)@.len() == 0 ==> r is None && final(self)@ == old(self)@,
            old(self)@.len() > 0 ==> r == Some(old(self)@[0]) && final(self)@ == old(self)@.drop_first(),
    {
        seg_pop(&mut self.items)
    }

    /// Takes every record out, head first, and leaves the queue empty.
    pub fn drain(&mut self) -> (r: Vec<FileChange>)
        ensures
            r@ == old(self)@,
            final(self)@.len() == 0,
    {
        let mut out: Vec<FileChange> = Vec::new();
        loop
            invariant
                out@ + self@ == old(self)@,
            decreases self@.len(),
        {
            let ghost before = self@;
            match self.pop() {
                Some(c) => {
                    out.push(c);
                    assert(out@ + self@ =~= old(self)@);
                },
                None => {
                    assert(out@ =~= old(self)@);
                    return out;
                },
            }
        }
    }

    /// Drops every record still queued.
    pub fn clear(&mut self)
        ensures
            final(self)@.len() == 0,
    {
        let _ = self.drain();
    }
}

/// The contents of a queue after `pushes` are appended one by one.
pub open spec fn after_pushes(q: Seq<FileChange>, pushes: Seq<FileChange>) -> Seq<FileChange>
    decreases pushes.len(),
{
    if pushes.len() == 0 {
        q
    } else {
        after_pushes(q, pushes.drop_last()).push(pushes.last())
    }
}

/// Records pushed one at a time after what was queued come out of a drain
/// behind it, in the order they were pushed.
pub proof fn lemma_drain_keeps_push_order(q: Seq<FileChange>, pushes: Seq<FileChange>)
    ensures
        after_pushes(q, pushes) == q + pushes,
    decreases pushes.len(),
{
    if pushes.len() > 0 {
        lemma_drain_keeps_push_order(q, pushes.drop_last());
        assert(q + pushes =~= (q + pushes.drop_last()).push(pushes.last()));
    } else {
        assert(q + pushes =~= q);
    }
}

/// How many entries of `s` are `p`.
pub open spec fn count_of(s: Seq<int>, p: int) -> nat
    decreases s.len(),
{
    if s.len() == 0 {
        0
    } else {
        count_of(s.drop_last(), p) + if s.last() == p {
            1nat
        } else {
            0nat
        }
    }
}

/// The sum of `count_of(s, p)` over the producers `p` below `n`.
pub open spec fn sum_counts(s: Seq<int>, n: int) -> int
    decreases n,
{
    if n <= 0 {
        0
    } else {
        sum_counts(s, n - 1) + count_of(s, n - 1)
    }
}

/// The records in the order in which their pushes took effect, where
/// `schedule[k]` is the producer of the `k`-th push and each producer pushes
/// its own batch front to back.
pub open spec fn interleaving(batches: Seq<Seq<FileChange>>, schedule: Seq<int>) -> Seq<FileChange> {
    Seq::new(
        schedule.len(),
        |k: int| batches[schedule[k]][count_of(schedule.take(k), schedule[k]) as int],
    )
}

proof fn lemma_count_prefix_step(s: Seq<int>, k: int, p: int)
    requires
        0 <= k < s.len(),
    ensures
        count_of(s.take(k + 1), p) == count_of(s.take(k), p) + if s[k] == p {
            1nat
        } else {
            0nat
        },
{
    assert(s.take(k + 1).drop_last() =~= s.take(k));
}

proof fn lemma_count_prefix_grows(s: Seq<int>, k1: int, k2: int, p: int)
    requires
        0 <= k1 < k2 <= s.len(),
        s[k1] == p,
    ensures
        count_of(s.take(k1), p) < count_of(s.take(k2), p),
    decreases k2 - k1,
{
    lemma_count_prefix_step(s, k2 - 1, p);
    if k2 - 1 > k1 {
        lemma_count_prefix_grows(s, k1, k2 - 1, p);
    }
}

proof fn lemma_count_reached(s: Seq<int>, p: int, j: int)
    requires
        0 <= j < count_of(s, p),
    ensures
        exists|k: int| 0 <= k < s.len() && s[k] == p && count_of(s.take(k), p) == j,
    decreases s.len(),
{
    let t = s.drop_last();
    if j < count_of(t, p) {
        lemma_count_reached(t, p, j);
        let k = choose|k: int| 0 <= k < t.len() && t[k] == p && count_of(t.take(k), p) == j;
        assert(t.take(k) =~= s.take(k));
    } else {
        assert(s.take(s.len() - 1) =~= t);
    }
}

proof fn lemma_sum_counts_drop_last(s: Seq<int>, n: int)
    requires
        s.len() > 0,
        n >= 0,
    ensures
        sum_counts(s, n) == sum_counts(s.drop_last(), n) + if 0 <= s.last() < n {
            1int
        } else {
            0int
        },
    decreases n,
{
    if n > 0 {
        lemma_sum_counts_drop_last(s, n - 1);
    }
}

proof fn lemma_sum_counts_is_len(s: Seq<int>, n: int)
    requires
        n >= 0,
        forall|k: int| 0 <= k < s.len() ==> 0 <= #[trigger] s[k] < n,
    ensures
        sum_counts(s, n) == s.len(),
    decreases s.len(),
{
    if s.len() == 0 {
        lemma_sum_counts_zero(s, n);
    } else {
        lemma_sum_counts_drop_last(s, n);
        lemma_sum_counts_is_len(s.drop_last(), n);
    }
}

proof fn lemma_sum_counts_zero(s: Seq<int>, n: int)
    requires
        s.len() == 0,
        n >= 0,
    ensures
        sum_counts(s, n) == 0,
    decreases n,
{
    if n > 0 {
        lemma_sum_counts_zero(s, n - 1);
    }
}

proof fn lemma_sum_counts_uniform(s: Seq<int>, n: int, m: int)
    requires
        n >= 0,
        forall|p: int| 0 <= p < n ==> #[trigger] count_of(s, p) == m,
    ensures
        sum_counts(s, n) == n * m,
    decreases n,
{
    if n > 0 {
        lemma_sum_counts_uniform(s, n - 1, m);
        assert(sum_counts(s, n) == (n - 1) * m + m);
        assert((n - 1) * m + m == n * m) by (nonlinear_arith);
    } else {
        assert(n * m == 0) by (nonlinear_arith)
            requires
                n == 0,
        ;
    }
}

/// The `k`-th push is the `j`-th record of producer `p`.
pub open spec fn pushed_at(batches: Seq<Seq<FileChange>>, schedule: Seq<int>, p: int, j: int, k: int) -> bool {
    &&& 0 <= k < schedule.len()
    &&& schedule[k] == p
    &&& count_of(schedule.take(k), p) == j
    &&& interleaving(batches, schedule)[k] == batches[p][j]
}

/// Some push is the `j`-th record of producer `p`.
pub open spec fn pushed(batches: Seq<Seq<FileChange>>, schedule: Seq<int>, p: int, j: int) -> bool {
    exists|k: int| #[trigger] pushed_at(batches, schedule, p, j, k)
}

/// Producers that each push their own records, in any interleaving, lose
/// and duplicate nothing: a drain after all `n` producers have pushed their
/// `m` records returns `n * m` records, each record of each producer exactly
/// once, and each producer's records in the order it pushed them.
pub proof fn lemma_interleaved_pushes_all_drained(
    batches: Seq<Seq<FileChange>>,
    schedule: Seq<int>,
    m: nat,
)
    requires
        forall|p: int| 0 <= p < batches.len() ==> (#[trigger] batches[p]).len() == m,
        forall|k: int| 0 <= k < schedule.len() ==> 0 <= #[trigger] schedule[k] < batches.len(),
        forall|p: int| 0 <= p < batches.len() ==> #[trigger] count_of(schedule, p) == m,
    ensures
        after_pushes(Seq::empty(), interleaving(batches, schedule)).len() == batches.len() * m,
        forall|p: int, j: int|
            0 <= p < batches.len() && 0 <= j < m ==> #[trigger] pushed(batches, schedule, p, j),
        forall|k1: int, k2: int|
            #![trigger schedule[k1], schedule[k2]]
            0 <= k1 < k2 < schedule.len() && schedule[k1] == schedule[k2] ==> count_of(
                schedule.take(k1),
                schedule[k1],
            ) < count_of(schedule.take(k2), schedule[k2]),
{
    let n = batches.len() as int;
    let out = interleaving(batches, schedule);
    lemma_drain_keeps_push_order(Seq::empty(), out);
    assert(Seq::<FileChange>::empty() + out =~= out);
    lemma_sum_counts_is_len(schedule, n);
    lemma_sum_counts_uniform(schedule, n, m as int);
    assert forall|p: int, j: int| 0 <= p < n && 0 <= j < m implies #[trigger] pushed(
        batches,
        schedule,
        p,
        j,
    ) by {
        lemma_count_reached(schedule, p, j);
        let k = choose|k: int| 0 <= k < schedule.len() && schedule[k] == p && count_of(schedule.take(k), p) == j;
        assert(pushed_at(batches, schedule, p, j, k));
    }
    assert forall|k1: int, k2: int|
        #![trigger schedule[k1], schedule[k2]]
        0 <= k1 < k2 < schedule.len() && schedule[k1] == schedule[k2] implies count_of(
            schedule.take(k1),
            schedule[k1],
        ) < count_of(schedule.take(k2), schedule[k2]) by {
        lemma_count_prefix_grows(schedule, k1, k2, schedule[k1]);
    }
}

} // verus!
