use vstd::prelude::*;

use crate::event::{wire, FileChange, FileEventType};
use crate::normalize::{changes_of, convert_notify_event_to_file_event, RawEvent};
use crate::queue::{views, ChangeQueue};

verus! {

/// The host hook that receives each change.
pub const HOOK_NAME: &'static str = "FileChanged";

/// One invocation of the host hook: its name, then the positional arguments.
#[derive(Clone, Debug)]
pub struct HookCall {
    pub hook: &'static str,
    pub path: String,
    pub event: &'static str,
}

impl View for HookCall {
    type V = (Seq<char>, Seq<char>, Seq<char>);

    open spec fn view(&self) -> (Seq<char>, Seq<char>, Seq<char>) {
        (self.hook@, self.path@, self.event@)
    }
}

/// The hook invocation that delivers one change.
pub open spec fn call_for(c: (Seq<char>, FileEventType)) -> (Seq<char>, Seq<char>, Seq<char>) {
    (HOOK_NAME@, c.0, wire(c.1))
}

/// Normalizes a raw notification and appends its records to the queue, in
/// the order the normalizer gives them.
pub fn ingest(queue: &mut ChangeQueue, event: &RawEvent)
    ensures
        views(final(queue)@) == views(old(queue)@) + changes_of(event@.0, event@.1),
{
    let batch = convert_notify_event_to_file_event(event);
    let ghost b = batch@;
    queue.push_all(batch);
    assert(views(queue@) =~= views(old(queue)@) + views(b));
}

/// The state of one tick: the drained records, how many have been handed to
/// the host, how many of those failed, and whether the outcome of the last
/// one is still to come.
pub struct DispatchState {
    pub batch: Seq<(Seq<char>, FileEventType)>,
    pub next: nat,
    pub failures: nat,
    pub awaiting: bool,
}

/// The state once the next record has been handed out.
pub open spec fn after_call(s: DispatchState) -> DispatchState {
    DispatchState { next: s.next + 1, awaiting: true, ..s }
}

/// The state once the outcome of the last invocation is known. A failure is
/// counted and changes nothing else.
pub open spec fn after_outcome(s: DispatchState, ok: bool) -> DispatchState {
    if s.awaiting {
        DispatchState { failures: if ok { s.failures } else { s.failures + 1 }, awaiting: false, ..s }
    } else {
        s
    }
}

/// The invocations made when each outcome in `outcomes` follows one
/// invocation, until the batch runs out.
pub open spec fn deliveries(s: DispatchState, outcomes: Seq<bool>) -> Seq<(Seq<char>, Seq<char>, Seq<char>)>
    decreases outcomes.len(),
{
    if outcomes.len() == 0 || s.next >= s.batch.len() {
        seq![]
    } else {
        seq![call_for(s.batch[s.next as int])]
            + deliveries(after_outcome(after_call(s), outcomes[0]), outcomes.drop_first())
    }
}

/// One tick's delivery of drained records to the host hook.
pub struct Dispatch {
    batch: Vec<FileChange>,
    next: usize,
    failures: usize,
    awaiting: bool,
}

impl View for Dispatch {
    type V = DispatchState;

    closed spec fn view(&self) -> DispatchState {
        DispatchState {
            batch: views(self.batch@),
            next: self.next as nat,
            failures: self.failures as nat,
            awaiting: self.awaiting,
        }
    }
}

impl Dispatch {
    pub closed spec fn wf(&self) -> bool {
        &&& self.next <= self.batch@.len()
        &&& self.failures + (if self.awaiting { 1int } else { 0int }) <= self.next
    }

    /// Starts a tick. Only where the host can take hook calls is the queue
    /// drained; otherwise the records stay queued for a later tick.
    pub fn begin_tick(queue: &mut ChangeQueue, hook_ready: bool) -> (d: Dispatch)
        ensures
            d.wf(),
            d@.next == 0 && d@.failures == 0 && !d@.awaiting,
            hook_ready ==> d@.batch == views(old(queue)@) && final(queue)@.len() == 0,
            !hook_ready ==> d@.batch.len() == 0 && final(queue)@ == old(queue)@,
    {
        let batch = if hook_ready {
            queue.drain()
        } else {
            Vec::new()
        };
        let d = Dispatch { batch, next: 0, failures: 0, awaiting: false };
        assert(!hook_ready ==> d@.batch =~= Seq::<(Seq<char>, FileEventType)>::empty());
        d
    }

    /// The next hook invocation to make, in drain order; `None` once every
    /// record has been handed out. What happened to earlier invocations
    /// plays no part.
    pub fn next_call(&mut self) -> (r: Option<HookCall>)
        requires
            old(self).wf(),
        ensures
            final(self).wf(),
            old(self)@.next < old(self)@.batch.len() ==> (r matches Some(c) && c@ == call_for(
                old(self)@.batch[old(self)@.next as int],
            ) && final(self)@ == after_call(old(self)@)),
            old(self)@.next >= old(self)@.batch.len() ==> r is None && final(self)@ == old(self)@,
    {
        if self.next < self.batch.len() {
            let c = &self.batch[self.next];
            let call = HookCall { hook: HOOK_NAME, path: c.path.clone(), event: c.event_type.as_str() };
            self.next = self.next + 1;
            self.awaiting = true;
            assert(self@ =~= after_call(old(self)@));
            Some(call)
        } else {
            None
        }
    }

    /// Takes note of how the last invocation went. A failure is counted and
    /// isolated: it does not change which records are still to be delivered.
    pub fn record_outcome(&mut self, ok: bool)
        requires
            old(self).wf(),
        ensures
            final(self).wf(),
            final(self)@ == after_outcome(old(self)@, ok),
    {
        if self.awaiting {
            if !ok {
                self.failures = self.failures + 1;
            }
            self.awaiting = false;
        }
        assert(self@ =~= after_outcome(old(self)@, ok));
    }

    /// How many invocations of this tick have failed so far.
    pub fn failures(&self) -> (r: usize)
        ensures
            r == self@.failures,
    {
        self.failures
    }
}

/// Whatever the outcome of each invocation, the invocations that follow a
/// state are those of the records still to be delivered, in order.
pub proof fn lemma_deliveries_ignore_outcomes(s: DispatchState, outcomes: Seq<bool>)
    requires
        s.next + outcomes.len() <= s.batch.len(),
    ensures
        deliveries(s, outcomes) == s.batch.subrange(
            s.next as int,
            (s.next + outcomes.len()) as int,
        ).map_values(|c: (Seq<char>, FileEventType)| call_for(c)),
    decreases outcomes.len(),
{
    let rest = s.batch.subrange(s.next as int, (s.next + outcomes.len()) as int).map_values(
        |c: (Seq<char>, FileEventType)| call_for(c),
    );
    if outcomes.len() == 0 {
        assert(rest =~= seq![]);
    } else {
        let t = after_outcome(after_call(s), outcomes[0]);
        lemma_deliveries_ignore_outcomes(t, outcomes.drop_first());
        assert(rest =~= seq![call_for(s.batch[s.next as int])] + deliveries(t, outcomes.drop_first()));
    }
}

/// A tick hands every drained record to the hook, in drain order, even where
/// some of the invocations fail.
pub proof fn lemma_failed_hook_does_not_stop_delivery(
    batch: Seq<(Seq<char>, FileEventType)>,
    outcomes: Seq<bool>,
)
    requires
        outcomes.len() == batch.len(),
    ensures
        deliveries(DispatchState { batch, next: 0, failures: 0, awaiting: false }, outcomes)
            == batch.map_values(|c: (Seq<char>, FileEventType)| call_for(c)),
{
    lemma_deliveries_ignore_outcomes(DispatchState { batch, next: 0, failures: 0, awaiting: false }, outcomes);
    assert(batch.subrange(0, batch.len() as int) =~= batch);
}

} // verus!
