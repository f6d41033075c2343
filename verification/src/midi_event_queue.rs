use crate::midi_event::MidiEvent;
use crate::timed::{
    due_after, due_at, due_by, is_stable_sort_of, is_time_ordered, lemma_filter_disjoint,
    lemma_filter_keeps_order, lemma_filter_narrower, lemma_filter_of_empty, lemma_filter_push,
    lemma_insert_place, lemma_ordered_splits, lemma_stable_sort_same_items, sort_by_time,
    stable_sort, Timed,
};
use vstd::prelude::*;

verus! {

/// A MIDI event and the sample at which it is due.
#[derive(Clone, Copy, Debug, PartialEq, Eq, Structural)]
pub struct TimedEvent {
    /// The time of the event, in samples.
    pub sample_time: u64,
    /// The event.
    pub event: MidiEvent,
}

impl Timed for TimedEvent {
    open spec fn spec_time(&self) -> u64 {
        self.sample_time
    }

    fn time(&self) -> (t: u64) {
        self.sample_time
    }
}

/// The events of `s` without their times, in the same order.
pub open spec fn events_of(s: Seq<TimedEvent>) -> Seq<MidiEvent> {
    s.map_values(|e: TimedEvent| e.event)
}

/// A queue of MIDI events, each with the sample at which it is due.
///
/// Events are appended in any order. Once sorted, the queue is consumed from
/// its front by non-decreasing times.
pub struct MidiEventQueue {
    events: Vec<TimedEvent>,
    /// Whether the events are known to be in order of time.
    ordered: bool,
}

impl View for MidiEventQueue {
    type V = Seq<TimedEvent>;

    closed spec fn view(&self) -> Seq<TimedEvent> {
        self.events@
    }
}

impl MidiEventQueue {
    #[verifier::type_invariant]
    spec fn well_formed(&self) -> bool {
        self.ordered ==> is_time_ordered(self.events@)
    }

    /// An empty queue.
    pub fn new() -> (queue: Self)
        ensures
            queue@ == Seq::<TimedEvent>::empty(),
    {
        MidiEventQueue { events: Vec::new(), ordered: true }
    }

    /// The number of events that wait in the queue.
    pub fn len(&self) -> (n: usize)
        ensures
            n == self@.len(),
    {
        self.events.len()
    }

    /// Whether no event waits in the queue.
    pub fn is_empty(&self) -> (b: bool)
        ensures
            b == (self@.len() == 0),
    {
        self.events.len() == 0
    }

    /// The event at position `index`.
    pub fn get(&self, index: usize) -> (e: Option<TimedEvent>)
        ensures
            index < self@.len() ==> e == Some(self@[index as int]),
            index >= self@.len() ==> e.is_none(),
    {
        if index < self.events.len() {
            Some(self.events[index])
        } else {
            None
        }
    }

    /// Appends an event that is due at `time`. The queue is not kept in order.
    pub fn enqueue(&mut self, time: u64, event: MidiEvent)
        ensures
            final(self)@ == old(self)@.push(TimedEvent { sample_time: time, event }),
    {
        proof {
            use_type_invariant(&*self);
        }
        let n: usize = self.events.len();
        let ordered = self.ordered && (n == 0 || self.events[n - 1].sample_time <= time);
        let mut events: Vec<TimedEvent> = Vec::new();
        std::mem::swap(&mut events, &mut self.events);
        events.push(TimedEvent { sample_time: time, event });
        self.ordered = ordered;
        std::mem::swap(&mut events, &mut self.events);
    }

    /// Removes every event.
    pub fn clear(&mut self)
        ensures
            final(self)@ == Seq::<TimedEvent>::empty(),
    {
        *self = MidiEventQueue::new();
    }

    /// Puts the events in ascending order of time. Events that share a time
    /// keep the order in which they were enqueued.
    pub fn sort(&mut self)
        ensures
            final(self)@ == sort_by_time(old(self)@),
            is_stable_sort_of(final(self)@, old(self)@),
    {
        let mut events: Vec<TimedEvent> = Vec::new();
        std::mem::swap(&mut events, &mut self.events);
        stable_sort(&mut events);
        self.ordered = true;
        std::mem::swap(&mut events, &mut self.events);
    }

    /// Removes every event that is due at or before `time` and returns them in
    /// the order they had in the queue. The other events stay, in their order.
    pub fn dequeue(&mut self, time: u64) -> (due: Vec<MidiEvent>)
        ensures
            due@ == events_of(old(self)@.filter(due_by::<TimedEvent>(time))),
            final(self)@ == old(self)@.filter(due_after::<TimedEvent>(time)),
    {
        proof {
            use_type_invariant(&*self);
        }
        let mut events: Vec<TimedEvent> = Vec::new();
        std::mem::swap(&mut events, &mut self.events);
        let mut due: Vec<MidiEvent> = Vec::new();
        if self.ordered {
            // The events that are due are the front of the queue.
            let n: usize = events.len();
            let mut k: usize = 0;
            while k < n && events[k].sample_time <= time
                invariant
                    n == events.len(),
                    k <= n,
                    due@ == events_of(events@.subrange(0, k as int)),
                    forall|j: int| 0 <= j < k ==> (#[trigger] events[j]).sample_time <= time,
                decreases n - k,
            {
                due.push(events[k].event);
                proof {
                    assert(due@ =~= events_of(events@.subrange(0, k + 1)));
                }
                k += 1;
            }
            proof {
                assert forall|j: int| k <= j < n implies (#[trigger] events[j]).sample_time > time by {
                    assert(events[k as int].sample_time <= events[j].sample_time);
                }
                lemma_insert_place(events@, k as int, time);
                lemma_ordered_splits(events@, time);
                lemma_filter_keeps_order(events@, due_after::<TimedEvent>(time));
            }
            if k > 0 {
                let rest = events.split_off(k);
                events = rest;
            } else {
                proof {
                    assert(events@.subrange(0, n as int) =~= events@);
                }
            }
            std::mem::swap(&mut events, &mut self.events);
            due
        } else {
            let mut rest: Vec<TimedEvent> = Vec::new();
            let n: usize = events.len();
            let mut i: usize = 0;
            proof {
                assert(events@.subrange(0, 0) =~= Seq::<TimedEvent>::empty());
                lemma_filter_of_empty::<TimedEvent>(due_by::<TimedEvent>(time));
                lemma_filter_of_empty::<TimedEvent>(due_after::<TimedEvent>(time));
                assert(due@ =~= events_of(Seq::<TimedEvent>::empty()));
            }
            while i < n
                invariant
                    n == events.len(),
                    i <= n,
                    due@ == events_of(
                        events@.subrange(0, i as int).filter(due_by::<TimedEvent>(time)),
                    ),
                    rest@ == events@.subrange(0, i as int).filter(due_after::<TimedEvent>(time)),
                decreases n - i,
            {
                let e = events[i];
                proof {
                    let prefix = events@.subrange(0, i as int);
                    assert(events@.subrange(0, i + 1) =~= prefix.push(e));
                    lemma_filter_push(prefix, e, due_by::<TimedEvent>(time));
                    lemma_filter_push(prefix, e, due_after::<TimedEvent>(time));
                    assert(events_of(prefix.filter(due_by::<TimedEvent>(time)).push(e))
                        =~= events_of(prefix.filter(due_by::<TimedEvent>(time))).push(e.event));
                }
                if e.sample_time <= time {
                    due.push(e.event);
                } else {
                    rest.push(e);
                }
                i += 1;
            }
            proof {
                assert(events@.subrange(0, n as int) =~= events@);
            }
            std::mem::swap(&mut rest, &mut self.events);
            due
        }
    }
}

impl Default for MidiEventQueue {
    /// An empty queue.
    fn default() -> (queue: Self)
        ensures
            queue@ == Seq::<TimedEvent>::empty(),
    {
        MidiEventQueue::new()
    }
}

/// The events that a filter by `due_by(time)` keeps of a sorted queue are the
/// enqueued events that are due by `time`.
proof fn lemma_due_are_enqueued(
    enqueued: Seq<TimedEvent>,
    sorted: Seq<TimedEvent>,
    time: u64,
    e: TimedEvent,
)
    requires
        is_stable_sort_of(sorted, enqueued),
    ensures
        sorted.filter(due_by::<TimedEvent>(time)).contains(e) <==> (enqueued.contains(e)
            && e.sample_time <= time),
{
    let early = due_by::<TimedEvent>(time);
    let due = sorted.filter(early);
    lemma_stable_sort_same_items(sorted, enqueued, e);
    if due.contains(e) {
        sorted.lemma_filter_contains_rev(early, e);
        let i = choose|i: int| 0 <= i < due.len() && due[i] == e;
        sorted.lemma_filter_pred(early, i);
    }
    if enqueued.contains(e) && e.sample_time <= time {
        let i = choose|i: int| 0 <= i < sorted.len() && sorted[i] == e;
        sorted.lemma_filter_contains(early, i);
    }
}

/// Of a sorted queue, whatever was enqueued and in whatever order: the events
/// that a dequeue at `time` hands out are exactly the enqueued events that are
/// due by `time`; they come in ascending order of time, those of one time in the
/// order of their enqueuing; they are the front of the sorted queue, which
/// keeps what follows; and a second dequeue at `time` hands out nothing and
/// changes nothing.
pub proof fn law_dequeue_of_sorted(enqueued: Seq<TimedEvent>, sorted: Seq<TimedEvent>, time: u64)
    requires
        is_stable_sort_of(sorted, enqueued),
    ensures
        is_time_ordered(sorted.filter(due_by::<TimedEvent>(time))),
        forall|e: TimedEvent|
            #[trigger] sorted.filter(due_by::<TimedEvent>(time)).contains(e) <==> (
            enqueued.contains(e) && e.sample_time <= time),
        forall|t: u64|
            t <= time ==> #[trigger] sorted.filter(due_by::<TimedEvent>(time)).filter(
                due_at::<TimedEvent>(t),
            ) == enqueued.filter(due_at::<TimedEvent>(t)),
        sorted.filter(due_by::<TimedEvent>(time)).len() <= sorted.len(),
        sorted.filter(due_by::<TimedEvent>(time)) == sorted.subrange(
            0,
            sorted.filter(due_by::<TimedEvent>(time)).len() as int,
        ),
        sorted.filter(due_after::<TimedEvent>(time)) == sorted.subrange(
            sorted.filter(due_by::<TimedEvent>(time)).len() as int,
            sorted.len() as int,
        ),
        sorted.filter(due_after::<TimedEvent>(time)).filter(due_by::<TimedEvent>(time))
            == Seq::<TimedEvent>::empty(),
        sorted.filter(due_after::<TimedEvent>(time)).filter(due_after::<TimedEvent>(time))
            == sorted.filter(due_after::<TimedEvent>(time)),
{
    let early = due_by::<TimedEvent>(time);
    let after = due_after::<TimedEvent>(time);
    let due = sorted.filter(early);
    assert(is_time_ordered(due)) by {
        lemma_filter_keeps_order(sorted, early);
    }
    assert forall|e: TimedEvent| #[trigger] due.contains(e) <==> (enqueued.contains(e)
        && e.sample_time <= time) by {
        lemma_due_are_enqueued(enqueued, sorted, time, e);
    }
    assert forall|t: u64| t <= time implies #[trigger] due.filter(due_at::<TimedEvent>(t))
        == enqueued.filter(due_at::<TimedEvent>(t)) by {
        lemma_filter_narrower(sorted, early, due_at::<TimedEvent>(t));
        assert(sorted.filter(due_at::<TimedEvent>(t)) == enqueued.filter(due_at::<TimedEvent>(t)));
    }
    lemma_ordered_splits(sorted, time);
    assert(sorted.filter(after).filter(early) == Seq::<TimedEvent>::empty()) by {
        lemma_filter_disjoint(sorted, after, early);
    }
    assert(sorted.filter(after).filter(after) == sorted.filter(after)) by {
        lemma_filter_narrower(sorted, after, after);
    }
}

} // verus!
