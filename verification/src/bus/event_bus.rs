//! Events from the IO tasks to the main loop.

use crate::sync::MpscRing;
use vstd::prelude::*;

verus! {

/// IO event.
#[derive(Clone, Copy, PartialEq, Eq, Debug)]
pub enum IoEvent {
    DiChanged,
    DoChanged,
    AiSampled,
    AoUpdated,
    ResetRequested,
    /// The network assigned an address: address, mask, gateway.
    IpAssigned([u8; 4], [u8; 4], [u8; 4]),
}

/// Capacity of the event queue.
pub const EVENT_CAPACITY: usize = 32;

/// The event queue. When it is full a new event replaces the oldest.
pub struct EventBus {
    queue: MpscRing<IoEvent, 32>,
}

impl View for EventBus {
    type V = Seq<IoEvent>;

    closed spec fn view(&self) -> Seq<IoEvent> {
        self.queue@
    }
}

/// The events after `event` was sent.
pub open spec fn events_after(events: Seq<IoEvent>, event: IoEvent) -> Seq<IoEvent> {
    if events.len() < EVENT_CAPACITY {
        events.push(event)
    } else {
        events.drop_first().push(event)
    }
}

impl EventBus {
    pub fn new() -> (r: Self)
        ensures
            r@ == Seq::<IoEvent>::empty(),
    {
        EventBus { queue: MpscRing::new() }
    }
}

/// Sends an event; a full queue loses its oldest one.
pub fn send_event(bus: &mut EventBus, event: IoEvent)
    ensures
        final(bus)@ == events_after(old(bus)@, event),
        old(bus)@.len() <= EVENT_CAPACITY ==> final(bus)@.len() <= EVENT_CAPACITY,
{
    bus.queue.enqueue_drop_oldest(event);
}

/// Takes the oldest event.
pub fn recv_event(bus: &mut EventBus) -> (r: Option<IoEvent>)
    ensures
        r is None <==> old(bus)@.len() == 0,
        r is None ==> final(bus)@ == old(bus)@,
        r is Some ==> r == Some(old(bus)@[0]) && final(bus)@ == old(bus)@.drop_first(),
{
    bus.queue.dequeue()
}

/// Whether an event waits.
pub fn has_event(bus: &EventBus) -> (r: bool)
    ensures
        r == (bus@.len() > 0),
{
    !bus.queue.is_empty()
}

/// Number of waiting events.
pub fn event_count(bus: &EventBus) -> (r: usize)
    ensures
        r == bus@.len(),
{
    bus.queue.len()
}

// ---- Laws ----

/// The queue after the first `n` of some events were sent.
pub open spec fn all_sent(events: Seq<IoEvent>, all: Seq<IoEvent>, n: nat) -> Seq<IoEvent>
    decreases n,
{
    if n == 0 {
        events
    } else {
        events_after(all_sent(events, all, (n - 1) as nat), all[n - 1])
    }
}

/// The latest of some events, as many as the queue holds.
pub open spec fn latest(all: Seq<IoEvent>) -> Seq<IoEvent> {
    if all.len() <= EVENT_CAPACITY {
        all
    } else {
        all.skip(all.len() - EVENT_CAPACITY)
    }
}

proof fn lemma_latest(all: Seq<IoEvent>, n: nat)
    requires
        n <= all.len(),
    ensures
        all_sent(Seq::empty(), all, n) == latest(all.take(n as int)),
    decreases n,
{
    if n > 0 {
        lemma_latest(all, (n - 1) as nat);
        let before = all.take(n - 1);
        assert(all.take(n as int) =~= before.push(all[n - 1]));
        if n - 1 < EVENT_CAPACITY {
            assert(latest(before).push(all[n - 1]) =~= latest(all.take(n as int)));
        } else {
            assert(latest(before).drop_first().push(all[n - 1]) =~= latest(all.take(n as int)));
        }
    } else {
        assert(all.take(0) =~= Seq::empty());
    }
}

/// Without a receiver the queue holds the latest events in the order in which they
/// were sent.
pub proof fn law_queue_holds_the_latest(all: Seq<IoEvent>)
    ensures
        all_sent(Seq::empty(), all, all.len()) == latest(all),
{
    lemma_latest(all, all.len());
    assert(all.take(all.len() as int) =~= all);
}

} // verus!
