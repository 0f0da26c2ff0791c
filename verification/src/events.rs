use vstd::prelude::*;
use std::collections::VecDeque;
use crate::keyboard::{offered, KeyEvent, KeyboardEventRegistry, KeyboardHandler};

verus! {

/// Room that the event queue is made with.
pub const EVENT_QUEUE_CAPACITY: usize = 32;

/// Events that the event thread takes from the queue each time it runs.
pub const EVENTS_PER_TURN: usize = 10;

/// Something that an interrupt handler leaves for the event thread.
#[derive(Copy, Clone, Debug, PartialEq, Eq, Structural)]
pub enum SystemEvent {
    KeyboardEvent(KeyEvent),
}

/// The queue between the interrupt handlers and the event thread.
pub fn new_event_queue() -> (queue: VecDeque<SystemEvent>)
    ensures
        queue@ == Seq::<SystemEvent>::empty(),
{
    VecDeque::with_capacity(EVENT_QUEUE_CAPACITY)
}

/// Number of events that one turn of the event thread takes from a queue
/// of that length.
pub open spec fn turn_length(queued: int) -> int {
    if queued < EVENTS_PER_TURN {
        queued
    } else {
        EVENTS_PER_TURN as int
    }
}

/// Whether `after` holds the handlers of `before` once the event was
/// offered to them.
pub open spec fn event_offered<H: KeyboardHandler>(
    before: Seq<Option<H>>,
    event: SystemEvent,
    after: Seq<Option<H>>,
) -> bool {
    match event {
        SystemEvent::KeyboardEvent(event) => offered(before, event, after),
    }
}

/// Whether `after` holds the handlers of `before` once each event of the
/// sequence was offered to them, the first event first.
pub open spec fn offered_all<H: KeyboardHandler>(
    before: Seq<Option<H>>,
    events: Seq<SystemEvent>,
    after: Seq<Option<H>>,
) -> bool
    decreases events.len(),
{
    if events.len() == 0 {
        after == before
    } else {
        exists|between: Seq<Option<H>>|
            offered_all(before, events.drop_last(), between) && #[trigger] event_offered(
                between,
                events.last(),
                after,
            )
    }
}

/// One turn of the event thread: takes up to ten events from the front of
/// the queue and offers each to the keyboard handlers. Without a registry
/// the events are taken and dropped. Returns how many were taken.
pub fn process_events<H: KeyboardHandler>(
    queue: &mut VecDeque<SystemEvent>,
    registry: &mut Option<KeyboardEventRegistry<H>>,
) -> (taken: usize)
    requires
        (*old(registry)) is Some ==> old(registry).unwrap().wf(),
    ensures
        taken == turn_length(old(queue)@.len() as int),
        final(queue)@ == old(queue)@.subrange(taken as int, old(queue)@.len() as int),
        (*old(registry)) is None ==> (*final(registry)) is None,
        (*old(registry)) is Some ==> (*final(registry)) is Some && final(registry).unwrap().wf()
            && offered_all(
            old(registry).unwrap().handlers@,
            old(queue)@.subrange(0, taken as int),
            final(registry).unwrap().handlers@,
        ),
{
    let mut taken: usize = 0;
    while taken < EVENTS_PER_TURN && queue.len() > 0
        invariant
            taken <= EVENTS_PER_TURN,
            taken <= old(queue)@.len(),
            queue@ == old(queue)@.subrange(taken as int, old(queue)@.len() as int),
            (*old(registry)) is None ==> (*registry) is None,
            (*old(registry)) is Some ==> (*registry) is Some && registry.unwrap().wf() && offered_all(
                old(registry).unwrap().handlers@,
                old(queue)@.subrange(0, taken as int),
                registry.unwrap().handlers@,
            ),
        decreases EVENTS_PER_TURN - taken,
    {
        let ghost between = *registry;
        let event = queue.pop_front();
        match event {
            Some(SystemEvent::KeyboardEvent(event)) => {
                match registry {
                    Some(registry) => {
                        let _ = registry.try_dispatch_event(event);
                    },
                    None => {},
                }
            },
            None => {},
        }
        proof {
            let events = old(queue)@.subrange(0, taken + 1);
            assert(events.drop_last() =~= old(queue)@.subrange(0, taken as int));
            assert(events.last() == old(queue)@[taken as int]);
            assert(queue@ =~= old(queue)@.subrange(taken + 1, old(queue)@.len() as int));
            if (*old(registry)) is Some {
                let mid = between.unwrap().handlers@;
                assert(offered_all(old(registry).unwrap().handlers@, events.drop_last(), mid));
                assert(event_offered(mid, events.last(), registry.unwrap().handlers@));
                assert(offered_all(
                    old(registry).unwrap().handlers@,
                    events,
                    registry.unwrap().handlers@,
                ));
            }
        }
        taken += 1;
    }
    taken
}

} // verus!
