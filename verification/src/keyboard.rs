use vstd::prelude::*;

verus! {

/// Number of handlers that a registry has room for.
pub const HANDLER_SLOTS: usize = 8;

/// The keys that the kernel tells apart; every other key is `Other`.
#[derive(Copy, Clone, Debug, PartialEq, Eq, Structural)]
pub enum KeyCode {
    Backspace,
    ArrowLeft,
    ArrowRight,
    Enter,
    NumpadEnter,
    Other,
}

/// Whether a key went down or up.
#[derive(Copy, Clone, Debug, PartialEq, Eq, Structural)]
pub enum KeyState {
    Up,
    Down,
    SingleShot,
}

/// What a key means once the layout was applied: a character, or the key
/// itself.
#[derive(Copy, Clone, Debug, PartialEq, Eq, Structural)]
pub enum DecodedKey {
    RawKey(KeyCode),
    Unicode(char),
}

/// A key press or release, with what it decodes to.
#[derive(Copy, Clone, Debug, PartialEq, Eq, Structural)]
pub struct KeyEvent {
    pub key_code: KeyCode,
    pub key_state: KeyState,
    pub decoded_key: Option<DecodedKey>,
}

impl KeyEvent {
    /// An event of a key, its state and its meaning.
    pub fn new(key_code: KeyCode, key_state: KeyState, decoded_key: Option<DecodedKey>) -> (event:
        KeyEvent)
        ensures
            event == (KeyEvent { key_code, key_state, decoded_key }),
    {
        KeyEvent { key_code, key_state, decoded_key }
    }

    /// The key.
    pub fn key_code(&self) -> (key_code: KeyCode)
        ensures
            key_code == self.key_code,
    {
        self.key_code
    }

    /// Whether the key went down or up.
    pub fn key_state(&self) -> (key_state: KeyState)
        ensures
            key_state == self.key_state,
    {
        self.key_state
    }

    /// What the key decodes to, if anything.
    pub fn decoded_key(&self) -> (decoded_key: Option<DecodedKey>)
        ensures
            decoded_key == self.decoded_key,
    {
        self.decoded_key
    }
}

/// Why a handler could not be registered.
#[derive(Copy, Clone, Debug, PartialEq, Eq, Structural)]
pub enum RegistryError {
    /// Every slot holds a handler.
    NoAvailableSlot,
}

/// Something that takes key events.
pub trait KeyboardHandler: Sized {
    /// Whether the handler is in a state that its methods keep up.
    spec fn wf(&self) -> bool;

    /// Whether the handler can take this event in its present state.
    spec fn accepts(&self, event: KeyEvent) -> bool;

    /// Whether `after` is the handler once it has taken the event.
    spec fn handles(&self, event: KeyEvent, after: &Self) -> bool;

    /// Whether the handler can take this event in its present state.
    fn can_handle(&self, event: KeyEvent) -> (can: bool)
        requires
            self.wf(),
        ensures
            can == self.accepts(event),
    ;

    /// Takes a key event.
    fn handle_key_event(&mut self, event: KeyEvent)
        requires
            old(self).wf(),
            old(self).accepts(event),
        ensures
            final(self).wf(),
            old(self).handles(event, final(self)),
    ;
}

/// The handlers that key events are dispatched to, each in a slot of its
/// own.
pub struct KeyboardEventRegistry<H: KeyboardHandler> {
    pub handlers: Vec<Option<H>>,
}

/// Place of the first empty slot at or after `from`, or the number of slots.
pub open spec fn first_empty<H>(slots: Seq<Option<H>>, from: int) -> int
    decreases slots.len() - from,
{
    if 0 <= from < slots.len() && slots[from] is Some {
        first_empty(slots, from + 1)
    } else {
        from
    }
}

/// Whether every handler in the slots can take the event.
pub open spec fn all_accept<H: KeyboardHandler>(slots: Seq<Option<H>>, event: KeyEvent) -> bool {
    forall|i: int|
        0 <= i < slots.len() && (#[trigger] slots[i]) is Some ==> slots[i].unwrap().accepts(event)
}

/// Whether `after` holds the handlers of `before` once each has taken the
/// event: the empty slots are still empty.
pub open spec fn dispatched<H: KeyboardHandler>(
    before: Seq<Option<H>>,
    event: KeyEvent,
    after: Seq<Option<H>>,
) -> bool {
    &&& after.len() == before.len()
    &&& forall|i: int|
        0 <= i < before.len() ==> match (#[trigger] before[i]) {
            Some(handler) => after[i] is Some && handler.handles(event, &after[i].unwrap()),
            None => after[i] is None,
        }
}

/// Whether `after` holds the handlers of `before` once the event was
/// offered: taken by all of them, or, where one cannot take it, by none.
pub open spec fn offered<H: KeyboardHandler>(
    before: Seq<Option<H>>,
    event: KeyEvent,
    after: Seq<Option<H>>,
) -> bool {
    if all_accept(before, event) {
        dispatched(before, event, after)
    } else {
        after == before
    }
}

impl<H: KeyboardHandler> KeyboardEventRegistry<H> {
    /// The registry has its eight slots, and its handlers are well formed.
    pub open spec fn wf(&self) -> bool {
        &&& self.handlers@.len() == HANDLER_SLOTS
        &&& forall|i: int|
            0 <= i < self.handlers@.len() && (#[trigger] self.handlers@[i]) is Some
                ==> self.handlers@[i].unwrap().wf()
    }

    /// A registry without handlers.
    pub fn new() -> (registry: Self)
        ensures
            registry.wf(),
            forall|i: int| 0 <= i < HANDLER_SLOTS ==> registry.handlers@[i] is None,
    {
        let mut handlers: Vec<Option<H>> = Vec::new();
        let mut i: usize = 0;
        while i < HANDLER_SLOTS
            invariant
                i <= HANDLER_SLOTS,
                handlers@.len() == i,
                forall|j: int| 0 <= j < i ==> handlers@[j] is None,
            decreases HANDLER_SLOTS - i,
        {
            handlers.push(None);
            i += 1;
        }
        KeyboardEventRegistry { handlers }
    }

    /// Puts a handler into the first empty slot. With no slot empty the
    /// handler is turned away and the registry stays as it is.
    pub fn register(&mut self, handler: H) -> (registered: Result<(), RegistryError>)
        requires
            old(self).wf(),
            handler.wf(),
        ensures
            final(self).wf(),
            registered is Ok <==> first_empty(old(self).handlers@, 0) < HANDLER_SLOTS,
            registered is Ok ==> final(self).handlers@ == old(self).handlers@.update(
                first_empty(old(self).handlers@, 0),
                Some(handler),
            ),
            registered is Err ==> final(self).handlers@ == old(self).handlers@,
    {
        let mut index: usize = 0;
        while index < HANDLER_SLOTS && self.handlers[index].is_some()
            invariant
                index <= HANDLER_SLOTS,
                self.wf(),
                self.handlers@ == old(self).handlers@,
                first_empty(self.handlers@, 0) == first_empty(self.handlers@, index as int),
            decreases HANDLER_SLOTS - index,
        {
            index += 1;
        }
        if index < HANDLER_SLOTS {
            self.handlers[index] = Some(handler);
            Ok(())
        } else {
            Err(RegistryError::NoAvailableSlot)
        }
    }

    /// Whether every registered handler can take the event.
    pub fn can_dispatch(&self, event: KeyEvent) -> (can: bool)
        requires
            self.wf(),
        ensures
            can == all_accept(self.handlers@, event),
    {
        let mut slot: usize = 0;
        while slot < HANDLER_SLOTS
            invariant
                slot <= HANDLER_SLOTS,
                self.wf(),
                forall|i: int|
                    0 <= i < slot && (#[trigger] self.handlers@[i]) is Some
                        ==> self.handlers@[i].unwrap().accepts(event),
            decreases HANDLER_SLOTS - slot,
        {
            match &self.handlers[slot] {
                Some(handler) => {
                    if !handler.can_handle(event) {
                        return false;
                    }
                },
                None => {},
            }
            slot += 1;
        }
        true
    }

    /// Hands an event to every registered handler, in the order of the
    /// slots.
    pub fn dispatch_event(&mut self, event: KeyEvent)
        requires
            old(self).wf(),
            all_accept(old(self).handlers@, event),
        ensures
            final(self).wf(),
            dispatched(old(self).handlers@, event, final(self).handlers@),
    {
        let mut slot: usize = 0;
        while slot < HANDLER_SLOTS
            invariant
                slot <= HANDLER_SLOTS,
                self.wf(),
                old(self).wf(),
                forall|i: int| slot <= i < HANDLER_SLOTS ==> self.handlers@[i] == old(self).handlers@[i],
                all_accept(old(self).handlers@, event),
                forall|i: int|
                    0 <= i < slot ==> match (#[trigger] old(self).handlers@[i]) {
                        Some(handler) => self.handlers@[i] is Some && handler.handles(
                            event,
                            &self.handlers@[i].unwrap(),
                        ),
                        None => self.handlers@[i] is None,
                    },
            decreases HANDLER_SLOTS - slot,
        {
            let mut taken: Option<H> = None;
            std::mem::swap(&mut taken, &mut self.handlers[slot]);
            assert(taken == old(self).handlers@[slot as int]);
            match taken {
                Some(mut handler) => {
                    handler.handle_key_event(event);
                    self.handlers[slot] = Some(handler);
                },
                None => {},
            }
            slot += 1;
        }
    }

    /// Hands an event to the registered handlers if every one of them can
    /// take it, and says whether it did; else the registry stays as it is.
    pub fn try_dispatch_event(&mut self, event: KeyEvent) -> (taken: bool)
        requires
            old(self).wf(),
        ensures
            final(self).wf(),
            taken == all_accept(old(self).handlers@, event),
            offered(old(self).handlers@, event, final(self).handlers@),
    {
        if self.can_dispatch(event) {
            self.dispatch_event(event);
            true
        } else {
            false
        }
    }
}

} // verus!
