//! The source of cancellation events.
//!
//! A process has one place at which a handler for interrupts can be
//! registered. The registry stands for that place: it is made once, when the
//! process starts, and handed to whoever registers a handler. A handler
//! queues one event for each interrupt that reaches it; what is done about
//! an event is up to the one who takes it from the queue.

use vstd::prelude::*;

verus! {

/// Something that asks the run to stop.
#[derive(Clone, Copy, Debug, PartialEq, Eq, Structural)]
pub enum SignalEvent {
    /// The user interrupted the process.
    Interrupted,
}

/// Why no handler could be made.
#[derive(Clone, Copy, Debug, PartialEq, Eq, Structural)]
pub enum SignalRegistrationError {
    /// The process has a handler already, and can have one only.
    AlreadyRegistered,
}

/// The one place of a process at which a handler can be registered.
#[derive(Debug)]
pub struct SignalRegistry {
    registered: bool,
}

/// A handler for interrupts, and the queue of the events it has received.
#[derive(Debug)]
pub struct SignalHandler {
    active: bool,
    queue: Vec<SignalEvent>,
}

impl SignalRegistry {
    /// Whether a handler is registered.
    pub closed spec fn is_registered(&self) -> bool {
        self.registered
    }

    /// The registry of a process that has no handler yet.
    pub fn new() -> (registry: Self)
        ensures
            !registry.is_registered(),
    {
        SignalRegistry { registered: false }
    }

    /// Whether a handler is registered.
    pub fn registered(&self) -> (registered: bool)
        ensures
            registered == self.is_registered(),
    {
        self.registered
    }
}

impl SignalHandler {
    /// Whether the handler is registered with the process. One that is not
    /// never receives anything.
    pub closed spec fn is_real(&self) -> bool {
        self.active
    }

    /// The events that wait in the queue, oldest first.
    pub closed spec fn pending(&self) -> Seq<SignalEvent> {
        self.queue@
    }

    /// A handler that is not registered has received nothing.
    #[verifier::type_invariant]
    pub open spec fn quiet_unless_real(&self) -> bool {
        !self.is_real() ==> self.pending().len() == 0
    }

    /// Registers a handler with the process. A process can have one handler
    /// only: where `registry` has one already, this fails and changes
    /// nothing.
    pub fn new(registry: &mut SignalRegistry) -> (handler: Result<Self, SignalRegistrationError>)
        ensures
            registration(*old(registry), *final(registry), handler),
    {
        if registry.registered {
            return Err(SignalRegistrationError::AlreadyRegistered);
        }
        registry.registered = true;
        Ok(SignalHandler { active: true, queue: Vec::new() })
    }

    /// A handler that is not registered and never receives anything, for use
    /// where nothing shall be able to cancel. It needs no registry and takes
    /// no one's place.
    pub fn noop() -> (handler: Self)
        ensures
            !handler.is_real(),
            handler.pending().len() == 0,
    {
        SignalHandler { active: false, queue: Vec::new() }
    }

    /// Whether the handler is registered with the process.
    pub fn is_registered(&self) -> (registered: bool)
        ensures
            registered == self.is_real(),
    {
        self.active
    }

    /// An interrupt reaches the process. A registered handler queues one
    /// `Interrupted`; a handler that is not registered stays as it is.
    pub fn interrupt(&mut self)
        ensures
            final(self).is_real() == old(self).is_real(),
            old(self).is_real() ==> final(self).pending() == old(self).pending().push(
                SignalEvent::Interrupted,
            ),
            !old(self).is_real() ==> final(self).pending() == old(self).pending(),
    {
        proof {
            use_type_invariant(&*self);
        }
        if self.active {
            let mut queue: Vec<SignalEvent> = Vec::new();
            std::mem::swap(&mut queue, &mut self.queue);
            queue.push(SignalEvent::Interrupted);
            self.queue = queue;
        }
    }

    /// Takes the oldest event from the queue, if there is one. A handler
    /// that is not registered never has one.
    pub fn try_recv(&mut self) -> (event: Option<SignalEvent>)
        ensures
            final(self).is_real() == old(self).is_real(),
            !old(self).is_real() ==> event is None,
            old(self).pending().len() == 0 ==> event is None,
            old(self).pending().len() == 0 ==> final(self).pending() == old(self).pending(),
            old(self).pending().len() > 0 ==> event == Some(old(self).pending()[0]),
            old(self).pending().len() > 0 ==> final(self).pending() == old(
                self
            ).pending().drop_first(),
    {
        proof {
            use_type_invariant(&*self);
        }
        if self.queue.len() == 0 {
            return None;
        }
        let mut queue: Vec<SignalEvent> = Vec::new();
        std::mem::swap(&mut queue, &mut self.queue);
        let event = queue.remove(0);
        assert(queue@ =~= old(self).pending().drop_first());
        self.queue = queue;
        Some(event)
    }
}

/// What registering a handler does: with the registry `before`, it leaves
/// the registry `after` and gives `handler`. Where a handler is registered
/// already it fails and changes nothing; else it gives a registered handler
/// with an empty queue, and the registry has a handler from then on.
pub open spec fn registration(
    before: SignalRegistry,
    after: SignalRegistry,
    handler: Result<SignalHandler, SignalRegistrationError>,
) -> bool {
    &&& before.is_registered() ==> handler is Err && after == before
    &&& !before.is_registered() ==> handler is Ok && after.is_registered()
    &&& handler matches Ok(h) ==> h.is_real() && h.pending().len() == 0
}

/// Once a handler has been registered, registering another one fails.
pub proof fn lemma_second_registration_fails(
    start: SignalRegistry,
    between: SignalRegistry,
    first: Result<SignalHandler, SignalRegistrationError>,
    end: SignalRegistry,
    second: Result<SignalHandler, SignalRegistrationError>,
)
    requires
        registration(start, between, first),
        first is Ok,
        registration(between, end, second),
    ensures
        second is Err,
{
}

} // verus!
