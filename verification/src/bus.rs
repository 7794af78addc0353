//! The event bus: where published events go.
//!
//! By default an event is queued on an unbounded channel that consumers
//! drain through [`EventBus::receiver`]. The default can be overridden once:
//! with a callback, which then gets every event, or with nothing, which
//! drops every event. Later overrides change nothing.
//!
//! A callback runs where the event is published, before `send` returns.

use vstd::prelude::*;
use crossbeam_channel::{Receiver, Sender};
use crate::event::GlobalSodKatEvent;

verus! {

/// `crossbeam_channel::Sender`, the sending end of a channel.
#[verifier::external_type_specification]
#[verifier::external_body]
#[verifier::reject_recursive_types(T)]
pub struct ExSender<T>(crossbeam_channel::Sender<T>);

/// `crossbeam_channel::Receiver`, the receiving end of a channel.
#[verifier::external_type_specification]
#[verifier::external_body]
#[verifier::reject_recursive_types(T)]
pub struct ExReceiver<T>(crossbeam_channel::Receiver<T>);

/// Calls `crossbeam_channel::unbounded`, which creates the two ends of a
/// channel that holds any number of messages. Nothing is stated of them.
#[verifier::external_body]
pub(crate) fn open_channel() -> (r: (Sender<GlobalSodKatEvent>, Receiver<GlobalSodKatEvent>)) {
    crossbeam_channel::unbounded()
}

/// Calls `Sender::try_send`, which queues the message without waiting, and
/// drops its result. On a channel made by `unbounded` the message is queued
/// unless every receiver is gone. Nothing is stated of the channel: other
/// threads may hold its ends.
#[verifier::external_body]
pub(crate) fn enqueue(sender: &Sender<GlobalSodKatEvent>, event: GlobalSodKatEvent) {
    let _ = sender.try_send(event);
}

/// What became of a published event.
#[derive(Debug, Clone, Copy, PartialEq, Eq, Structural)]
pub enum Delivery {
    /// It was handed to the queue.
    Queued,
    /// It was dropped: the queue is disabled and no callback is installed.
    Dropped,
    /// It was passed to the installed callback.
    Called,
}

/// A delivery point for events with a write-once override of type `F`.
pub struct EventBus<F: Fn(GlobalSodKatEvent)> {
    sender: Sender<GlobalSodKatEvent>,
    receiver: Receiver<GlobalSodKatEvent>,
    handler: Option<Option<F>>,
}

/// True when `f` may be called with every event.
pub open spec fn takes_every_event<F: Fn(GlobalSodKatEvent)>(f: F) -> bool {
    forall|event: GlobalSodKatEvent| call_requires(f, (event,))
}

impl<F: Fn(GlobalSodKatEvent)> EventBus<F> {
    /// An installed callback may be called with every event.
    #[verifier::type_invariant]
    spec fn callable(self) -> bool {
        self.handler matches Some(Some(f)) ==> takes_every_event(f)
    }

    /// The override: `None` while none was installed, `Some(None)` when the
    /// queue was disabled, `Some(Some(f))` when `f` was installed.
    pub closed spec fn slot(&self) -> Option<Option<F>> {
        self.handler
    }

    /// The receiving end of the queue.
    pub closed spec fn queue(&self) -> Receiver<GlobalSodKatEvent> {
        self.receiver
    }

    /// Where the bus sends what is published.
    pub open spec fn route(&self) -> Delivery {
        match self.slot() {
            Some(Some(_)) => Delivery::Called,
            Some(None) => Delivery::Dropped,
            None => Delivery::Queued,
        }
    }

    /// A bus with an empty queue and no override.
    pub fn new() -> (r: Self)
        ensures
            r.slot() is None,
    {
        let (sender, receiver) = open_channel();
        EventBus { sender, receiver, handler: None }
    }

    /// The handle that consumers poll for queued events, oldest first.
    pub fn receiver(&self) -> (r: &Receiver<GlobalSodKatEvent>)
        ensures
            *r == self.queue(),
    {
        &self.receiver
    }

    /// Installs the override if none was installed before, and says whether
    /// it did. `None` disables the queue without installing a callback.
    pub fn set_event_handler(&mut self, f: Option<F>) -> (installed: bool)
        requires
            f matches Some(g) ==> takes_every_event(g),
        ensures
            installed == (old(self).slot() is None),
            final(self).slot() == if installed {
                Some(f)
            } else {
                old(self).slot()
            },
            final(self).queue() == old(self).queue(),
    {
        proof {
            use_type_invariant(&*self);
        }
        if self.handler.is_some() {
            return false;
        }
        self.handler = Some(f);
        true
    }

    /// Publishes an event: calls the callback with it if one is installed,
    /// drops it if the queue was disabled, else queues it.
    pub fn send(&self, event: GlobalSodKatEvent) -> (r: Delivery)
        ensures
            r == self.route(),
            self.slot() matches Some(Some(f)) ==> call_ensures(f, (event,), ()),
    {
        proof {
            use_type_invariant(self);
        }
        match &self.handler {
            Some(Some(f)) => {
                f(event);
                Delivery::Called
            },
            Some(None) => Delivery::Dropped,
            None => {
                enqueue(&self.sender, event);
                Delivery::Queued
            },
        }
    }
}

} // verus!
