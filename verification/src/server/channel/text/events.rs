//! The channel actor's two asynchronous collaborators: the broadcast
//! stream that fans events out to subscribers, and the bounded queue
//! that feeds actions to the actor. Both are outside collaborators; this
//! module holds the handles and the trusted contracts the verified core
//! relies on. The asynchronous waits themselves live outside the
//! library: the core uses only the non-blocking operations.

use vstd::prelude::*;

use super::EventModel;
use super::TextChannelAction;
use super::TextChannelEvent;

verus! {

/// Publisher half of a channel's event stream; owned by the channel
/// actor, its single writer. Clones of the handle are used only to
/// subscribe.
#[verifier::external_body]
pub struct EventPublisher {
    inner: tokio::sync::broadcast::Sender<TextChannelEvent>,
}

/// The events the owning actor has published through this handle, in
/// publication order.
pub uninterp spec fn published(p: EventPublisher) -> Seq<EventModel>;

/// Receiving half of a channel's event stream: sees the events published
/// after it was created, in publication order, for as long as it keeps
/// up with the stream's bounded buffer.
#[verifier::external_body]
pub struct EventSubscriber {
    inner: tokio::sync::broadcast::Receiver<TextChannelEvent>,
}

impl EventPublisher {
    /// Relies on tokio's `broadcast::channel`: a fresh event stream with
    /// the given per-subscriber buffer capacity, nothing published yet.
    /// The call panics for a zero capacity or one beyond the runtime's
    /// bound; the requires keeps callers well inside both.
    #[verifier::external_body]
    pub fn new(capacity: usize) -> (p: EventPublisher)
        requires
            1 <= capacity <= 0x1000,
        ensures
            published(p) == Seq::<EventModel>::empty(),
    {
        let (tx, _rx) = tokio::sync::broadcast::channel(capacity);
        EventPublisher { inner: tx }
    }

    /// Relies on tokio's `broadcast::Sender::send`: hands the event to
    /// every current subscriber's buffer, in publication order per
    /// subscriber. Returns how many subscribers there were; with none,
    /// the event goes nowhere.
    #[verifier::external_body]
    pub fn publish(&mut self, event: TextChannelEvent) -> (receivers: usize)
        ensures
            published(*final(self)) == published(*old(self)).push(event@),
    {
        match self.inner.send(event) {
            Ok(n) => n,
            Err(_) => 0,
        }
    }

    /// Relies on tokio's `broadcast::Sender::subscribe`: a fresh
    /// subscriber that will see only events sent after this call.
    #[verifier::external_body]
    pub fn subscribe(&self) -> EventSubscriber {
        EventSubscriber { inner: self.inner.subscribe() }
    }

    /// Relies on `Clone` for tokio's `broadcast::Sender`: another handle
    /// to the same stream, held by channel handles to offer
    /// subscriptions. Nothing is assumed of the clone's publication
    /// history.
    #[verifier::external_body]
    pub fn clone_handle(&self) -> EventPublisher {
        EventPublisher { inner: self.inner.clone() }
    }
}

impl EventSubscriber {
    /// Relies on tokio's `broadcast::Receiver::try_recv`: the next
    /// buffered event for this subscriber, if one is pending; `None`
    /// when the buffer is empty, the stream is closed, or the subscriber
    /// lagged past the bounded buffer.
    #[verifier::external_body]
    pub fn try_next(&mut self) -> Option<TextChannelEvent> {
        self.inner.try_recv().ok()
    }
}

/// Sending half of a channel's bounded action queue. Many producers may
/// hold clones; the queue preserves each producer's submission order.
#[verifier::external_body]
pub struct ActionSender {
    inner: tachyonix::Sender<TextChannelAction>,
}

/// Receiving half of a channel's bounded action queue; owned by the
/// channel actor, which consumes actions in queue order.
#[verifier::external_body]
pub struct ActionReceiver {
    inner: tachyonix::Receiver<TextChannelAction>,
}

/// Why an action could not be enqueued. The rejected action comes back
/// to the caller, so a producer can observe backpressure and react
/// instead of losing the action.
#[derive(Debug)]
pub enum ActionSendError {
    /// The queue is full: backpressure.
    Full(TextChannelAction),
    /// The actor is gone; the queue accepts nothing anymore.
    Closed(TextChannelAction),
}

/// Relies on `tachyonix::channel`: a fresh bounded action queue with the
/// given capacity. The call panics for a zero capacity or one beyond the
/// queue's bound; the requires keeps callers well inside both.
#[verifier::external_body]
pub fn action_queue(capacity: usize) -> (ActionSender, ActionReceiver)
    requires
        1 <= capacity <= 0x1000,
{
    let (tx, rx) = tachyonix::channel(capacity);
    (ActionSender { inner: tx }, ActionReceiver { inner: rx })
}

impl ActionSender {
    /// Relies on tachyonix's `Sender::try_send`: enqueues the action
    /// unless the queue is full or closed; a rejected action comes back
    /// unchanged inside the error.
    #[verifier::external_body]
    pub fn try_send(&self, action: TextChannelAction) -> (r: Result<(), ActionSendError>)
        ensures
            r matches Err(ActionSendError::Full(a)) ==> a == action,
            r matches Err(ActionSendError::Closed(a)) ==> a == action,
    {
        match self.inner.try_send(action) {
            Ok(()) => Ok(()),
            Err(tachyonix::TrySendError::Full(a)) => Err(ActionSendError::Full(a)),
            Err(tachyonix::TrySendError::Closed(a)) => Err(ActionSendError::Closed(a)),
        }
    }

    /// Relies on `Clone` for tachyonix's `Sender`: another producer
    /// handle to the same queue.
    #[verifier::external_body]
    pub fn clone_handle(&self) -> ActionSender {
        ActionSender { inner: self.inner.clone() }
    }
}

/// What one poll of the action queue found.
#[derive(Debug)]
pub enum ActionPoll {
    /// The next queued action, in submission order.
    Next(TextChannelAction),
    /// Nothing queued right now; senders are still alive.
    Empty,
    /// Every sender is gone and the queue is drained: nothing will ever
    /// arrive again.
    Closed,
}

impl ActionReceiver {
    /// Relies on tachyonix's `Receiver::try_recv`: the next queued
    /// action in submission order, an empty queue, or — once every
    /// sender is dropped and the queue drained — the closed marker that
    /// lets the actor's driving loop terminate.
    #[verifier::external_body]
    pub fn try_next(&mut self) -> ActionPoll {
        match self.inner.try_recv() {
            Ok(action) => ActionPoll::Next(action),
            Err(tachyonix::TryRecvError::Empty) => ActionPoll::Empty,
            Err(tachyonix::TryRecvError::Closed) => ActionPoll::Closed,
        }
    }
}

} // verus!
