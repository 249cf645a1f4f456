//! The event bus: a bounded multi-producer broadcast channel of block
//! and transaction events. Publishing never blocks and never fails the
//! publisher; a subscriber that falls more than the capacity behind
//! observes a lag and resumes at a later event.

use vstd::prelude::*;
use crate::events::Event;

verus! {

#[verifier::external_type_specification]
#[verifier::external_body]
#[verifier::reject_recursive_types(T)]
pub struct ExSender<T>(tokio::sync::broadcast::Sender<T>);

#[verifier::external_type_specification]
#[verifier::external_body]
#[verifier::reject_recursive_types(T)]
pub struct ExReceiver<T>(tokio::sync::broadcast::Receiver<T>);

/// What one poll of the bus yields.
pub enum BusPoll {
    /// The next event for this subscriber.
    Item(Event),
    /// No event is waiting.
    Empty,
    /// The subscriber fell more than the bus capacity behind: this many
    /// events were dropped for it, and it resumes at a later event.
    Lagged(u64),
    /// The bus side that publishes is gone.
    Closed,
}

/// True when the count is a power of two.
pub open spec fn is_power_of_two(n: nat) -> bool
    decreases n,
{
    if n == 0 {
        false
    } else if n == 1 {
        true
    } else {
        n % 2 == 0 && is_power_of_two(n / 2)
    }
}

/// The bound a bus was created with: how many events it retains before
/// a silent subscriber starts to lag.
pub uninterp spec fn bus_capacity(s: tokio::sync::broadcast::Sender<Event>) -> nat;

/// Relies on tokio::sync::broadcast::channel: a broadcast channel over
/// which every subscriber receives what is published after it
/// subscribed, delivered per subscriber in publish order. The channel
/// rounds its capacity up to the next power of two. A capacity of zero
/// or above usize::MAX/2 is excluded: the call panics there.
#[verifier::external_body]
fn broadcast_channel(capacity: usize) -> (r: (
    tokio::sync::broadcast::Sender<Event>,
    tokio::sync::broadcast::Receiver<Event>,
))
    requires
        0 < capacity <= usize::MAX / 2,
    ensures
        bus_capacity(r.0) >= capacity,
        is_power_of_two(capacity as nat) ==> bus_capacity(r.0) == capacity as nat,
{
    tokio::sync::broadcast::channel(capacity)
}

/// Relies on tokio::sync::broadcast::Sender::send: delivers to every
/// current subscriber without blocking; the count of subscribers it
/// reached comes back, and nothing where there was none.
#[verifier::external_body]
fn broadcast_send(s: &tokio::sync::broadcast::Sender<Event>, ev: Event) -> (delivered: Option<
    usize,
>)
    ensures
        delivered matches Option::Some(n) ==> n >= 1,
{
    match s.send(ev) {
        Ok(n) => Some(n),
        Err(_) => None,
    }
}

/// Relies on tokio::sync::broadcast::Sender::subscribe: a subscriber
/// that receives what is published from this point on.
#[verifier::external_body]
fn broadcast_subscribe(s: &tokio::sync::broadcast::Sender<Event>) -> (r:
    tokio::sync::broadcast::Receiver<Event>)
{
    s.subscribe()
}

/// Relies on tokio::sync::broadcast::Receiver::try_recv: the next
/// unread event, or the reason none is handed out, without waiting.
#[verifier::external_body]
fn broadcast_try_recv(r: &mut tokio::sync::broadcast::Receiver<Event>) -> (p: BusPoll) {
    match r.try_recv() {
        Ok(ev) => BusPoll::Item(ev),
        Err(tokio::sync::broadcast::error::TryRecvError::Empty) => BusPoll::Empty,
        Err(tokio::sync::broadcast::error::TryRecvError::Lagged(n)) => BusPoll::Lagged(n),
        Err(tokio::sync::broadcast::error::TryRecvError::Closed) => BusPoll::Closed,
    }
}

/// The bus the producers publish into, bounded at 512 events.
pub struct EventBus {
    pub sender: tokio::sync::broadcast::Sender<Event>,
}

/// One subscriber's end of the bus.
pub struct BusSubscriber {
    pub receiver: tokio::sync::broadcast::Receiver<Event>,
}

impl EventBus {
    /// A bus with room for exactly 512 events and no subscribers yet.
    pub fn new() -> (r: EventBus)
        ensures
            bus_capacity(r.sender) == 512,
    {
        proof {
            reveal_with_fuel(is_power_of_two, 12);
            assert(is_power_of_two(512));
        }
        let (sender, _first) = broadcast_channel(512);
        EventBus { sender }
    }

    /// Publishes one event to every current subscriber. Never blocks:
    /// the count of subscribers reached comes back, and nothing where
    /// there was none, which is no failure of the publisher.
    pub fn publish(&self, ev: Event) -> (delivered: Option<usize>)
        ensures
            delivered matches Option::Some(n) ==> n >= 1,
    {
        broadcast_send(&self.sender, ev)
    }

    /// A new subscriber, receiving what is published from now on.
    pub fn subscribe(&self) -> (r: BusSubscriber) {
        BusSubscriber { receiver: broadcast_subscribe(&self.sender) }
    }
}

impl BusSubscriber {
    /// Polls for this subscriber's next event without waiting.
    pub fn poll(&mut self) -> (p: BusPoll) {
        broadcast_try_recv(&mut self.receiver)
    }
}

} // verus!
