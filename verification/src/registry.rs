//! The connection registry: which client identifier has which outbound
//! queue.

use std::collections::HashMap;
use tokio::sync::mpsc::UnboundedSender;
use vstd::prelude::*;
use crate::message::WsMessage;

verus! {

broadcast use vstd::std_specs::hash::group_hash_axioms;

/// `tokio::sync::mpsc::UnboundedSender`, held as it is.
#[verifier::external_type_specification]
#[verifier::external_body]
#[verifier::reject_recursive_types(T)]
pub struct ExUnboundedSender<T>(UnboundedSender<T>);

/// The sending half of one connection's queue.
pub type Tx = UnboundedSender<WsMessage>;

/// What became of a message that was submitted for an identifier.
#[derive(Clone, Copy, Debug, PartialEq, Eq)]
pub enum Delivery {
    /// The identifier's queue took the message.
    Queued,
    /// The identifier is registered and its queue is closed: the
    /// connection is going away and the message is lost.
    QueueClosed,
    /// No connection is registered under the identifier.
    NoTunnel,
}

impl Delivery {
    /// What a send attempt on a registered queue amounts to.
    pub fn of_attempt(accepted: bool) -> (delivery: Delivery)
        ensures
            delivery == if accepted {
                Delivery::Queued
            } else {
                Delivery::QueueClosed
            },
    {
        if accepted {
            Delivery::Queued
        } else {
            Delivery::QueueClosed
        }
    }

    /// Whether the message reached no queue.
    pub fn is_miss(&self) -> (miss: bool)
        ensures
            miss == !(*self is Queued),
    {
        match self {
            Delivery::Queued => false,
            Delivery::QueueClosed => true,
            Delivery::NoTunnel => true,
        }
    }
}

/// `tokio::sync::mpsc::UnboundedSender::send`, which never waits. Whether
/// the queue takes the message depends on whether its receiving half is
/// still open, so nothing is stated of the answer.
#[verifier::external_body]
fn enqueue(tx: &Tx, msg: WsMessage) -> (accepted: bool) {
    tx.send(msg).is_ok()
}

/// The registry of live tunnel connections. Readers look up and send
/// through a shared reference; only registering and unregistering need
/// the registry to themselves.
pub struct State {
    pub clients: HashMap<u64, Tx>,
}

impl View for State {
    type V = Map<u64, Tx>;

    open spec fn view(&self) -> Map<u64, Tx> {
        self.clients@
    }
}

impl State {
    /// A registry without connections.
    pub fn new() -> (state: State)
        ensures
            state@ == Map::<u64, Tx>::empty(),
    {
        State { clients: HashMap::new() }
    }

    /// The number of registered connections.
    pub fn len(&self) -> (n: usize)
        ensures
            n == self@.len(),
    {
        self.clients.len()
    }

    /// Registers `tx` under `id`. An entry that was there is overwritten.
    pub fn register(&mut self, id: u64, tx: Tx)
        ensures
            final(self)@ == old(self)@.insert(id, tx),
    {
        self.clients.insert(id, tx);
    }

    /// The queue registered under `id`, if there is one.
    pub fn lookup(&self, id: u64) -> (found: Option<&Tx>)
        ensures
            match found {
                Some(tx) => self@.contains_key(id) && *tx == self@[id],
                None => !self@.contains_key(id),
            },
    {
        self.clients.get(&id)
    }

    /// Removes the entry of `id`; without one, nothing changes.
    pub fn unregister(&mut self, id: u64)
        ensures
            final(self)@ == old(self)@.remove(id),
    {
        self.clients.remove(&id);
    }

    /// Submits `msg` to the queue registered under `to`, without waiting
    /// for anyone to take it from there. With no such queue the message
    /// is dropped.
    pub fn send(&self, to: u64, msg: WsMessage) -> (delivery: Delivery)
        ensures
            delivery is NoTunnel <==> !self@.contains_key(to),
    {
        match self.lookup(to) {
            Some(tx) => Delivery::of_attempt(enqueue(tx, msg)),
            None => Delivery::NoTunnel,
        }
    }
}

} // verus!
