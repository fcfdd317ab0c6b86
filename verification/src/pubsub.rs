//! One-to-many fan-out over standard channels.
//!
//! Each subscriber owns the receiving end of an unbounded FIFO channel; a
//! publish hands every registered sender its own clone of the value. The
//! channels themselves are the standard library's; nothing about their
//! contents is modelled here, only the subscriber bookkeeping.

use std::sync::mpsc;
use vstd::prelude::*;

verus! {

#[verifier::external_type_specification]
#[verifier::external_body]
#[verifier::reject_recursive_types(T)]
pub struct ExSender<T>(mpsc::Sender<T>);

#[verifier::external_type_specification]
#[verifier::external_body]
#[verifier::reject_recursive_types(T)]
pub struct ExReceiver<T>(mpsc::Receiver<T>);

/// Relies on `std::sync::mpsc::channel`: it returns the two ends of a fresh
/// asynchronous channel.
pub assume_specification<T>[ mpsc::channel::<T> ]() -> (mpsc::Sender<T>, mpsc::Receiver<T>);

/// Relies on `mpsc::Sender::send`: the value is delivered to the channel
/// unless the receiver has disconnected. The result is reduced to a success
/// flag; delivery itself is outside the model.
#[verifier::external_body]
fn channel_send<T>(sender: &mpsc::Sender<T>, value: T) -> (ok: bool) {
    sender.send(value).is_ok()
}

/// A set of single-producer inboxes fed from one source.
#[verifier::reject_recursive_types(T)]
pub struct PubSub<T> {
    pub senders: Vec<mpsc::Sender<T>>,
}

impl<T: Clone> PubSub<T> {
    /// A fan-out with no subscribers yet.
    pub fn new() -> (p: PubSub<T>)
        ensures
            p.senders@.len() == 0,
    {
        PubSub { senders: Vec::new() }
    }

    /// Register one more inbox and hand back its receiving end.
    pub fn subscribe(&mut self) -> (receiver: mpsc::Receiver<T>)
        ensures
            final(self).senders@.len() == old(self).senders@.len() + 1,
    {
        let (tx, rx) = mpsc::channel();
        self.senders.push(tx);
        rx
    }

    /// Send a clone of `data` to every registered inbox. A send to an inbox
    /// whose consumer is gone is dropped without disturbing the others.
    pub fn publish(&self, data: T) {
        let mut idx: usize = 0;
        while idx < self.senders.len()
            invariant
                idx <= self.senders@.len(),
            decreases self.senders@.len() - idx,
        {
            channel_send(&self.senders[idx], data.clone());
            idx = idx + 1;
        }
    }
}

} // verus!
