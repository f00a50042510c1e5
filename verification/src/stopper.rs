//! One-shot cooperative stop signal with take-once slots.
//!
//! A `Stopper` owns the two halves of a oneshot channel. Dropping the sender
//! half is the signal: `stop` empties the sender slot, which makes the
//! receiver resolve. `get_receiver` hands the receiver out at most once, so
//! exactly one consumer can await the signal. Repeated `stop` and repeated
//! `get_receiver` are defined no-ops, not errors.

use tokio::sync::oneshot::{channel, Receiver, Sender};
use vstd::prelude::*;

verus! {

#[verifier::external_type_specification]
#[verifier::external_body]
#[verifier::reject_recursive_types(T)]
pub struct ExSender<T>(Sender<T>);

#[verifier::external_type_specification]
#[verifier::external_body]
#[verifier::reject_recursive_types(T)]
pub struct ExReceiver<T>(Receiver<T>);

#[verifier::external_type_specification]
#[verifier::external_body]
pub struct ExRecvError(tokio::sync::oneshot::error::RecvError);

/// Relies on tokio's oneshot channel constructor: it returns the paired
/// sender and receiver halves. Nothing further is assumed of the values.
pub assume_specification<T>[ channel::<T> ]() -> (r: (Sender<T>, Receiver<T>));

pub struct Stopper {
    /// The sender half; dropping it signals the receiver.
    tx: Option<Sender<()>>,
    /// The receiver half, handed out at most once.
    rx: Option<Receiver<()>>,
}

/// Exactly what `stop` does to the state: the sender slot is empty afterwards
/// and the receiver slot is untouched.
pub open spec fn stop_rel(pre: Stopper, post: Stopper) -> bool {
    &&& !post.sender_present()
    &&& post.spec_rx() == pre.spec_rx()
}

/// Exactly what `get_receiver` does: it returns whatever the receiver slot
/// held, leaves that slot empty, and leaves the sender slot untouched.
pub open spec fn get_receiver_rel(pre: Stopper, r: Option<Receiver<()>>, post: Stopper) -> bool {
    &&& r == pre.spec_rx()
    &&& !post.receiver_present()
    &&& post.spec_tx() == pre.spec_tx()
}

impl Stopper {
    pub closed spec fn spec_tx(&self) -> Option<Sender<()>> {
        self.tx
    }

    pub closed spec fn spec_rx(&self) -> Option<Receiver<()>> {
        self.rx
    }

    pub open spec fn sender_present(&self) -> bool {
        self.spec_tx() is Some
    }

    pub open spec fn receiver_present(&self) -> bool {
        self.spec_rx() is Some
    }

    /// A fresh stopper has both slots populated.
    pub fn new() -> (s: Stopper)
        ensures
            s.sender_present(),
            s.receiver_present(),
    {
        let (tx, rx) = channel();
        Stopper { tx: Some(tx), rx: Some(rx) }
    }

    /// Issue the stop signal by dropping the sender half, if it is still
    /// here. A second call finds the slot already empty and changes nothing.
    pub fn stop(&mut self)
        ensures
            stop_rel(*old(self), *final(self)),
    {
        self.tx = None;
    }

    /// Hand out the receiver half: the first call returns it, every later
    /// call returns `None`, so exactly one consumer can await the signal.
    pub fn get_receiver(&mut self) -> (r: Option<Receiver<()>>)
        ensures
            get_receiver_rel(*old(self), r, *final(self)),
    {
        self.rx.take()
    }
}

/// Stopping twice has the same observable effect as stopping once: the state
/// after the second call equals the state after the first.
pub proof fn lemma_stop_idempotent(s0: Stopper, s1: Stopper, s2: Stopper)
    requires
        stop_rel(s0, s1),
        stop_rel(s1, s2),
    ensures
        s2 == s1,
{
}

/// The receiver is yielded exactly once: on a stopper whose receiver slot is
/// populated, the first call returns it and the second returns `None`.
pub proof fn lemma_receiver_taken_once(
    s0: Stopper,
    r1: Option<Receiver<()>>,
    s1: Stopper,
    r2: Option<Receiver<()>>,
    s2: Stopper,
)
    requires
        s0.receiver_present(),
        get_receiver_rel(s0, r1, s1),
        get_receiver_rel(s1, r2, s2),
    ensures
        r1 is Some,
        r2 is None,
{
}

} // verus!
