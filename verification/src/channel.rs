//! The `tokio` broadcast channel through which a fetch hands its result to
//! every request that waits for it.
//!
//! Each end is held together with a ghost label that stands for its channel:
//! a new channel gets a label of its own (which one is not stated), and every
//! end made from another end (a weak sender, an upgraded sender, a receiver)
//! carries that end's label, because it reaches the same channel. A send gives
//! back a receipt that records the label of the channel and the value sent; an
//! upgrade that finds no sender gives back a record that the channel is closed.
//! Whether a weak sender can still be upgraded depends on the other tasks that
//! hold the channel's senders, and is not stated.
use tokio::sync::broadcast::{self, Receiver, Sender, WeakSender};
use vstd::prelude::*;

verus! {

#[verifier::external_type_specification]
#[verifier::external_body]
#[verifier::reject_recursive_types(T)]
pub struct ExSender<T>(Sender<T>);

#[verifier::external_type_specification]
#[verifier::external_body]
#[verifier::reject_recursive_types(T)]
pub struct ExWeakSender<T>(WeakSender<T>);

#[verifier::external_type_specification]
#[verifier::external_body]
#[verifier::reject_recursive_types(T)]
pub struct ExReceiver<T>(Receiver<T>);

/// The sending end of a channel.
#[verifier::reject_recursive_types(T)]
pub struct Tx<T> {
    sender: Sender<T>,
    chan: Ghost<int>,
}

/// A weak sending end of a channel, which does not keep the channel open.
#[verifier::reject_recursive_types(T)]
pub struct WeakTx<T> {
    weak: WeakSender<T>,
    chan: Ghost<int>,
}

/// A receiving end of a channel.
#[verifier::reject_recursive_types(T)]
pub struct Rx<T> {
    receiver: Receiver<T>,
    chan: Ghost<int>,
}

/// The record of a failed upgrade: a weak sender of the channel found no
/// sender left, so the channel is closed for good. Only `upgrade` makes one.
pub struct Closed {
    chan: Ghost<int>,
}

impl Closed {
    /// The channel that was found closed.
    pub closed spec fn chan(&self) -> int {
        self.chan@
    }
}

/// The record of a send: the channel it went on and the value sent. Only
/// `publish` makes one.
pub struct Receipt<T> {
    chan: Ghost<int>,
    value: Ghost<T>,
}

impl<T> Tx<T> {
    /// The channel of this end.
    pub closed spec fn chan(&self) -> int {
        self.chan@
    }
}

impl<T> WeakTx<T> {
    /// The channel of this end.
    pub closed spec fn chan(&self) -> int {
        self.chan@
    }
}

impl<T> Rx<T> {
    /// The channel of this end.
    pub closed spec fn chan(&self) -> int {
        self.chan@
    }

    /// The `tokio` receiver, for waiting on what the channel delivers.
    pub fn into_receiver(self) -> Receiver<T> {
        self.receiver
    }
}

impl<T> Receipt<T> {
    /// The channel that the value was sent on.
    pub closed spec fn chan(&self) -> int {
        self.chan@
    }

    /// The value sent.
    pub closed spec fn value(&self) -> T {
        self.value@
    }
}

/// `broadcast::channel`: a new channel that buffers `capacity` messages, as its
/// sending end and one receiving end, both of the new channel. It panics for a
/// capacity of 0 or above `usize::MAX / 2`, which `requires` leaves out.
#[verifier::external_body]
pub(crate) fn open_channel<T: Clone>(capacity: usize) -> (r: (Tx<T>, Rx<T>))
    requires
        0 < capacity <= usize::MAX / 2,
    ensures
        r.0.chan() == r.1.chan(),
{
    let (sender, receiver) = broadcast::channel(capacity);
    let chan: Ghost<int> = Ghost(arbitrary());
    (Tx { sender, chan }, Rx { receiver, chan })
}

/// `Sender::downgrade`: a weak sender of the same channel.
#[verifier::external_body]
pub(crate) fn downgrade<T>(tx: &Tx<T>) -> (r: WeakTx<T>)
    ensures
        r.chan() == tx.chan(),
{
    WeakTx { weak: tx.sender.downgrade(), chan: Ghost(tx.chan@) }
}

/// `WeakSender::upgrade`: a sender of the same channel while some other sender
/// of it is alive, else the record that the channel was found closed; which of
/// the two comes back is not stated.
#[verifier::external_body]
pub(crate) fn upgrade<T>(weak: &WeakTx<T>) -> (r: Result<Tx<T>, Closed>)
    ensures
        r matches Ok(tx) ==> tx.chan() == weak.chan(),
        r matches Err(closed) ==> closed.chan() == weak.chan(),
{
    match weak.weak.upgrade() {
        Some(sender) => Ok(Tx { sender, chan: Ghost(weak.chan@) }),
        None => Err(Closed { chan: Ghost(weak.chan@) }),
    }
}

/// `Sender::subscribe`: a receiver of the same channel, of the values sent
/// after this call.
#[verifier::external_body]
pub(crate) fn subscribe<T>(tx: &Tx<T>) -> (r: Rx<T>)
    ensures
        r.chan() == tx.chan(),
{
    Rx { receiver: tx.sender.subscribe(), chan: Ghost(tx.chan@) }
}

/// `Sender::send`: sends `value` on the sender's channel, to the receivers
/// that are subscribed; that no receiver is left is not an error here, and the
/// count of receivers that it returns is dropped. The receipt records the
/// channel and the value.
#[verifier::external_body]
pub(crate) fn publish<T>(tx: &Tx<T>, value: T) -> (r: Receipt<T>)
    ensures
        r.chan() == tx.chan(),
        r.value() == value,
{
    let receipt = Receipt { chan: Ghost(tx.chan@), value: Ghost(value) };
    let _ = tx.sender.send(value);
    receipt
}

} // verus!
