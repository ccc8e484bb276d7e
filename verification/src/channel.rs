//! The fan-out channel of a topic: the broadcast channel of `tokio`, as this
//! crate sees it.
//!
//! A channel is shared between the registry, which sends, and the mailboxes
//! of the subscribers, which receive, and other tasks may use it at any
//! time. What a receiver finds is therefore no function of what this crate
//! did: the functions here promise nothing of it, and the code that calls
//! them is proved for every outcome.
use crate::v4::publish::PublishPacket;
use std::sync::Arc;
use tokio::sync::broadcast::error::TryRecvError;
use tokio::sync::broadcast::{Receiver, Sender};
use vstd::prelude::*;

verus! {

#[verifier::external_type_specification]
#[verifier::external_body]
#[verifier::reject_recursive_types(T)]
pub struct ExSender<T>(tokio::sync::broadcast::Sender<T>);

#[verifier::external_type_specification]
#[verifier::external_body]
#[verifier::reject_recursive_types(T)]
pub struct ExReceiver<T>(tokio::sync::broadcast::Receiver<T>);

/// The largest bound that a channel can be made with.
pub const MAX_QUEUE: usize = usize::MAX / 2;

/// Why a receiver handed out no message though it is not merely empty.
#[derive(Clone, Copy, Debug, PartialEq, Eq, Structural)]
pub enum MailFault {
    /// Every sender is gone; no message will come any more.
    Closed,
    /// The receiver fell behind and this many messages were dropped for it;
    /// it goes on with the oldest message that is still there.
    Lagged(u64),
}

/// `Sender::new`: a channel that holds up to `capacity` messages for a
/// receiver that falls behind. It panics on a capacity of 0 and on one above
/// `usize::MAX / 2`, which `requires` rules out.
#[verifier::external_body]
pub(crate) fn channel_new(capacity: usize) -> (sender: Sender<Arc<PublishPacket>>)
    requires
        0 < capacity <= MAX_QUEUE,
{
    Sender::new(capacity)
}

/// `Sender::send`: hands the message to every receiver there is at this
/// moment and returns their number, or nothing where there is none.
#[verifier::external_body]
pub(crate) fn channel_send(sender: &Sender<Arc<PublishPacket>>, packet: Arc<PublishPacket>) -> (r:
    Option<usize>) {
    match sender.send(packet) {
        Ok(receivers) => Some(receivers),
        Err(_) => None,
    }
}

/// `Sender::subscribe`: a new receiver, which will see the messages sent
/// from now on.
#[verifier::external_body]
pub(crate) fn channel_subscribe(sender: &Sender<Arc<PublishPacket>>) -> (receiver: Receiver<
    Arc<PublishPacket>,
>) {
    sender.subscribe()
}

/// `Receiver::try_recv`: the next message, or nothing where none is waiting,
/// or the fault of a channel that is closed or of a receiver that lagged.
#[verifier::external_body]
pub(crate) fn channel_try_recv(receiver: &mut Receiver<Arc<PublishPacket>>) -> (r: Result<
    Option<Arc<PublishPacket>>,
    MailFault,
>) {
    match receiver.try_recv() {
        Ok(packet) => Ok(Some(packet)),
        Err(TryRecvError::Empty) => Ok(None),
        Err(TryRecvError::Closed) => Err(MailFault::Closed),
        Err(TryRecvError::Lagged(missed)) => Err(MailFault::Lagged(missed)),
    }
}

} // verus!
