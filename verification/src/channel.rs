//! The channels that connect the library's handles to their worker threads.

use std::sync::mpsc::{Receiver, RecvTimeoutError, Sender, TryRecvError};
use std::time::Duration;

use vstd::prelude::*;

verus! {

/// Why no event could be taken from a channel.
#[derive(Clone, Copy, Debug, PartialEq, Eq, Structural)]
pub enum ReceiveFailure {
    /// Nothing arrived in time.
    Empty,
    /// The sending side has stopped.
    Disconnected,
}

#[verifier::external_type_specification]
#[verifier::external_body]
#[verifier::reject_recursive_types(T)]
pub struct ExReceiver<T>(Receiver<T>);

#[verifier::external_type_specification]
#[verifier::external_body]
#[verifier::reject_recursive_types(T)]
pub struct ExSender<T>(Sender<T>);

/// `Receiver::try_recv`: an event that is already waiting, if any.
#[verifier::external_body]
pub(crate) fn receive_now<T>(receiver: &Receiver<T>) -> (r: Result<T, ReceiveFailure>) {
    match receiver.try_recv() {
        Ok(value) => Ok(value),
        Err(TryRecvError::Empty) => Err(ReceiveFailure::Empty),
        Err(TryRecvError::Disconnected) => Err(ReceiveFailure::Disconnected),
    }
}

/// `Receiver::recv_timeout`: the next event within `timeout`, if any.
#[verifier::external_body]
pub(crate) fn receive_within<T>(receiver: &Receiver<T>, timeout: Duration) -> (r: Result<T, ReceiveFailure>) {
    match receiver.recv_timeout(timeout) {
        Ok(value) => Ok(value),
        Err(RecvTimeoutError::Timeout) => Err(ReceiveFailure::Empty),
        Err(RecvTimeoutError::Disconnected) => Err(ReceiveFailure::Disconnected),
    }
}

/// `Sender::send` of a cancellation signal; a supervisor that already
/// stopped has nothing left to cancel.
#[verifier::external_body]
pub(crate) fn signal(sender: &Sender<()>) {
    let _ = sender.send(());
}

} // verus!
