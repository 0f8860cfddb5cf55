use crate::connection::PollOutcome;
use tokio::sync::mpsc::{UnboundedReceiver, UnboundedSender};
use vstd::prelude::*;

verus! {

#[verifier::external_type_specification]
#[verifier::external_body]
#[verifier::reject_recursive_types(T)]
pub struct ExUnboundedSender<T>(UnboundedSender<T>);

#[verifier::external_type_specification]
#[verifier::external_body]
#[verifier::reject_recursive_types(T)]
pub struct ExUnboundedReceiver<T>(UnboundedReceiver<T>);

/// Relies on tokio::sync::mpsc::unbounded_channel: a fresh channel, handed
/// back as its send and receive halves.
#[verifier::external_body]
pub(crate) fn channel_pair() -> (UnboundedSender<String>, UnboundedReceiver<String>) {
    tokio::sync::mpsc::unbounded_channel()
}

/// Relies on tokio::sync::mpsc::UnboundedSender::send: the channel is
/// unbounded, so the only failure is a closed channel (the receive half was
/// dropped), and the error then hands the message back unchanged.
#[verifier::external_body]
pub(crate) fn sender_send(sender: &UnboundedSender<String>, message: String) -> (r: Result<
    (),
    String,
>)
    ensures
        r matches Err(m) ==> m@ == message@,
{
    sender.send(message).map_err(|failed| failed.0)
}

/// Relies on Clone for tokio::sync::mpsc::UnboundedSender: the clone feeds
/// the same channel as the handle it was made from.
#[verifier::external_body]
pub(crate) fn sender_clone(sender: &UnboundedSender<String>) -> UnboundedSender<String> {
    sender.clone()
}

/// Relies on tokio::sync::mpsc::UnboundedReceiver::try_recv: the next queued
/// message in producer order, or which of the two empty states the channel is
/// in. The outcome depends on the channel's current state, so nothing is
/// promised of it.
#[verifier::external_body]
pub(crate) fn receiver_try_recv(receiver: &mut UnboundedReceiver<String>) -> PollOutcome {
    match receiver.try_recv() {
        Ok(message) => PollOutcome::Item(message),
        Err(tokio::sync::mpsc::error::TryRecvError::Empty) => PollOutcome::Pending,
        Err(tokio::sync::mpsc::error::TryRecvError::Disconnected) => PollOutcome::Ended,
    }
}

} // verus!
