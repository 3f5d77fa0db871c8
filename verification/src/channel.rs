//! The broadcast channel on which the start of a match is announced.

use crate::signal::MatchStartSignal;
use tokio::sync::broadcast::{Receiver, Sender};
use vstd::prelude::*;

verus! {

/// `tokio::sync::broadcast::Sender`, the sending half of a channel.
#[verifier::external_type_specification]
#[verifier::external_body]
#[verifier::reject_recursive_types(T)]
pub struct ExSender<T>(tokio::sync::broadcast::Sender<T>);

/// `tokio::sync::broadcast::Receiver`, a subscription to a channel.
#[verifier::external_type_specification]
#[verifier::external_body]
#[verifier::reject_recursive_types(T)]
pub struct ExReceiver<T>(tokio::sync::broadcast::Receiver<T>);

/// The signals that `send` was called with on this sender, oldest first, each with
/// the number of subscribers that the call found; none where it found nobody.
pub uninterp spec fn offered(sender: Sender<MatchStartSignal>) -> Seq<(MatchStartSignal, usize)>;

/// The signals that the channel has accepted through this sender, oldest first.
pub uninterp spec fn accepted(sender: Sender<MatchStartSignal>) -> Seq<MatchStartSignal>;

/// The number of signals that the sender's channel was asked to hold for a
/// subscriber that has not read them yet.
pub uninterp spec fn room(sender: Sender<MatchStartSignal>) -> nat;

/// The receiver is a subscription to the sender's channel.
pub uninterp spec fn subscribed(
    receiver: Receiver<MatchStartSignal>,
    sender: Sender<MatchStartSignal>,
) -> bool;

/// Opens a channel with `tokio::sync::broadcast::channel`.
///
/// Trusted: nothing was offered to the new channel and it has accepted nothing, it
/// was asked to hold `capacity` unread signals, and the receiver is subscribed to it. The call panics on a capacity
/// of zero and on one too large to allocate; the bound keeps clear of both.
#[verifier::external_body]
pub(crate) fn open_channel(capacity: usize) -> (ends: (
    Sender<MatchStartSignal>,
    Receiver<MatchStartSignal>,
))
    requires
        0 < capacity <= 1024,
    ensures
        offered(ends.0) == Seq::<(MatchStartSignal, usize)>::empty(),
        accepted(ends.0) == Seq::<MatchStartSignal>::empty(),
        room(ends.0) == capacity,
        subscribed(ends.1, ends.0),
{
    tokio::sync::broadcast::channel(capacity)
}

/// Sends a signal with `tokio::sync::broadcast::Sender::send`.
///
/// Trusted: the call offers the signal to the channel. With at least one subscriber
/// the channel accepts it, and the call returns how many there are; without any it
/// hands the signal back and the channel accepts nothing. Which of the two happens depends on the receivers
/// that are alive at that moment. The capacity and the subscriptions stay.
#[verifier::external_body]
pub(crate) fn send_signal(sender: &mut Sender<MatchStartSignal>, signal: MatchStartSignal) -> (sent:
    Result<usize, MatchStartSignal>)
    ensures
        match sent {
            Ok(subscribers) => {
                &&& subscribers > 0
                &&& offered(*final(sender)) == offered(*old(sender)).push((signal, subscribers))
                &&& accepted(*final(sender)) == accepted(*old(sender)).push(signal)
            },
            Err(returned) => {
                &&& returned == signal
                &&& offered(*final(sender)) == offered(*old(sender)).push((signal, 0usize))
                &&& accepted(*final(sender)) == accepted(*old(sender))
            },
        },
        room(*final(sender)) == room(*old(sender)),
        forall|receiver: Receiver<MatchStartSignal>|
            #[trigger] subscribed(receiver, *final(sender)) == subscribed(receiver, *old(sender)),
{
    sender.send(signal).map_err(|unsent| unsent.0)
}

} // verus!
