//! The publish bus: one lossy broadcast channel per media type.
//!
//! The channel is `tokio::sync::broadcast`. A subscriber that falls behind
//! loses the oldest frames; the publisher never waits.

use vstd::prelude::*;
use tokio::sync::broadcast::Sender;

verus! {

/// The sending half of a `tokio` broadcast channel. Nothing inside it is
/// visible to the verifier.
#[verifier::external_type_specification]
#[verifier::external_body]
#[verifier::reject_recursive_types(T)]
pub struct ExSender<T>(Sender<T>);

/// Frames that a bus keeps for a subscriber that falls behind.
pub const BUS_CAPACITY: usize = 40;

/// The number of frames that the channel behind `tx` was asked to keep
/// when it was made. It is fixed for the life of the channel.
pub uninterp spec fn requested_capacity(tx: Sender<Vec<u8>>) -> nat;

/// Calls `tokio::sync::broadcast::channel` and keeps the sending half, so
/// that the channel starts without a subscriber.
///
/// `channel` panics on a capacity of 0 or above `usize::MAX / 2`; both are
/// left out. The claim is that the channel was asked to keep `capacity`
/// frames; `tokio` rounds that up to a power of two and keeps no fewer.
#[verifier::external_body]
fn channel_sender(capacity: usize) -> (tx: Sender<Vec<u8>>)
    requires
        0 < capacity <= usize::MAX / 2,
    ensures
        requested_capacity(tx) == capacity,
{
    tokio::sync::broadcast::channel::<Vec<u8>>(capacity).0
}

/// Calls `tokio::sync::broadcast::Sender::send`.
///
/// `send` answers with the number of subscribers at that moment, or gives
/// the item back where there is none. The claim is that a number that
/// comes back is at least 1; how many subscribe is not for this library to
/// know.
#[verifier::external_body]
fn send_to_subscribers(tx: &Sender<Vec<u8>>, item: Vec<u8>) -> (answer: Option<usize>)
    ensures
        answer matches Some(n) ==> n >= 1,
{
    match tx.send(item) {
        Ok(n) => Some(n),
        Err(_) => None,
    }
}

/// How many subscribers a publish reached, from what the channel
/// answered: its number, or 0 where it took nothing.
pub open spec fn spec_delivered(answer: Option<usize>) -> usize {
    match answer {
        Some(n) => n,
        None => 0,
    }
}

/// How many subscribers a publish reached, from what the channel answered.
pub fn delivered(answer: Option<usize>) -> (n: usize)
    ensures
        n == spec_delivered(answer),
{
    match answer {
        Some(n) => n,
        None => 0,
    }
}

/// A bus for one media type, without a subscriber yet, made to keep
/// `BUS_CAPACITY` frames for a subscriber that falls behind.
pub fn open_bus() -> (tx: Sender<Vec<u8>>)
    ensures
        requested_capacity(tx) == BUS_CAPACITY,
{
    channel_sender(BUS_CAPACITY)
}

/// Publishes `item` to whoever subscribes at this moment and says how many
/// that is. Without a subscriber the item is dropped and the answer is 0.
/// The publisher never waits for a subscriber.
pub fn publish(tx: &Sender<Vec<u8>>, item: Vec<u8>) -> (n: usize) {
    delivered(send_to_subscribers(tx, item))
}

} // verus!
