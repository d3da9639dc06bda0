//! The channels between the stages, and the pool of recycled buffers.
//!
//! What another thread has sent or taken cannot be known here, so the
//! receiving calls promise nothing about what they return: the code that
//! uses them is proved for every message that may arrive.

use vstd::prelude::*;
use crate::entry::{channel_of, spec_channel_of, Channel, Message};

verus! {

/// `crossbeam_channel::Receiver`: the receiving end of a channel.
#[verifier::external_type_specification]
#[verifier::external_body]
#[verifier::reject_recursive_types(T)]
pub struct ExReceiver<T>(crossbeam_channel::Receiver<T>);

/// `crossbeam_channel::Sender`: the sending end of a channel.
#[verifier::external_type_specification]
#[verifier::external_body]
#[verifier::reject_recursive_types(T)]
pub struct ExSender<T>(crossbeam_channel::Sender<T>);

/// `crossbeam_channel::Receiver::try_recv` on the buffer pool: a buffer that
/// was waiting there, or `None` when the pool is empty or closed. Nothing is
/// claimed about the buffer that comes back.
#[verifier::external_body]
pub(crate) fn pool_take(pool: &crossbeam_channel::Receiver<Vec<u8>>) -> (buffer: Option<Vec<u8>>) {
    pool.try_recv().ok()
}

/// `crossbeam_channel::Sender::send`: hands an item to the channel, after
/// waiting for room where the channel is bounded and full; `false` when no
/// receiver is left, in which case the item is dropped. Whether one is left
/// depends on the other side, so nothing is claimed.
#[verifier::external_body]
pub(crate) fn channel_send<T>(channel: &crossbeam_channel::Sender<T>, item: T) -> (sent: bool) {
    channel.send(item).is_ok()
}

/// `crossbeam_channel::Receiver::recv`: waits for the next message, `None`
/// once the channel is empty and every sender is gone. Nothing is claimed
/// about the message that comes back.
#[verifier::external_body]
pub(crate) fn recv_message(channel: &crossbeam_channel::Receiver<Message>) -> (message: Option<
    Message,
>) {
    channel.recv().ok()
}

/// Sends a message to the writer on the channel where it belongs: a body
/// fragment or an end marker on `chunks`, anything else on `metadata`.
/// Returns the channel that was used, and whether the writer was still
/// there to take the message.
pub fn forward(
    metadata: &crossbeam_channel::Sender<Message>,
    chunks: &crossbeam_channel::Sender<Message>,
    message: Message,
) -> (outcome: (Channel, bool))
    ensures
        outcome.0 == spec_channel_of(message),
{
    match channel_of(&message) {
        Channel::Metadata => (Channel::Metadata, channel_send(metadata, message)),
        Channel::Chunk => (Channel::Chunk, channel_send(chunks, message)),
    }
}

} // verus!
