//! The event protocol: a bounded, lock-free, single-producer single-consumer
//! queue of commands between the input thread and the audio thread.
//!
//! The queue itself is `rtrb`'s ring buffer, reached through trusted
//! wrappers. Its contents cannot be described honestly from one endpoint —
//! the other endpoint lives on another thread — so the wrappers promise only
//! what holds of every outcome: a push never blocks and reports whether the
//! item was accepted (it is dropped when the queue is full), and a pop never
//! blocks and returns nothing when the queue is empty.

use vstd::prelude::*;

use crate::mixer::AudioCommand;

verus! {

#[verifier::external_type_specification]
#[verifier::external_body]
#[verifier::reject_recursive_types(T)]
pub struct ExProducer<T>(rtrb::Producer<T>);

#[verifier::external_type_specification]
#[verifier::external_body]
#[verifier::reject_recursive_types(T)]
pub struct ExConsumer<T>(rtrb::Consumer<T>);

/// Relies on rtrb::RingBuffer::new: creates a bounded queue of exactly the
/// given capacity and hands back its two endpoints.
#[verifier::external_body]
fn ring_new<T>(capacity: usize) -> (r: (rtrb::Producer<T>, rtrb::Consumer<T>)) {
    rtrb::RingBuffer::new(capacity)
}

/// Relies on rtrb::Producer::push: non-blocking; returns `Ok` when the item
/// was stored and `Err(PushError::Full(..))` with the rejected item exactly
/// when the queue is full. The rejected item is dropped here, which is the
/// deliberate overflow policy of this protocol.
#[verifier::external_body]
fn ring_push<T>(producer: &mut rtrb::Producer<T>, value: T) -> (accepted: bool) {
    producer.push(value).is_ok()
}

/// Relies on rtrb::Consumer::pop: non-blocking; returns the oldest item, or
/// `Err(PopError::Empty)` when the queue is empty.
#[verifier::external_body]
fn ring_pop<T>(consumer: &mut rtrb::Consumer<T>) -> (r: Option<T>) {
    consumer.pop().ok()
}

/// Relies on rtrb::Consumer::buffer and rtrb::RingBuffer::capacity: the
/// fixed capacity the queue was created with.
#[verifier::external_body]
fn ring_capacity<T>(consumer: &rtrb::Consumer<T>) -> (r: usize) {
    consumer.buffer().capacity()
}

/// Create the command channel: a bounded queue of the given capacity with
/// one producer endpoint (for the input dispatcher) and one consumer
/// endpoint (for the voice mixer inside the audio callback).
pub fn command_channel<B>(capacity: usize) -> (rtrb::Producer<AudioCommand<B>>, rtrb::Consumer<
    AudioCommand<B>,
>) {
    ring_new(capacity)
}

/// Offer a command to the channel without blocking. Returns whether it was
/// accepted; a command offered to a full queue is dropped, by design.
pub fn send_command<B>(producer: &mut rtrb::Producer<AudioCommand<B>>, command: AudioCommand<B>) -> (accepted:
    bool) {
    ring_push(producer, command)
}

/// Take the oldest pending command without blocking, if there is one.
pub fn recv_command<B>(consumer: &mut rtrb::Consumer<AudioCommand<B>>) -> (r: Option<
    AudioCommand<B>,
>) {
    ring_pop(consumer)
}

/// The fixed capacity of the channel: never more than this many commands
/// can be pending at once.
pub fn channel_capacity<B>(consumer: &rtrb::Consumer<AudioCommand<B>>) -> (r: usize) {
    ring_capacity(consumer)
}

} // verus!
