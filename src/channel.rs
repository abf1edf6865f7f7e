//! The consumer endpoints: std's multi-producer, single-consumer channels.
//!
//! The channel types are opaque here. What the library relies on is only
//! that `channel` hands out a connected pair and that a send may fail.

use vstd::prelude::*;
use crate::signal::Signal;

verus! {

/// std's sending half of a channel, carried through the library unopened.
#[verifier::external_type_specification]
#[verifier::external_body]
#[verifier::reject_recursive_types(T)]
pub struct ExSender<T>(std::sync::mpsc::Sender<T>);

/// std's receiving half of a channel, carried through the library unopened.
#[verifier::external_type_specification]
#[verifier::external_body]
#[verifier::reject_recursive_types(T)]
pub struct ExReceiver<T>(std::sync::mpsc::Receiver<T>);

/// Relies on std::sync::mpsc::channel: a new unbounded channel, returned as
/// its sending and receiving halves. Nothing about the pair is stated.
#[verifier::external_body]
pub(crate) fn new_channel() -> (r: (std::sync::mpsc::Sender<Signal>, std::sync::mpsc::Receiver<Signal>)) {
    std::sync::mpsc::channel()
}

/// Relies on std::sync::mpsc::Sender::send: queues `s` on the channel
/// without blocking, and fails when the receiving half is gone. Whether it
/// fails depends on the receiver, so nothing about the outcome is stated.
#[verifier::external_body]
pub(crate) fn send_signal(tx: &std::sync::mpsc::Sender<Signal>, s: Signal) -> (r: bool) {
    tx.send(s).is_ok()
}

} // verus!
