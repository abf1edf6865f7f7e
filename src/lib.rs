//! Delivery of operating-system signals as messages on ordinary channels.
//!
//! A process-wide relay turns each signal into a four-byte record; the
//! [`relay`] module frames and decodes those records, the [`registry`] module
//! keeps which endpoints want which signal, and [`dispatch`] hands each
//! decoded signal to every endpoint registered for it. [`notify`] and
//! [`notify_on`] add a subscription to a registry; installing the handlers
//! and guarding the registry with a lock is left to the caller.

pub mod channel;
pub mod dispatch;
pub mod registry;
pub mod relay;
pub mod signal;

pub use registry::{registered, Registry};
pub use signal::Signal;

use vstd::prelude::*;

verus! {

/// Subscribes a new channel to every signal of `signal` and returns its
/// receiving half. Each signal gets the channel once, however often it is
/// named. With no signal listed nothing is registered, and the sending
/// half is dropped on return, so the receiver reports disconnection.
pub fn notify(
    registry: &mut Registry<std::sync::mpsc::Sender<Signal>>,
    signal: &[Signal],
) -> (r: std::sync::mpsc::Receiver<Signal>)
    requires
        old(registry).wf(),
        old(registry).endpoints().len() < usize::MAX,
    ensures
        signal@.len() > 0 ==> final(registry).endpoints().len() == old(registry).endpoints().len() + 1,
        registered(*old(registry), *final(registry), final(registry).endpoints().last(), signal@),
{
    let (tx, rx) = channel::new_channel();
    notify_on(registry, tx, signal);
    rx
}

/// Registers `tx` under every signal of `signal`, so that several
/// subscriptions can feed one consumer. Each signal gets `tx` once, however
/// often it is named; with no signal listed, `tx` is dropped.
pub fn notify_on<E>(registry: &mut Registry<E>, tx: E, signal: &[Signal])
    requires
        old(registry).wf(),
        old(registry).endpoints().len() < usize::MAX,
    ensures
        registered(*old(registry), *final(registry), tx, signal@),
{
    registry.register(tx, signal);
}

} // verus!
