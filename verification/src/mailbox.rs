//! The mailbox between collector and renderer, and the shutdown signal.
//!
//! The mailbox has one slot. Publishing replaces what is pending, so the
//! consumer finds the freshest value and the producer never waits.

use vstd::prelude::*;

verus! {

/// A mailbox of one slot.
#[derive(Debug)]
pub struct Mailbox<T> {
    /// The value that waits for the consumer.
    pub pending: Option<T>,
    /// Whether the consumer is gone for good.
    pub closed: bool,
}

impl<T> Mailbox<T> {
    /// An open mailbox with nothing pending.
    pub fn new() -> (mailbox: Self)
        ensures
            mailbox.pending is None,
            !mailbox.closed,
    {
        Mailbox { pending: None, closed: false }
    }

    /// The mailbox after `value` was published to it.
    pub open spec fn after_publish(self, value: T) -> Self {
        if self.closed {
            self
        } else {
            Mailbox { pending: Some(value), closed: false }
        }
    }

    /// The mailbox after the consumer took what was pending.
    pub open spec fn after_take(self) -> Self {
        Mailbox { pending: None, closed: self.closed }
    }

    /// Puts `value` in the slot in place of what is pending there. A closed
    /// mailbox takes nothing and says so by `false`.
    pub fn publish(&mut self, value: T) -> (accepted: bool)
        ensures
            accepted == !old(self).closed,
            *final(self) == old(self).after_publish(value),
    {
        if self.closed {
            false
        } else {
            self.pending = Some(value);
            true
        }
    }

    /// Takes what is pending, if anything, and leaves the slot empty.
    pub fn take(&mut self) -> (value: Option<T>)
        ensures
            value == old(self).pending,
            *final(self) == old(self).after_take(),
    {
        self.pending.take()
    }

    /// Closes the mailbox from the consumer's side. What is pending is
    /// dropped, and nothing is accepted from then on.
    pub fn close(&mut self)
        ensures
            final(self).closed,
            final(self).pending is None,
    {
        self.pending = None;
        self.closed = true;
    }

    /// Whether the consumer is gone.
    pub fn is_closed(&self) -> (closed: bool)
        ensures
            closed == self.closed,
    {
        self.closed
    }
}

/// Of two values published to an open mailbox one after the other, the
/// consumer finds the second and nothing after it: the first was replaced,
/// not queued.
pub proof fn lemma_publish_overwrites<T>(mailbox: Mailbox<T>, first: T, second: T)
    requires
        !mailbox.closed,
    ensures
        mailbox.after_publish(first).after_publish(second).pending == Some(second),
        mailbox.after_publish(first).after_publish(second) == mailbox.after_publish(second),
        mailbox.after_publish(first).after_publish(second).after_take().pending is None,
{
}

/// A closed mailbox stays as it is whatever is published to it.
pub proof fn lemma_closed_takes_nothing<T>(mailbox: Mailbox<T>, value: T)
    requires
        mailbox.closed,
    ensures
        mailbox.after_publish(value) == mailbox,
{
}

/// The shutdown signal: once raised it stays raised.
#[derive(Clone, Copy, Debug, PartialEq, Eq, Structural)]
pub struct ShutdownSignal {
    pub raised: bool,
}

impl ShutdownSignal {
    /// A signal that is not raised.
    pub fn new() -> (signal: Self)
        ensures
            !signal.raised,
    {
        ShutdownSignal { raised: false }
    }

    /// The signal after it was raised.
    pub open spec fn after_raise(self) -> Self {
        ShutdownSignal { raised: true }
    }

    /// Raises the signal.
    pub fn raise(&mut self)
        ensures
            *final(self) == old(self).after_raise(),
            final(self).raised,
    {
        self.raised = true;
    }

    /// Whether the signal is raised.
    pub fn is_raised(&self) -> (raised: bool)
        ensures
            raised == self.raised,
    {
        self.raised
    }
}

/// Raising the signal again changes nothing, and a raised signal is raised
/// after any number of further raises.
pub proof fn lemma_raise_is_idempotent(signal: ShutdownSignal)
    ensures
        signal.after_raise().after_raise() == signal.after_raise(),
        signal.after_raise().raised,
        signal.raised ==> signal.after_raise() == signal,
{
}

} // verus!
