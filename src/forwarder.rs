use vstd::prelude::*;

verus! {

/// How many envelopes the relay queue holds before producers wait.
pub const RELAY_CAPACITY: usize = 100;

/// What the driver of the forwarder does next.
#[derive(Clone, Copy, Debug, PartialEq, Eq, Structural)]
pub enum ForwardStep {
    /// Send the envelope just taken from the queue as one datagram.
    Transmit,
    /// Take the next envelope from the queue.
    Dequeue,
    /// The queue is closed and drained: forwarding is over.
    Stop,
}

/// The forwarder's decisions and its counts of sent and failed datagrams.
pub struct Forwarder {
    sent: u64,
    failed: u64,
    closed: bool,
}

pub ghost struct ForwarderView {
    pub sent: nat,
    pub failed: nat,
    pub closed: bool,
}

impl View for Forwarder {
    type V = ForwarderView;

    closed spec fn view(&self) -> ForwarderView {
        ForwarderView { sent: self.sent as nat, failed: self.failed as nat, closed: self.closed }
    }
}

/// A count raised by one, held at the largest `u64`.
pub open spec fn bump(n: nat) -> nat {
    if n < u64::MAX {
        n + 1
    } else {
        n
    }
}

/// The step after a dequeue: an item is transmitted; no item means the
/// queue is closed.
pub open spec fn dequeue_step(got_item: bool) -> ForwardStep {
    if got_item {
        ForwardStep::Transmit
    } else {
        ForwardStep::Stop
    }
}

/// The step after a transmit attempt: whatever its result, the next
/// envelope is dequeued, unless the queue was closed.
pub open spec fn transmit_step(f: ForwarderView) -> ForwardStep {
    if f.closed {
        ForwardStep::Stop
    } else {
        ForwardStep::Dequeue
    }
}

/// The counts after a transmit attempt.
pub open spec fn after_transmit(f: ForwarderView, sent_ok: bool) -> ForwarderView {
    if sent_ok {
        ForwarderView { sent: bump(f.sent), ..f }
    } else {
        ForwarderView { failed: bump(f.failed), ..f }
    }
}

impl Forwarder {
    /// A forwarder that has sent nothing.
    pub fn new() -> (r: Forwarder)
        ensures
            r@ == (ForwarderView { sent: 0, failed: 0, closed: false }),
    {
        Forwarder { sent: 0, failed: 0, closed: false }
    }

    /// Datagrams sent.
    pub fn sent(&self) -> (r: u64)
        ensures
            r == self@.sent,
    {
        self.sent
    }

    /// Datagrams whose transmit failed.
    pub fn failed(&self) -> (r: u64)
        ensures
            r == self@.failed,
    {
        self.failed
    }

    /// Records the result of a dequeue.
    pub fn after_dequeue(&mut self, got_item: bool) -> (r: ForwardStep)
        ensures
            r == dequeue_step(got_item),
            final(self)@ == (ForwarderView { closed: old(self)@.closed || !got_item, ..old(self)@ }),
    {
        if got_item {
            ForwardStep::Transmit
        } else {
            self.closed = true;
            ForwardStep::Stop
        }
    }

    /// Records the result of a transmit; a failure is counted and never
    /// stops the forwarder.
    pub fn after_transmit(&mut self, sent_ok: bool) -> (r: ForwardStep)
        ensures
            r == transmit_step(old(self)@),
            final(self)@ == after_transmit(old(self)@, sent_ok),
    {
        if sent_ok {
            if self.sent < u64::MAX {
                self.sent = self.sent + 1;
            }
        } else {
            if self.failed < u64::MAX {
                self.failed = self.failed + 1;
            }
        }
        if self.closed {
            ForwardStep::Stop
        } else {
            ForwardStep::Dequeue
        }
    }
}

/// The forwarder after `n` envelopes in a row were dequeued and their
/// transmits failed.
pub open spec fn after_failures(f: ForwarderView, n: nat) -> ForwarderView
    decreases n,
{
    if n == 0 {
        f
    } else {
        after_transmit(after_failures(f, (n - 1) as nat), false)
    }
}

/// With an unreachable sink, after any number of failed transmits an open
/// forwarder still dequeues the next envelope and transmits it: each failure
/// is counted once, nothing counts as sent, and it never stops.
pub proof fn lemma_unreachable_sink_never_stalls(f: ForwarderView, n: nat)
    requires
        !f.closed,
        f.failed <= u64::MAX,
    ensures
        !after_failures(f, n).closed,
        after_failures(f, n).sent == f.sent,
        after_failures(f, n).failed == if f.failed + n <= u64::MAX {
            f.failed + n
        } else {
            u64::MAX as nat
        },
        transmit_step(after_failures(f, n)) == ForwardStep::Dequeue,
        dequeue_step(true) == ForwardStep::Transmit,
    decreases n,
{
    if n > 0 {
        lemma_unreachable_sink_never_stalls(f, (n - 1) as nat);
    }
}

/// With every transmit failing, an open forwarder goes on to dequeue the
/// next envelope after each attempt, and stays open.
pub proof fn lemma_failed_transmit_continues(f: ForwarderView)
    requires
        !f.closed,
    ensures
        transmit_step(f) == ForwardStep::Dequeue,
        !after_transmit(f, false).closed,
        transmit_step(after_transmit(f, false)) == ForwardStep::Dequeue,
        dequeue_step(true) == ForwardStep::Transmit,
{
}

} // verus!
