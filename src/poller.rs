use vstd::prelude::*;

use crate::codec::b64_encode;
use crate::envelope::Envelope;
use crate::frame::copy_bytes;
use crate::transaction::{Capture, Transaction, TransactionView};
use vstd::arithmetic::div_mod::{lemma_mod_self_0, lemma_small_mod};

verus! {

/// Whether a transaction that captured no bytes still yields an envelope.
#[derive(Clone, Copy, Debug, PartialEq, Eq, Structural)]
pub enum EmptyPolicy {
    /// Every transaction yields one envelope, an empty payload included.
    Forward,
    /// A transaction with no bytes yields none.
    Suppress,
}

/// The round-robin driver of one device: which command comes next, and
/// whether polling has stopped.
pub struct Poller {
    port: String,
    commands: Vec<u8>,
    terminator: Vec<u8>,
    deadline_micros: u64,
    policy: EmptyPolicy,
    next: usize,
    stopped: bool,
}

pub ghost struct PollerView {
    pub port: Seq<char>,
    pub commands: Seq<u8>,
    pub terminator: Seq<u8>,
    pub deadline: nat,
    pub policy: EmptyPolicy,
    pub next: nat,
    pub stopped: bool,
}

impl View for Poller {
    type V = PollerView;

    closed spec fn view(&self) -> PollerView {
        PollerView {
            port: self.port@,
            commands: self.commands@,
            terminator: self.terminator@,
            deadline: self.deadline_micros as nat,
            policy: self.policy,
            next: self.next as nat,
            stopped: self.stopped,
        }
    }
}

/// The next command index stays within the command set.
pub open spec fn poller_wf(p: PollerView) -> bool {
    p.next < p.commands.len() || (p.commands.len() == 0 && p.next == 0)
}

/// Polling ends on cancellation, once stopped, or with no commands at all.
pub open spec fn must_stop(p: PollerView, cancelled: bool) -> bool {
    cancelled || p.stopped || p.commands.len() == 0
}

/// The command that the next transaction writes, or `None` for stop.
pub open spec fn poll_command(p: PollerView, cancelled: bool) -> Option<u8> {
    if must_stop(p, cancelled) {
        None
    } else {
        Some(p.commands[p.next as int])
    }
}

/// The poller after one decision: stopped for good, or moved on to the next
/// command in order, wrapping around.
pub open spec fn poll_next(p: PollerView, cancelled: bool) -> PollerView {
    if must_stop(p, cancelled) {
        PollerView { stopped: true, ..p }
    } else {
        PollerView { next: ((p.next + 1) % p.commands.len()) as nat, ..p }
    }
}

/// What the driver of a poller does next.
pub enum PollAction {
    /// Run this fresh transaction.
    Transact(Transaction),
    /// Polling is over.
    Stop,
}

/// Whether a capture becomes an envelope under a policy.
pub open spec fn yields_envelope(policy: EmptyPolicy, bytes: Seq<u8>) -> bool {
    bytes.len() > 0 || policy == EmptyPolicy::Forward
}

impl Poller {
    pub closed spec fn wf(&self) -> bool {
        poller_wf(self@)
    }

    /// A poller for `port` that starts at the first command.
    pub fn new(
        port: &str,
        commands: Vec<u8>,
        terminator: Vec<u8>,
        deadline_micros: u64,
        policy: EmptyPolicy,
    ) -> (r: Poller)
        ensures
            r.wf(),
            r@ == (PollerView {
                port: port@,
                commands: commands@,
                terminator: terminator@,
                deadline: deadline_micros as nat,
                policy,
                next: 0,
                stopped: false,
            }),
    {
        Poller {
            port: port.to_owned(),
            commands,
            terminator,
            deadline_micros,
            policy,
            next: 0,
            stopped: false,
        }
    }

    pub fn port(&self) -> (r: &str)
        ensures
            r@ == self@.port,
    {
        self.port.as_str()
    }

    pub fn is_stopped(&self) -> (r: bool)
        ensures
            r == self@.stopped,
    {
        self.stopped
    }

    /// Stops polling for good (the relay queue was closed).
    pub fn stop(&mut self)
        ensures
            final(self)@ == (PollerView { stopped: true, ..old(self)@ }),
    {
        self.stopped = true;
    }

    /// Decides what comes next: a fresh transaction for the next command in
    /// order, or stop once cancellation has been observed.
    pub fn next_action(&mut self, cancelled: bool) -> (r: PollAction)
        requires
            old(self).wf(),
        ensures
            final(self).wf(),
            final(self)@ == poll_next(old(self)@, cancelled),
            match poll_command(old(self)@, cancelled) {
                None => r is Stop,
                Some(c) => r is Transact && r->Transact_0.wf() && r->Transact_0@ == (
                TransactionView {
                    command: c,
                    terminator: old(self)@.terminator,
                    deadline: old(self)@.deadline,
                    received: Seq::empty(),
                    finished: None,
                }),
            },
    {
        if cancelled || self.stopped || self.commands.len() == 0 {
            self.stopped = true;
            return PollAction::Stop;
        }
        proof {
            lemma_wrap(self.next as nat, self.commands.len() as nat);
        }
        let command = self.commands[self.next];
        self.next = if self.next + 1 == self.commands.len() {
            0
        } else {
            self.next + 1
        };
        PollAction::Transact(
            Transaction::new(command, copy_bytes(self.terminator.as_slice()), self.deadline_micros),
        )
    }

    /// The envelope for a finished transaction, as the empty-payload policy
    /// decides.
    pub fn envelope_for(&self, capture: &Capture) -> (r: Option<Envelope>)
        ensures
            r.is_some() == yields_envelope(self@.policy, capture.bytes@),
            r.is_some() ==> r.unwrap()@.port == self@.port && r.unwrap()@.payload == b64_encode(
                capture.bytes@,
            ) && r.unwrap()@.duration_micros == capture.elapsed_micros,
    {
        if capture.bytes.len() == 0 && self.policy == EmptyPolicy::Suppress {
            None
        } else {
            Some(Envelope::build(self.port.as_str(), capture.bytes.as_slice(), capture.elapsed_micros))
        }
    }
}

proof fn lemma_wrap(next: nat, len: nat)
    requires
        next < len,
    ensures
        ((next + 1) as int) % (len as int) == if next + 1 == len {
            0
        } else {
            next + 1
        },
{
    if next + 1 == len {
        lemma_mod_self_0(len as int);
    } else {
        lemma_small_mod((next + 1) as nat, len);
    }
}

/// Once cancellation is observed, or once stopped, no transaction starts,
/// and the poller stays stopped whatever comes after.
pub proof fn lemma_no_transaction_after_stop(p: PollerView, cancelled: bool, later: bool)
    requires
        cancelled || p.stopped,
    ensures
        poll_command(p, cancelled) is None,
        poll_next(p, cancelled).stopped,
        poll_command(poll_next(p, cancelled), later) is None,
{
}

/// Without cancellation, commands go out one at a time in their fixed order,
/// wrapping around after the last.
pub proof fn lemma_round_robin(p: PollerView)
    requires
        poller_wf(p),
        !p.stopped,
        p.commands.len() > 0,
    ensures
        poll_command(p, false) == Some(p.commands[p.next as int]),
        poller_wf(poll_next(p, false)),
        poll_next(p, false).next == if p.next + 1 == p.commands.len() {
            0
        } else {
            p.next + 1
        },
{
    lemma_wrap(p.next, p.commands.len());
}

} // verus!
