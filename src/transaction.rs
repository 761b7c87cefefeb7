use vstd::prelude::*;

use crate::frame::{ends_with_terminator, frame_complete};
use vstd::seq_lib::lemma_flatten_concat;

verus! {

/// The most bytes one transaction's response buffer holds.
pub const FRAME_CAPACITY: usize = 65535;

/// How one transaction ended.
#[derive(Clone, Copy, Debug, PartialEq, Eq, Structural)]
pub enum Outcome {
    /// The buffer ends with the terminator.
    Complete,
    /// The deadline passed first; the bytes so far are the result.
    TimedOut,
    /// The stream reported end of data, or the buffer is full.
    EndOfData,
    /// A read failed; the bytes so far are the result.
    ReadFailed,
    /// The command byte could not be written; the result is empty.
    WriteFailed,
}

/// What the driver of a transaction does next.
#[derive(Clone, Copy, Debug, PartialEq, Eq, Structural)]
pub enum Step {
    /// Read at most `room` bytes, waiting at most `budget_micros`.
    Read { budget_micros: u64, room: usize },
    /// The transaction is over.
    Finish(Outcome),
}

/// What one read of the device stream gave.
pub enum ReadEvent {
    /// Bytes arrived; none at all means the stream ended.
    Data(Vec<u8>),
    /// The read's time budget ran out.
    TimedOut,
    /// The stream reported an error.
    Failed,
}

/// One write-then-read cycle against a device, as plain state.
pub struct Transaction {
    command: u8,
    terminator: Vec<u8>,
    deadline_micros: u64,
    received: Vec<u8>,
    finished: Option<Outcome>,
}

pub ghost struct TransactionView {
    pub command: u8,
    pub terminator: Seq<u8>,
    pub deadline: nat,
    pub received: Seq<u8>,
    pub finished: Option<Outcome>,
}

impl View for Transaction {
    type V = TransactionView;

    closed spec fn view(&self) -> TransactionView {
        TransactionView {
            command: self.command,
            terminator: self.terminator@,
            deadline: self.deadline_micros as nat,
            received: self.received@,
            finished: self.finished,
        }
    }
}

/// The buffer never outgrows its capacity.
pub open spec fn transaction_wf(t: TransactionView) -> bool {
    t.received.len() <= FRAME_CAPACITY
}

/// The decision taken at `elapsed` microseconds after the write: an ended
/// transaction stays ended; a complete frame ends it before the deadline is
/// looked at; then the deadline, measured once from the write; then a full
/// buffer; else read for the time that is left.
pub open spec fn decide(t: TransactionView, elapsed: nat) -> Step {
    match t.finished {
        Some(o) => Step::Finish(o),
        None => {
            if frame_complete(t.received, t.terminator) {
                Step::Finish(Outcome::Complete)
            } else if elapsed >= t.deadline {
                Step::Finish(Outcome::TimedOut)
            } else if t.received.len() >= FRAME_CAPACITY {
                Step::Finish(Outcome::EndOfData)
            } else {
                Step::Read {
                    budget_micros: (t.deadline - elapsed) as u64,
                    room: (FRAME_CAPACITY - t.received.len()) as usize,
                }
            }
        },
    }
}

/// The state after `data` arrived: empty data ends the stream, else as much
/// of it as the buffer has room for is appended.
pub open spec fn after_data(t: TransactionView, data: Seq<u8>) -> TransactionView {
    if t.finished is Some {
        t
    } else if data.len() == 0 {
        TransactionView { finished: Some(Outcome::EndOfData), ..t }
    } else {
        let room = FRAME_CAPACITY - t.received.len();
        let kept = if data.len() <= room { data } else { data.take(room) };
        TransactionView { received: t.received + kept, ..t }
    }
}

/// The state after one read event.
pub open spec fn after_read(t: TransactionView, ev: ReadEvent) -> TransactionView {
    match ev {
        ReadEvent::Data(d) => after_data(t, d@),
        ReadEvent::TimedOut => if t.finished is Some {
            t
        } else {
            TransactionView { finished: Some(Outcome::TimedOut), ..t }
        },
        ReadEvent::Failed => if t.finished is Some {
            t
        } else {
            TransactionView { finished: Some(Outcome::ReadFailed), ..t }
        },
    }
}

/// What one transaction produced: the bytes exactly as received.
pub struct Capture {
    pub command: u8,
    pub bytes: Vec<u8>,
    pub outcome: Outcome,
    pub elapsed_micros: u64,
}

impl Transaction {
    pub closed spec fn wf(&self) -> bool {
        transaction_wf(self@)
    }

    /// A fresh transaction for `command`, with an empty buffer.
    pub fn new(command: u8, terminator: Vec<u8>, deadline_micros: u64) -> (r: Transaction)
        ensures
            r.wf(),
            r@ == (TransactionView {
                command,
                terminator: terminator@,
                deadline: deadline_micros as nat,
                received: Seq::empty(),
                finished: None,
            }),
    {
        Transaction {
            command,
            terminator,
            deadline_micros,
            received: Vec::new(),
            finished: None,
        }
    }

    /// The command byte this transaction writes.
    pub fn command(&self) -> (r: u8)
        ensures
            r == self@.command,
    {
        self.command
    }

    /// The bytes received so far.
    pub fn received(&self) -> (r: &[u8])
        ensures
            r@ == self@.received,
    {
        self.received.as_slice()
    }

    /// The write of the command byte failed: the transaction is abandoned with
    /// an empty result.
    pub fn write_failed(&mut self)
        ensures
            final(self).wf(),
            final(self)@ == (TransactionView {
                received: Seq::empty(),
                finished: Some(Outcome::WriteFailed),
                ..old(self)@
            }),
    {
        self.received = Vec::new();
        self.finished = Some(Outcome::WriteFailed);
    }

    /// What to do `elapsed_micros` after the write completed.
    pub fn next_step(&self, elapsed_micros: u64) -> (r: Step)
        requires
            self.wf(),
        ensures
            r == decide(self@, elapsed_micros as nat),
    {
        match self.finished {
            Some(o) => Step::Finish(o),
            None => {
                if ends_with_terminator(self.received.as_slice(), self.terminator.as_slice()) {
                    Step::Finish(Outcome::Complete)
                } else if elapsed_micros >= self.deadline_micros {
                    Step::Finish(Outcome::TimedOut)
                } else if self.received.len() >= FRAME_CAPACITY {
                    Step::Finish(Outcome::EndOfData)
                } else {
                    Step::Read {
                        budget_micros: self.deadline_micros - elapsed_micros,
                        room: FRAME_CAPACITY - self.received.len(),
                    }
                }
            },
        }
    }

    /// Records what a read gave.
    pub fn on_read(&mut self, ev: ReadEvent)
        requires
            old(self).wf(),
        ensures
            final(self).wf(),
            final(self)@ == after_read(old(self)@, ev),
    {
        if self.finished.is_some() {
            return;
        }
        match ev {
            ReadEvent::Data(data) => {
                if data.len() == 0 {
                    self.finished = Some(Outcome::EndOfData);
                } else {
                    let room: usize = FRAME_CAPACITY - self.received.len();
                    let n: usize = if data.len() <= room { data.len() } else { room };
                    let ghost before = self.received@;
                    let mut i: usize = 0;
                    while i < n
                        invariant
                            n <= data.len(),
                            before.len() + n <= FRAME_CAPACITY,
                            i <= n,
                            self.received@ == before + data@.take(i as int),
                            self.finished is None,
                            self.command == old(self).command,
                            self.terminator == old(self).terminator,
                            self.deadline_micros == old(self).deadline_micros,
                        decreases n - i,
                    {
                        self.received.push(data[i]);
                        i = i + 1;
                        assert(data@.take(i as int) =~= data@.take(i - 1) + seq![data@[i - 1]]);
                    }
                    assert(data@.take(n as int) =~= (if data@.len() <= room as int {
                        data@
                    } else {
                        data@.take(room as int)
                    }));
                }
            },
            ReadEvent::TimedOut => {
                self.finished = Some(Outcome::TimedOut);
            },
            ReadEvent::Failed => {
                self.finished = Some(Outcome::ReadFailed);
            },
        }
    }

    /// Ends the transaction: the bytes exactly as received, how it ended, and
    /// the time since the write.
    pub fn finish(self, elapsed_micros: u64) -> (r: Capture)
        requires
            self.wf(),
            decide(self@, elapsed_micros as nat) is Finish,
        ensures
            r.command == self@.command,
            r.bytes@ == self@.received,
            decide(self@, elapsed_micros as nat) == Step::Finish(r.outcome),
            r.elapsed_micros == elapsed_micros,
    {
        let outcome = match self.next_step(elapsed_micros) {
            Step::Finish(o) => o,
            Step::Read { .. } => Outcome::TimedOut,
        };
        Capture { command: self.command, bytes: self.received, outcome, elapsed_micros }
    }
}

/// A response that ends with the terminator completes the transaction at
/// once, whatever time is left, and the bytes kept end with the terminator.
pub proof fn lemma_terminated_response_completes(t: TransactionView, data: Seq<u8>, elapsed: nat)
    requires
        transaction_wf(t),
        t.finished is None,
        0 < data.len() <= FRAME_CAPACITY - t.received.len(),
        frame_complete(t.received + data, t.terminator),
    ensures
        after_data(t, data).received == t.received + data,
        decide(after_data(t, data), elapsed) == Step::Finish(Outcome::Complete),
        frame_complete(after_data(t, data).received, t.terminator),
{
}

/// Without a terminator, reaching the deadline ends the transaction as timed
/// out, with exactly the bytes received so far; a read that runs out of time
/// also ends it as timed out and keeps those bytes.
pub proof fn lemma_deadline_keeps_partial_frame(t: TransactionView, elapsed: nat)
    requires
        transaction_wf(t),
        t.finished is None,
        !frame_complete(t.received, t.terminator),
    ensures
        elapsed >= t.deadline ==> decide(t, elapsed) == Step::Finish(Outcome::TimedOut),
        after_read(t, ReadEvent::TimedOut).received == t.received,
        decide(after_read(t, ReadEvent::TimedOut), elapsed) == Step::Finish(Outcome::TimedOut),
{
}

/// One read appends exactly the bytes it gave.
pub proof fn lemma_data_appends(t: TransactionView, data: Seq<u8>)
    requires
        transaction_wf(t),
        t.finished is None,
        data.len() <= FRAME_CAPACITY - t.received.len(),
    ensures
        after_data(t, data).received == t.received + data,
        transaction_wf(after_data(t, data)),
{
}

/// The state after each of `chunks` arrived, in order.
pub open spec fn feed(t: TransactionView, chunks: Seq<Seq<u8>>) -> TransactionView
    decreases chunks.len(),
{
    if chunks.len() == 0 {
        t
    } else {
        after_data(feed(t, chunks.drop_last()), chunks.last())
    }
}

/// After any run of non-empty reads that fit, the buffer is exactly the
/// bytes received, in order, and the transaction is still open; a read that
/// then runs out of time ends it as timed out with those bytes, and so does
/// the deadline when no terminator came.
pub proof fn lemma_timeout_returns_bytes_so_far(
    t: TransactionView,
    chunks: Seq<Seq<u8>>,
    elapsed: nat,
)
    requires
        transaction_wf(t),
        t.finished is None,
        forall|i: int| 0 <= i < chunks.len() ==> (#[trigger] chunks[i]).len() > 0,
        t.received.len() + chunks.flatten().len() <= FRAME_CAPACITY,
    ensures
        feed(t, chunks).received == t.received + chunks.flatten(),
        feed(t, chunks).finished is None,
        feed(t, chunks).terminator == t.terminator,
        feed(t, chunks).deadline == t.deadline,
        after_read(feed(t, chunks), ReadEvent::TimedOut).received == t.received + chunks.flatten(),
        decide(after_read(feed(t, chunks), ReadEvent::TimedOut), elapsed) == Step::Finish(
            Outcome::TimedOut,
        ),
        !frame_complete(feed(t, chunks).received, t.terminator) && elapsed >= t.deadline ==> decide(
            feed(t, chunks),
            elapsed,
        ) == Step::Finish(Outcome::TimedOut),
    decreases chunks.len(),
{
    if chunks.len() > 0 {
        let init = chunks.drop_last();
        assert(chunks =~= init.push(chunks.last()));
        init.lemma_flatten_push(chunks.last());
        assert forall|i: int| 0 <= i < init.len() implies (#[trigger] init[i]).len() > 0 by {
            assert(init[i] == chunks[i]);
        }
        lemma_timeout_returns_bytes_so_far(t, init, elapsed);
        assert(t.received + init.flatten() + chunks.last() =~= t.received + chunks.flatten());
    }
}

/// A response that arrives over any run of non-empty reads that fit, and
/// whose bytes end with the terminator, is kept exactly and completes the
/// transaction at once, whatever time is left. Before its last read, at a
/// boundary where the bytes so far are no complete frame, a step taken
/// before the deadline is one more read.
pub proof fn lemma_terminated_reads_complete(
    t: TransactionView,
    chunks: Seq<Seq<u8>>,
    elapsed: nat,
)
    requires
        transaction_wf(t),
        t.finished is None,
        forall|i: int| 0 <= i < chunks.len() ==> (#[trigger] chunks[i]).len() > 0,
        t.received.len() + chunks.flatten().len() <= FRAME_CAPACITY,
        frame_complete(t.received + chunks.flatten(), t.terminator),
    ensures
        feed(t, chunks).received == t.received + chunks.flatten(),
        decide(feed(t, chunks), elapsed) == Step::Finish(Outcome::Complete),
        frame_complete(feed(t, chunks).received, t.terminator),
        forall|k: int, e: nat|
            0 <= k < chunks.len() && e < t.deadline && !frame_complete(
                #[trigger] feed(t, chunks.take(k)).received,
                t.terminator,
            ) ==> (#[trigger] decide(feed(t, chunks.take(k)), e)) is Read,
{
    lemma_timeout_returns_bytes_so_far(t, chunks, elapsed);
    assert forall|k: int, e: nat|
        0 <= k < chunks.len() && e < t.deadline && !frame_complete(
            #[trigger] feed(t, chunks.take(k)).received,
            t.terminator,
        ) implies (#[trigger] decide(feed(t, chunks.take(k)), e)) is Read by {
        let pre = chunks.take(k);
        let post = chunks.skip(k);
        assert(chunks =~= pre + post);
        lemma_flatten_concat(pre, post);
        assert(post[0] == chunks[k]);
        assert(post.flatten().len() >= 1);
        assert forall|i: int| 0 <= i < pre.len() implies (#[trigger] pre[i]).len() > 0 by {
            assert(pre[i] == chunks[i]);
        }
        lemma_timeout_returns_bytes_so_far(t, pre, e);
    }
}

/// While the buffer is shorter than the terminator, the transaction never
/// counts as complete.
pub proof fn lemma_short_buffer_not_complete(t: TransactionView, elapsed: nat)
    requires
        t.finished is None,
        t.received.len() < t.terminator.len(),
    ensures
        decide(t, elapsed) != Step::Finish(Outcome::Complete),
{
}

} // verus!
