//! A serial-to-datagram telemetry bridge, as verified logic.
//!
//! Each device transaction is a state machine ([`Transaction`]) that decides
//! when a response frame is complete, timed out or cut short; a [`Poller`]
//! cycles one device through a fixed command set; an [`Envelope`] carries a
//! captured response as base64 text and lays out its datagram, with the
//! elapsed time always in microseconds; the [`Forwarder`] and the
//! [`Coordinator`] decide what the relay and shutdown do next. The program
//! around the library performs the I/O and feeds each decision its events.

mod codec;
mod envelope;
mod forwarder;
mod frame;
mod poller;
mod selection;
mod shutdown;
mod transaction;

pub use codec::{
    b64_decode, b64_encode, decode_payload, encode_payload, is_canonical, lemma_round_trip,
    sextet_char, sextet_value,
};
pub use envelope::{
    ascii_bytes, decimal_bytes, json_quoted, wire_from_parts, wire_text, Envelope, EnvelopeView,
};
pub use forwarder::{
    after_failures, after_transmit, bump, dequeue_step, lemma_failed_transmit_continues,
    lemma_unreachable_sink_never_stalls, transmit_step,
    ForwardStep, Forwarder, ForwarderView, RELAY_CAPACITY,
};
pub use frame::{ends_with_terminator, frame_complete, lemma_short_buffer_never_matches};
pub use poller::{
    lemma_no_transaction_after_stop, lemma_round_robin, must_stop, poll_command, poll_next,
    poller_wf, yields_envelope, EmptyPolicy, PollAction, Poller, PollerView,
};
pub use selection::{
    all_digits, choices, digits_value, field_choice, is_digit, is_space, parse_usize,
    select_ports, selection, split_commas, trim, trim_end, trim_start,
};
pub use shutdown::{
    lemma_cancel_stops_polling, lemma_stopped_is_terminal, next_state, Coordinator, Directive,
    RunState, SupervisorEvent,
};
pub use transaction::{
    after_data, after_read, decide, feed, lemma_data_appends, lemma_deadline_keeps_partial_frame,
    lemma_short_buffer_not_complete, lemma_terminated_reads_complete,
    lemma_terminated_response_completes,
    lemma_timeout_returns_bytes_so_far, transaction_wf, Capture,
    Outcome, ReadEvent, Step, Transaction, TransactionView, FRAME_CAPACITY,
};
