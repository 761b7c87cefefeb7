use serial_relay::{ends_with_terminator, Outcome, ReadEvent, Step, Transaction, FRAME_CAPACITY};

const DEADLINE: u64 = 100_000;

#[test]
fn terminator_matching() {
    assert!(ends_with_terminator(b"ok\n", b"\n"));
    assert!(ends_with_terminator(b"ok\r\n", b"\r\n"));
    assert!(!ends_with_terminator(b"ok", b"\n"));
    assert!(!ends_with_terminator(b"\n", b"\r\n"));
    assert!(!ends_with_terminator(b"", b"\n"));
    assert!(!ends_with_terminator(b"\nx", b"\n"));
}

#[test]
fn short_buffer_never_matches() {
    assert!(!ends_with_terminator(b"\n", b"\n\n"));
    let mut t = Transaction::new(5, b"\r\n".to_vec(), DEADLINE);
    t.on_read(ReadEvent::Data(b"\n".to_vec()));
    assert!(matches!(t.next_step(10), Step::Read { .. }));
}

#[test]
fn fresh_transaction_reads_with_full_budget() {
    let t = Transaction::new(5, b"\n".to_vec(), DEADLINE);
    assert_eq!(t.command(), 5);
    assert_eq!(
        t.next_step(0),
        Step::Read { budget_micros: DEADLINE, room: FRAME_CAPACITY }
    );
    assert_eq!(
        t.next_step(40_000),
        Step::Read { budget_micros: 60_000, room: FRAME_CAPACITY }
    );
}

#[test]
fn terminated_response_completes_before_deadline() {
    let mut t = Transaction::new(5, b"\n".to_vec(), DEADLINE);
    t.on_read(ReadEvent::Data(b"o".to_vec()));
    assert_eq!(
        t.next_step(5_000),
        Step::Read { budget_micros: 95_000, room: FRAME_CAPACITY - 1 }
    );
    t.on_read(ReadEvent::Data(b"k\n".to_vec()));
    assert_eq!(t.next_step(10_000), Step::Finish(Outcome::Complete));
    let c = t.finish(10_000);
    assert_eq!(c.bytes, b"ok\n".to_vec());
    assert_eq!(c.outcome, Outcome::Complete);
    assert_eq!(c.elapsed_micros, 10_000);
    assert_eq!(c.command, 5);
}

#[test]
fn silent_device_times_out_with_empty_result() {
    let mut t = Transaction::new(6, b"\n".to_vec(), DEADLINE);
    t.on_read(ReadEvent::TimedOut);
    assert_eq!(t.next_step(DEADLINE), Step::Finish(Outcome::TimedOut));
    let c = t.finish(DEADLINE);
    assert!(c.bytes.is_empty());
    assert_eq!(c.outcome, Outcome::TimedOut);
}

#[test]
fn deadline_keeps_partial_frame() {
    let mut t = Transaction::new(6, b"\n".to_vec(), DEADLINE);
    t.on_read(ReadEvent::Data(b"par".to_vec()));
    t.on_read(ReadEvent::Data(b"tial".to_vec()));
    assert_eq!(t.next_step(DEADLINE + 1), Step::Finish(Outcome::TimedOut));
    let c = t.finish(DEADLINE + 1);
    assert_eq!(c.bytes, b"partial".to_vec());
}

#[test]
fn read_timeout_event_keeps_partial_frame() {
    let mut t = Transaction::new(6, b"\n".to_vec(), DEADLINE);
    t.on_read(ReadEvent::Data(b"ab".to_vec()));
    t.on_read(ReadEvent::TimedOut);
    t.on_read(ReadEvent::Data(b"late".to_vec()));
    assert_eq!(t.next_step(50_000), Step::Finish(Outcome::TimedOut));
    assert_eq!(t.received(), b"ab");
}

#[test]
fn end_of_data_and_read_failure_end_early() {
    let mut t = Transaction::new(7, b"\n".to_vec(), DEADLINE);
    t.on_read(ReadEvent::Data(b"x".to_vec()));
    t.on_read(ReadEvent::Data(Vec::new()));
    assert_eq!(t.next_step(1), Step::Finish(Outcome::EndOfData));
    assert_eq!(t.finish(1).bytes, b"x".to_vec());

    let mut t = Transaction::new(7, b"\n".to_vec(), DEADLINE);
    t.on_read(ReadEvent::Data(b"y".to_vec()));
    t.on_read(ReadEvent::Failed);
    assert_eq!(t.next_step(1), Step::Finish(Outcome::ReadFailed));
    assert_eq!(t.finish(1).bytes, b"y".to_vec());
}

#[test]
fn write_failure_abandons_with_empty_result() {
    let mut t = Transaction::new(8, b"\n".to_vec(), DEADLINE);
    t.write_failed();
    assert_eq!(t.next_step(0), Step::Finish(Outcome::WriteFailed));
    let c = t.finish(0);
    assert!(c.bytes.is_empty());
    assert_eq!(c.outcome, Outcome::WriteFailed);
}

#[test]
fn full_buffer_ends_the_transaction() {
    let mut t = Transaction::new(5, b"\n".to_vec(), DEADLINE);
    t.on_read(ReadEvent::Data(vec![b'a'; FRAME_CAPACITY + 10]));
    assert_eq!(t.received().len(), FRAME_CAPACITY);
    assert_eq!(t.next_step(1), Step::Finish(Outcome::EndOfData));
}
