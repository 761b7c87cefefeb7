use serial_relay::{
    decode_payload, Coordinator, Directive, EmptyPolicy, ForwardStep, Forwarder, Outcome,
    PollAction, Poller, ReadEvent, RunState, Step, SupervisorEvent, RELAY_CAPACITY,
};
use tokio::sync::mpsc::error::TrySendError;

const DEADLINE: u64 = 100_000;

fn next_command(p: &mut Poller, cancelled: bool) -> Option<u8> {
    match p.next_action(cancelled) {
        PollAction::Transact(t) => Some(t.command()),
        PollAction::Stop => None,
    }
}

#[test]
fn commands_go_round_robin() {
    let mut p = Poller::new("A", vec![5, 6, 7, 8], b"\n".to_vec(), DEADLINE, EmptyPolicy::Forward);
    let got: Vec<Option<u8>> = (0..6).map(|_| next_command(&mut p, false)).collect();
    assert_eq!(got, vec![Some(5), Some(6), Some(7), Some(8), Some(5), Some(6)]);
}

#[test]
fn cancellation_stops_polling_for_good() {
    let mut p = Poller::new("A", vec![5, 6], b"\n".to_vec(), DEADLINE, EmptyPolicy::Forward);
    assert_eq!(next_command(&mut p, false), Some(5));
    assert_eq!(next_command(&mut p, true), None);
    assert!(p.is_stopped());
    assert_eq!(next_command(&mut p, false), None);
}

#[test]
fn empty_command_set_stops() {
    let mut p = Poller::new("A", vec![], b"\n".to_vec(), DEADLINE, EmptyPolicy::Forward);
    assert_eq!(next_command(&mut p, false), None);
}

#[test]
fn queue_closed_stops_poller() {
    let mut p = Poller::new("A", vec![5], b"\n".to_vec(), DEADLINE, EmptyPolicy::Forward);
    p.stop();
    assert_eq!(next_command(&mut p, false), None);
}

fn run_silent(p: &mut Poller) -> serial_relay::Capture {
    match p.next_action(false) {
        PollAction::Transact(mut t) => {
            t.on_read(ReadEvent::TimedOut);
            t.finish(DEADLINE)
        }
        PollAction::Stop => panic!("poller stopped"),
    }
}

#[test]
fn empty_policy_decides_envelope() {
    let mut fwd = Poller::new("A", vec![5], b"\n".to_vec(), DEADLINE, EmptyPolicy::Forward);
    let c = run_silent(&mut fwd);
    let e = fwd.envelope_for(&c).unwrap();
    assert_eq!(e.payload(), "");
    assert_eq!(e.duration_micros(), DEADLINE);

    let mut sup = Poller::new("A", vec![5], b"\n".to_vec(), DEADLINE, EmptyPolicy::Suppress);
    let c = run_silent(&mut sup);
    assert!(sup.envelope_for(&c).is_none());
}

#[test]
fn two_ports_one_replies_one_silent() {
    let mut a = Poller::new("A", vec![0x5], b"\n".to_vec(), DEADLINE, EmptyPolicy::Forward);
    let mut b = Poller::new("B", vec![0x5], b"\n".to_vec(), DEADLINE, EmptyPolicy::Forward);

    let ca = match a.next_action(false) {
        PollAction::Transact(mut t) => {
            assert_eq!(t.command(), 0x5);
            t.on_read(ReadEvent::Data(b"ok\n".to_vec()));
            assert_eq!(t.next_step(10_000), Step::Finish(Outcome::Complete));
            t.finish(10_000)
        }
        PollAction::Stop => panic!("poller stopped"),
    };
    let cb = match b.next_action(false) {
        PollAction::Transact(mut t) => {
            assert!(matches!(t.next_step(0), Step::Read { .. }));
            t.on_read(ReadEvent::TimedOut);
            assert_eq!(t.next_step(DEADLINE), Step::Finish(Outcome::TimedOut));
            t.finish(DEADLINE)
        }
        PollAction::Stop => panic!("poller stopped"),
    };
    assert_eq!(cb.outcome, Outcome::TimedOut);

    let ea = a.envelope_for(&ca).unwrap();
    let eb = b.envelope_for(&cb).unwrap();
    assert_eq!(decode_payload(ea.payload()), Some(b"ok\n".to_vec()));
    assert_eq!(ea.duration_micros(), 10_000);
    assert_eq!(decode_payload(eb.payload()), Some(Vec::new()));
    assert_eq!(eb.duration_micros(), DEADLINE);

    let wa = ea.to_wire();
    let wb = eb.to_wire();
    assert_ne!(wa, wb);
    let mut f = Forwarder::new();
    assert_eq!(f.after_dequeue(true), ForwardStep::Transmit);
    assert_eq!(f.after_transmit(true), ForwardStep::Dequeue);
    assert_eq!(f.after_dequeue(true), ForwardStep::Transmit);
    assert_eq!(f.after_transmit(true), ForwardStep::Dequeue);
    assert_eq!(f.sent(), 2);
}

#[test]
fn forwarder_continues_after_transmit_failures() {
    let mut f = Forwarder::new();
    for _ in 0..5 {
        assert_eq!(f.after_dequeue(true), ForwardStep::Transmit);
        assert_eq!(f.after_transmit(false), ForwardStep::Dequeue);
    }
    assert_eq!(f.failed(), 5);
    assert_eq!(f.sent(), 0);
    assert_eq!(f.after_dequeue(false), ForwardStep::Stop);
}

#[test]
fn cancellation_reaches_stopped() {
    let mut c = Coordinator::new();
    assert_eq!(c.state(), RunState::Running);
    assert!(c.may_start_transaction());
    assert_eq!(c.on_event(SupervisorEvent::CancelSignal), Directive::TearDown);
    assert_eq!(c.state(), RunState::Stopped);
    assert!(!c.may_start_transaction());
    c.on_event(SupervisorEvent::PipelineEnded);
    assert_eq!(c.state(), RunState::Stopped);

    let mut p = Poller::new("A", vec![5], b"\n".to_vec(), DEADLINE, EmptyPolicy::Forward);
    assert_eq!(next_command(&mut p, !c.may_start_transaction()), None);
}

#[test]
fn relay_queue_keeps_order_per_producer() {
    let (tx, mut rx) = tokio::sync::mpsc::channel::<Vec<u8>>(RELAY_CAPACITY);
    let tx2 = tx.clone();
    for i in 0..10u8 {
        tx.try_send(vec![0, i]).unwrap();
        tx2.try_send(vec![1, i]).unwrap();
    }
    let mut seen: [Vec<u8>; 2] = [Vec::new(), Vec::new()];
    while let Ok(item) = rx.try_recv() {
        seen[item[0] as usize].push(item[1]);
    }
    let want: Vec<u8> = (0..10).collect();
    assert_eq!(seen[0], want);
    assert_eq!(seen[1], want);
}

#[test]
fn full_relay_queue_refuses_until_drained() {
    let (tx, mut rx) = tokio::sync::mpsc::channel::<u8>(1);
    let tx2 = tx.clone();
    tx.try_send(1).unwrap();
    assert!(matches!(tx2.try_send(2), Err(TrySendError::Full(2))));
    assert_eq!(rx.try_recv().unwrap(), 1);
    tx2.try_send(2).unwrap();
    assert_eq!(rx.try_recv().unwrap(), 2);
}
