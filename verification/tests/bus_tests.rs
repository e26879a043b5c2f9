//! The status bus: fan-out and the worker's reactions.

use std::sync::mpsc;
use voxtype_ctl::bus::{fan_out, stopped_line, bus_step, BusAction, BusEvent};
use voxtype_ctl::status_class;

#[test]
fn fan_out_delivers_to_all() {
    let (tx1, rx1) = mpsc::channel();
    let (tx2, rx2) = mpsc::channel();
    let senders = vec![tx1, tx2];

    assert!(fan_out(&senders, "hello".into()));
    assert_eq!(rx1.recv().unwrap(), "hello");
    assert_eq!(rx2.recv().unwrap(), "hello");
}

#[test]
fn fan_out_partial_disconnect() {
    let (tx1, rx1) = mpsc::channel();
    let (tx2, _rx2) = mpsc::channel();
    // Drop _rx2 so tx2 is disconnected
    drop(_rx2);
    let senders = vec![tx1, tx2];

    assert!(fan_out(&senders, "test".into()));
    assert_eq!(rx1.recv().unwrap(), "test");
}

#[test]
fn fan_out_all_disconnected() {
    let (tx1, _rx1) = mpsc::channel::<String>();
    let (tx2, _rx2) = mpsc::channel::<String>();
    drop(_rx1);
    drop(_rx2);
    let senders = vec![tx1, tx2];

    assert!(!fan_out(&senders, "gone".into()));
}

#[test]
fn fan_out_empty_senders() {
    let senders: Vec<mpsc::Sender<String>> = vec![];
    assert!(!fan_out(&senders, "nope".into()));
}

#[test]
fn stopped_line_is_the_synthetic_record() {
    let line = stopped_line();
    assert_eq!(line, r#"{"class":"stopped"}"#);
    assert_eq!(status_class(&line).as_deref(), Some("stopped"));
}

#[test]
fn bus_reacts_to_each_event() {
    match bus_step(BusEvent::SpawnFailed) {
        BusAction::Retry { wait_secs } => assert_eq!(wait_secs, 5),
        _ => panic!("a failed spawn must wait and retry"),
    }
    match bus_step(BusEvent::Line("{\"class\":\"idle\"}".to_string())) {
        BusAction::Deliver { line } => assert_eq!(line, "{\"class\":\"idle\"}"),
        _ => panic!("a line must be delivered unchanged"),
    }
    match bus_step(BusEvent::StreamEnded) {
        BusAction::DeliverStoppedThenRetry { line, wait_secs } => {
            assert_eq!(line, r#"{"class":"stopped"}"#);
            assert_eq!(wait_secs, 2);
        },
        _ => panic!("a dead stream must yield one synthetic stop, then retry"),
    }
}

#[test]
fn two_subscribers_see_idle_then_stopped() {
    // the subprocess emits one idle line, then dies: both consumers receive
    // the idle line and then exactly one synthetic stopped line, and the
    // worker waits two seconds before respawning
    let (tx1, rx1) = mpsc::channel();
    let (tx2, rx2) = mpsc::channel();
    let senders = vec![tx1, tx2];

    let first = match bus_step(BusEvent::Line("{\"class\":\"idle\"}".to_string())) {
        BusAction::Deliver { line } => line,
        _ => panic!("line events deliver"),
    };
    assert!(fan_out(&senders, first));

    let wait = match bus_step(BusEvent::StreamEnded) {
        BusAction::DeliverStoppedThenRetry { line, wait_secs } => {
            assert!(fan_out(&senders, line));
            wait_secs
        },
        _ => panic!("stream end delivers the stop"),
    };
    assert_eq!(wait, 2);

    for rx in [rx1, rx2] {
        assert_eq!(rx.recv().unwrap(), "{\"class\":\"idle\"}");
        assert_eq!(rx.recv().unwrap(), "{\"class\":\"stopped\"}");
        assert!(rx.try_recv().is_err(), "exactly one stop line per consumer");
    }
}
