use std::sync::mpsc;

use signal_notify::dispatch::{decode_numbers, delivered_count, fan_out};
use signal_notify::relay::{encode_record, RecordBuffer};
use signal_notify::{notify, notify_on, Registry, Signal};

/// Plays one occurrence of `s` through the relay as the handler and the
/// dispatch loop would, and returns how many endpoints it reached.
fn trigger(reg: &Registry<mpsc::Sender<Signal>>, buf: &mut RecordBuffer, s: Signal) -> usize {
    let numbers = buf.push_bytes(&encode_record(s.as_sig()));
    let signals = decode_numbers(&numbers).unwrap();
    let mut reached = 0;
    for sig in signals {
        let senders = reg.snapshot(sig);
        reached += delivered_count(&fan_out(&senders, sig));
    }
    reached
}

#[test]
fn new_registry_is_empty() {
    let reg: Registry<mpsc::Sender<Signal>> = Registry::new();
    assert_eq!(reg.endpoint_count(), 0);
    assert_eq!(reg.count(Signal::INT), 0);
    assert!(!reg.is_registered(Signal::INT));
    assert!(reg.snapshot(Signal::INT).is_empty());
}

#[test]
fn notify_registers_each_signal_once() {
    let mut reg = Registry::new();
    let _rx = notify(&mut reg, &[Signal::INT, Signal::HUP, Signal::INT]);
    assert_eq!(reg.endpoint_count(), 1);
    assert_eq!(reg.count(Signal::INT), 1);
    assert_eq!(reg.count(Signal::HUP), 1);
    assert_eq!(reg.count(Signal::TERM), 0);
    assert!(reg.is_registered(Signal::HUP));
    assert!(!reg.is_registered(Signal::TERM));
}

#[test]
fn notify_on_generic_endpoints() {
    let mut reg: Registry<u32> = Registry::new();
    notify_on(&mut reg, 7, &[Signal::INT]);
    notify_on(&mut reg, 9, &[Signal::INT, Signal::TERM]);
    notify_on(&mut reg, 11, &[]);
    assert_eq!(reg.snapshot(Signal::INT), vec![7, 9]);
    assert_eq!(reg.snapshot(Signal::TERM), vec![9]);
    assert_eq!(reg.snapshot(Signal::HUP), Vec::<u32>::new());
    assert_eq!(reg.endpoint_count(), 2);
}

#[test]
fn one_subscriber_observes_one_occurrence() {
    let mut reg = Registry::new();
    let mut buf = RecordBuffer::new();
    let rx = notify(&mut reg, &[Signal::INT]);
    assert_eq!(trigger(&reg, &mut buf, Signal::INT), 1);
    assert_eq!(rx.try_recv(), Ok(Signal::INT));
    assert!(rx.try_recv().is_err());
}

#[test]
fn unrelated_signal_is_not_delivered() {
    let mut reg = Registry::new();
    let mut buf = RecordBuffer::new();
    let rx = notify(&mut reg, &[Signal::INT]);
    assert_eq!(trigger(&reg, &mut buf, Signal::HUP), 0);
    assert!(rx.try_recv().is_err());
}

#[test]
fn two_subscribers_each_get_a_copy() {
    let mut reg = Registry::new();
    let mut buf = RecordBuffer::new();
    let rx1 = notify(&mut reg, &[Signal::INT]);
    let rx2 = notify(&mut reg, &[Signal::INT]);
    assert_eq!(trigger(&reg, &mut buf, Signal::INT), 2);
    assert_eq!(rx1.try_recv(), Ok(Signal::INT));
    assert_eq!(rx2.try_recv(), Ok(Signal::INT));
    assert!(rx1.try_recv().is_err());
    assert!(rx2.try_recv().is_err());
}

#[test]
fn one_subscriber_two_signals_in_order() {
    let mut reg = Registry::new();
    let mut buf = RecordBuffer::new();
    let rx = notify(&mut reg, &[Signal::INT, Signal::WINCH]);
    trigger(&reg, &mut buf, Signal::INT);
    trigger(&reg, &mut buf, Signal::WINCH);
    trigger(&reg, &mut buf, Signal::INT);
    assert_eq!(rx.try_recv(), Ok(Signal::INT));
    assert_eq!(rx.try_recv(), Ok(Signal::WINCH));
    assert_eq!(rx.try_recv(), Ok(Signal::INT));
    assert!(rx.try_recv().is_err());
}

#[test]
fn dropped_receiver_does_not_stop_others() {
    let mut reg = Registry::new();
    let mut buf = RecordBuffer::new();
    let gone = notify(&mut reg, &[Signal::USR1]);
    let live = notify(&mut reg, &[Signal::USR1]);
    drop(gone);
    assert_eq!(trigger(&reg, &mut buf, Signal::USR1), 1);
    assert_eq!(live.try_recv(), Ok(Signal::USR1));
    assert_eq!(trigger(&reg, &mut buf, Signal::USR1), 1);
    assert_eq!(live.try_recv(), Ok(Signal::USR1));
}

#[test]
fn fan_in_through_notify_on() {
    let mut reg = Registry::new();
    let mut buf = RecordBuffer::new();
    let (tx, rx) = mpsc::channel();
    notify_on(&mut reg, tx.clone(), &[Signal::INT]);
    notify_on(&mut reg, tx, &[Signal::TERM]);
    trigger(&reg, &mut buf, Signal::TERM);
    trigger(&reg, &mut buf, Signal::INT);
    assert_eq!(rx.try_recv(), Ok(Signal::TERM));
    assert_eq!(rx.try_recv(), Ok(Signal::INT));
    assert!(rx.try_recv().is_err());
}

#[test]
fn five_interrupts_in_sequence() {
    let mut reg = Registry::new();
    let mut buf = RecordBuffer::new();
    let rx = notify(&mut reg, &[Signal::INT]);
    for _ in 0..5 {
        assert_eq!(trigger(&reg, &mut buf, Signal::INT), 1);
        assert_eq!(rx.recv_timeout(std::time::Duration::from_secs(1)), Ok(Signal::INT));
    }
    assert!(rx.try_recv().is_err());
}

#[test]
fn fan_out_to_nobody() {
    let none: Vec<mpsc::Sender<Signal>> = Vec::new();
    assert_eq!(fan_out(&none, Signal::INT), Vec::<bool>::new());
}

#[test]
fn fan_out_reports_each_send() {
    let (tx1, rx1) = mpsc::channel();
    let (tx2, rx2) = mpsc::channel();
    let (tx3, rx3) = mpsc::channel();
    drop(rx2);
    let outcomes = fan_out(&vec![tx1, tx2, tx3], Signal::TERM);
    assert_eq!(outcomes, vec![true, false, true]);
    assert_eq!(delivered_count(&outcomes), 2);
    assert_eq!(rx1.try_recv(), Ok(Signal::TERM));
    assert_eq!(rx3.try_recv(), Ok(Signal::TERM));
}

#[test]
fn delivered_count_counts_successes() {
    assert_eq!(delivered_count(&vec![]), 0);
    assert_eq!(delivered_count(&vec![false, false]), 0);
    assert_eq!(delivered_count(&vec![true, false, true, true]), 3);
}

#[test]
fn notify_with_no_signal_registers_nothing() {
    let mut reg = Registry::new();
    let rx = notify(&mut reg, &[]);
    assert_eq!(reg.endpoint_count(), 0);
    assert_eq!(reg.count(Signal::INT), 0);
    assert_eq!(rx.recv(), Err(mpsc::RecvError));
}

#[test]
fn notify_on_with_no_signal_drops_the_sender() {
    let mut reg = Registry::new();
    let (tx, rx) = mpsc::channel::<Signal>();
    notify_on(&mut reg, tx, &[]);
    assert_eq!(reg.endpoint_count(), 0);
    assert!(rx.recv().is_err());
}
