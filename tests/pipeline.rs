use std::time::Duration;
use thermo::channel::{channel, SafeSendError};
use thermo::ds28ea00::Temperature;
use thermo::fingerprint::fingerprint;
use thermo::producer::{
    acquire, bring_up, overdrive_failed, producer_group, producer_step, ProducerAction, ProducerEvent,
    ProducerPhase,
};
use thermo::onewire::OneWireError;
use thermo::sim::{SimBus, SimDelay};
use thermo::sink::{sink_step, SinkAction, SinkEvent, SinkPhase};

#[test]
fn closed_gate_refuses_pushes() {
    let (tx, rx) = channel::<u32>();
    rx.set_ready(false);
    assert!(!tx.is_ready());
    assert!(matches!(tx.send(1), Err(SafeSendError::NotReady)));
    assert!(rx.receiver().try_recv().is_err());
}

#[test]
fn open_gate_delivers_pushes_in_order() {
    let (tx, rx) = channel::<u32>();
    rx.set_ready(true);
    let tx2 = tx.clone();
    assert!(tx.send(1).is_ok());
    assert!(tx2.send(2).is_ok());
    assert!(tx.send(3).is_ok());
    let r = rx.receiver();
    assert_eq!(r.recv_timeout(Duration::from_secs(1)).unwrap(), 1);
    assert_eq!(r.recv_timeout(Duration::from_secs(1)).unwrap(), 2);
    assert_eq!(r.recv_timeout(Duration::from_secs(1)).unwrap(), 3);
}

#[test]
fn push_without_consumer_is_not_a_gate_refusal() {
    let (tx, rx) = channel::<u32>();
    drop(rx);
    assert!(matches!(tx.send(5), Err(SafeSendError::SendError(_))));
    assert!(matches!(tx.send_when(false, 5), Err(SafeSendError::NotReady)));
}

#[test]
fn sink_opens_gate_only_after_connecting() {
    assert_eq!(sink_step(SinkPhase::Connecting, SinkEvent::OpenFailed), (SinkPhase::Connecting, SinkAction::RetryOpen));
    assert_eq!(sink_step(SinkPhase::Connecting, SinkEvent::Opened), (SinkPhase::Serving, SinkAction::StartServing));
    assert_eq!(sink_step(SinkPhase::Serving, SinkEvent::PullTimedOut), (SinkPhase::Serving, SinkAction::Pull));
    assert_eq!(sink_step(SinkPhase::Serving, SinkEvent::Written), (SinkPhase::Serving, SinkAction::Pull));
    assert_eq!(sink_step(SinkPhase::Serving, SinkEvent::WriteFailed), (SinkPhase::Connecting, SinkAction::Reconnect));
    assert_eq!(sink_step(SinkPhase::Serving, SinkEvent::SourceGone), (SinkPhase::Stopped, SinkAction::Exit));
}

#[test]
fn producer_cycle_builds_an_excluding_batch() {
    let roms = vec![0x1106_0504_0302_0142u64, 0x2206_0504_0302_0242];
    let mut bus = SimBus::new(roms.clone(), vec![], vec![]);
    let mut delay = SimDelay::new();
    let mut group = producer_group(false);
    assert_eq!(bring_up(&mut group, &mut bus, &mut delay, true), Ok(2));
    let batch = acquire(&mut group, &mut bus, &mut delay, &[fingerprint(roms[0])]).unwrap();
    assert_eq!(batch, vec![(fingerprint(roms[1]), Temperature::from_bits(-1))]);
}

#[test]
fn overdrive_falls_back_only_when_no_device_answers() {
    assert!(overdrive_failed(Err(OneWireError::NoDevicePresent)));
    assert!(!overdrive_failed(Err(OneWireError::Other)));
    assert!(!overdrive_failed(Ok(())));
}

#[test]
fn bring_up_keeps_overdrive_when_devices_follow() {
    let mut bus = SimBus::new(vec![0x1106_0504_0302_0142], vec![], vec![]);
    let mut delay = SimDelay::new();
    let mut group = producer_group(true);
    assert_eq!(bring_up(&mut group, &mut bus, &mut delay, false), Ok(1));
    assert!(group.overdrive());
}

#[test]
fn bring_up_falls_back_when_no_device_answers_at_overdrive() {
    // enumerate with one device takes 8 events (search, found, 6 for the
    // configuration transaction); the switch to overdrive is event 8 and
    // the trial conversion starts with the reset at event 9.
    let mut bus = SimBus::new(vec![0x1106_0504_0302_0142], vec![], vec![9]);
    let mut delay = SimDelay::new();
    let mut group = producer_group(false);
    assert_eq!(bring_up(&mut group, &mut bus, &mut delay, false), Ok(1));
    assert!(!group.overdrive());
    assert!(delay.waited().is_empty());
    let log = bus.log().clone();
    assert_eq!(&log[log.len() - 3..], &[
        thermo::onewire::BusEvent::Speed(true),
        thermo::onewire::BusEvent::Fault(OneWireError::NoDevicePresent),
        thermo::onewire::BusEvent::Speed(false),
    ]);
}

#[test]
fn producer_restarts_only_on_start_failures_and_conversion_failures() {
    assert_eq!(producer_step(ProducerPhase::Starting, ProducerEvent::AdapterFailed), (ProducerPhase::Starting, ProducerAction::Restart));
    assert_eq!(producer_step(ProducerPhase::Starting, ProducerEvent::AdapterReady), (ProducerPhase::Starting, ProducerAction::BringUp));
    assert_eq!(producer_step(ProducerPhase::Starting, ProducerEvent::BringUpFailed), (ProducerPhase::Starting, ProducerAction::Restart));
    assert_eq!(producer_step(ProducerPhase::Starting, ProducerEvent::BroughtUp), (ProducerPhase::Reading, ProducerAction::NextCycle));
    assert_eq!(producer_step(ProducerPhase::Reading, ProducerEvent::BatchSent), (ProducerPhase::Reading, ProducerAction::NextCycle));
    assert_eq!(producer_step(ProducerPhase::Reading, ProducerEvent::BatchRefused), (ProducerPhase::Reading, ProducerAction::RetryCycle));
    assert_eq!(producer_step(ProducerPhase::Reading, ProducerEvent::ConversionFailed), (ProducerPhase::Starting, ProducerAction::Restart));
}
