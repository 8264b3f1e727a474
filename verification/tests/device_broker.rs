use vibe_core::device::broker::{LeaseHolder, PortBroker};

#[test]
fn an_unheld_port_is_free_to_acquire() {
    let mut broker = PortBroker::new();
    assert_eq!(broker.current_holder("COM3"), None);
    let lease = broker.acquire("COM3", LeaseHolder::Monitor, false).expect("acquire");
    assert_eq!(broker.current_holder("COM3"), Some(LeaseHolder::Monitor));
    broker.release(lease);
    assert_eq!(broker.current_holder("COM3"), None);
}

#[test]
fn a_held_port_refuses_a_second_lease_without_preempt() {
    let mut broker = PortBroker::new();
    let _lease = broker.acquire("COM3", LeaseHolder::Monitor, false).expect("acquire");
    let err = broker.acquire("COM3", LeaseHolder::Upload, false).unwrap_err();
    assert_eq!(err.held_by, LeaseHolder::Monitor);
}

#[test]
fn preempt_grants_the_lease_regardless_of_the_current_holder() {
    let mut broker = PortBroker::new();
    let _lease = broker.acquire("COM3", LeaseHolder::Monitor, false).expect("acquire");
    let upload_lease = broker.acquire("COM3", LeaseHolder::Upload, true).expect("preempt");
    assert_eq!(broker.current_holder("COM3"), Some(LeaseHolder::Upload));
    broker.release(upload_lease);
    assert_eq!(broker.current_holder("COM3"), None);
}

#[test]
fn different_ports_are_independent() {
    let mut broker = PortBroker::new();
    let _a = broker.acquire("COM3", LeaseHolder::Monitor, false).expect("acquire COM3");
    let _b = broker.acquire("COM4", LeaseHolder::Upload, false).expect("acquire COM4");
    assert_eq!(broker.current_holder("COM3"), Some(LeaseHolder::Monitor));
    assert_eq!(broker.current_holder("COM4"), Some(LeaseHolder::Upload));
}

#[test]
fn dropping_one_lease_does_not_affect_a_lease_on_another_port() {
    let mut broker = PortBroker::new();
    let a = broker.acquire("COM3", LeaseHolder::Monitor, false).expect("acquire COM3");
    let _b = broker.acquire("COM4", LeaseHolder::Upload, false).expect("acquire COM4");
    broker.release(a);
    assert_eq!(broker.current_holder("COM3"), None);
    assert_eq!(broker.current_holder("COM4"), Some(LeaseHolder::Upload));
}

#[test]
fn a_lease_names_its_port() {
    let mut broker = PortBroker::new();
    let lease = broker.acquire("/dev/ttyUSB0", LeaseHolder::Telemetry, false).unwrap();
    assert_eq!(lease.port(), "/dev/ttyUSB0");
}
