use proxy_forward::address::SocketAddress;
use proxy_forward::error::Error;
use proxy_forward::listener::{ListenerUnit, UnitAction, UnitEvent, UnitState};
use proxy_forward::resolver::ForwardingRule;

fn v4(a: u8, b: u8, c: u8, d: u8, port: u16) -> SocketAddress {
    SocketAddress::v4([a, b, c, d], port)
}

fn rule() -> ForwardingRule {
    ForwardingRule::new(v4(0, 0, 0, 0, 80), v4(127, 0, 0, 1, 8080)).unwrap()
}

fn running() -> ListenerUnit {
    let mut unit = ListenerUnit::new(rule());
    unit.handle(UnitEvent::BindSucceeded);
    unit.handle(UnitEvent::ContextStarted);
    unit
}

fn accepted() -> UnitEvent {
    UnitEvent::Accepted { client: v4(203, 0, 113, 5, 51234), local: v4(192, 0, 2, 1, 80) }
}

fn every_event() -> Vec<UnitEvent> {
    vec![
        UnitEvent::BindSucceeded,
        UnitEvent::BindFailed,
        UnitEvent::ContextStarted,
        UnitEvent::ContextFailed,
        accepted(),
        UnitEvent::AcceptFailed { cause: "reset".to_string() },
        UnitEvent::StopRequested,
        UnitEvent::StopChannelClosed,
        UnitEvent::ConnectionEnded,
    ]
}

#[test]
fn unit_goes_from_created_to_running() {
    let mut unit = ListenerUnit::new(rule());
    assert_eq!(unit.state(), UnitState::Created);
    assert_eq!(unit.rule(), rule());
    assert_eq!(unit.handle(UnitEvent::BindSucceeded), UnitAction::StartContext);
    assert_eq!(unit.state(), UnitState::Bound);
    assert_eq!(unit.handle(UnitEvent::ContextStarted), UnitAction::Accept);
    assert_eq!(unit.state(), UnitState::Running);
    assert_eq!(unit.rule(), rule());
}

#[test]
fn bind_failure_stops_the_unit_with_the_address() {
    let mut unit = ListenerUnit::new(rule());
    assert_eq!(
        unit.handle(UnitEvent::BindFailed),
        UnitAction::Fail { error: Error::Bind { addr: "0.0.0.0:80".to_string() } }
    );
    assert_eq!(unit.state(), UnitState::Stopped);
}

#[test]
fn context_failure_stops_the_unit() {
    let mut unit = ListenerUnit::new(rule());
    unit.handle(UnitEvent::BindSucceeded);
    assert_eq!(unit.handle(UnitEvent::ContextFailed), UnitAction::Fail { error: Error::ThreadStart });
    assert_eq!(unit.state(), UnitState::Stopped);
}

#[test]
fn running_unit_serves_each_client_and_goes_on() {
    let mut unit = running();
    for served in 0..3 {
        assert_eq!(unit.in_flight(), served);
        assert_eq!(
            unit.handle(accepted()),
            UnitAction::Serve {
                client: v4(203, 0, 113, 5, 51234),
                local: v4(192, 0, 2, 1, 80),
                target: v4(127, 0, 0, 1, 8080),
            }
        );
        assert_eq!(unit.state(), UnitState::Running);
    }
}

#[test]
fn accept_failure_stops_the_unit_with_its_cause() {
    let mut unit = running();
    assert_eq!(
        unit.handle(UnitEvent::AcceptFailed { cause: "too many open files".to_string() }),
        UnitAction::Fail { error: Error::Listen { cause: "too many open files".to_string() } }
    );
    assert_eq!(unit.state(), UnitState::Stopped);
}

#[test]
fn stop_request_stops_a_running_unit_for_good() {
    let mut unit = running();
    unit.handle(accepted());
    unit.handle(accepted());
    assert_eq!(unit.handle(UnitEvent::StopRequested), UnitAction::StopAccepting);
    assert_eq!(unit.state(), UnitState::Stopped);
    for event in every_event() {
        assert_eq!(unit.handle(event), UnitAction::Ignore);
        assert_eq!(unit.state(), UnitState::Stopped);
    }
}

#[test]
fn closed_stop_channel_stops_a_running_unit() {
    let mut unit = running();
    assert_eq!(
        unit.handle(UnitEvent::StopChannelClosed),
        UnitAction::Fail { error: Error::ChannelCancelled }
    );
    assert_eq!(unit.state(), UnitState::Stopped);
}

#[test]
fn events_out_of_place_change_nothing() {
    let mut unit = ListenerUnit::new(rule());
    for event in every_event() {
        if event != UnitEvent::BindSucceeded && event != UnitEvent::BindFailed {
            assert_eq!(unit.handle(event), UnitAction::Ignore);
            assert_eq!(unit.state(), UnitState::Created);
        }
    }
    unit.handle(UnitEvent::BindSucceeded);
    for event in every_event() {
        if event != UnitEvent::ContextStarted && event != UnitEvent::ContextFailed {
            assert_eq!(unit.handle(event), UnitAction::Ignore);
            assert_eq!(unit.state(), UnitState::Bound);
        }
    }
    unit.handle(UnitEvent::ContextStarted);
    for event in vec![
        UnitEvent::BindSucceeded,
        UnitEvent::BindFailed,
        UnitEvent::ContextStarted,
        UnitEvent::ContextFailed,
    ] {
        assert_eq!(unit.handle(event), UnitAction::Ignore);
        assert_eq!(unit.state(), UnitState::Running);
    }
}

#[test]
fn stopped_unit_is_left_after_its_last_connection() {
    let mut unit = running();
    unit.handle(accepted());
    unit.handle(accepted());
    unit.handle(accepted());
    assert_eq!(unit.handle(UnitEvent::ConnectionEnded), UnitAction::Ignore);
    assert_eq!(unit.in_flight(), 2);
    assert_eq!(unit.state(), UnitState::Running);
    assert!(!unit.may_exit());
    assert_eq!(unit.handle(UnitEvent::StopRequested), UnitAction::StopAccepting);
    assert_eq!(unit.in_flight(), 2);
    assert!(!unit.may_exit());
    assert_eq!(unit.handle(accepted()), UnitAction::Ignore);
    assert_eq!(unit.in_flight(), 2);
    unit.handle(UnitEvent::ConnectionEnded);
    assert!(!unit.may_exit());
    unit.handle(UnitEvent::ConnectionEnded);
    assert_eq!(unit.in_flight(), 0);
    assert!(unit.may_exit());
    unit.handle(UnitEvent::ConnectionEnded);
    assert_eq!(unit.in_flight(), 0);
    assert!(unit.may_exit());
}

#[test]
fn unit_without_connections_is_left_as_soon_as_it_stops() {
    let mut unit = running();
    assert!(!unit.may_exit());
    unit.handle(UnitEvent::StopRequested);
    assert!(unit.may_exit());
    let mut unit = ListenerUnit::new(rule());
    assert!(!unit.may_exit());
    unit.handle(UnitEvent::BindFailed);
    assert!(unit.may_exit());
}
