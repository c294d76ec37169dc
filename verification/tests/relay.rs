use proxy_forward::relay::{Flow, Relay, RelayAction, RelayEvent, Side};

fn data(from: Side, bytes: &[u8]) -> RelayEvent {
    RelayEvent::Data { from, bytes: bytes.to_vec() }
}

/// Runs the events through a new relay, and gives what each endpoint was
/// written in all, with the relay at the end.
fn run(events: Vec<RelayEvent>) -> (Vec<u8>, Vec<u8>, Relay) {
    let mut relay = Relay::new();
    let mut to_client = Vec::new();
    let mut to_target = Vec::new();
    for event in events {
        match relay.step(event) {
            RelayAction::Write { to: Side::Client, bytes } => to_client.extend(bytes),
            RelayAction::Write { to: Side::Target, bytes } => to_target.extend(bytes),
            _ => {}
        }
    }
    (to_client, to_target, relay)
}

#[test]
fn new_relay_is_open_both_ways() {
    let relay = Relay::new();
    assert_eq!(relay, Relay { upstream: Flow::Open, downstream: Flow::Open });
    assert_eq!(relay.flow(Side::Client), Flow::Open);
    assert_eq!(relay.flow(Side::Target), Flow::Open);
    assert!(!relay.is_done());
    assert!(!relay.is_clean());
    assert_eq!(Side::Client.other(), Side::Target);
    assert_eq!(Side::Target.other(), Side::Client);
}

#[test]
fn bytes_are_written_to_the_other_endpoint() {
    let mut relay = Relay::new();
    assert_eq!(
        relay.step(data(Side::Client, b"GET /\r\n")),
        RelayAction::Write { to: Side::Target, bytes: b"GET /\r\n".to_vec() }
    );
    assert_eq!(
        relay.step(data(Side::Target, b"200 OK")),
        RelayAction::Write { to: Side::Client, bytes: b"200 OK".to_vec() }
    );
    assert_eq!(relay, Relay::new());
}

#[test]
fn payload_arrives_whole_and_in_order() {
    let (to_client, to_target, relay) = run(vec![
        data(Side::Client, b"one "),
        data(Side::Target, b"alpha "),
        data(Side::Client, b""),
        data(Side::Client, b"two "),
        data(Side::Target, b"beta"),
        data(Side::Client, b"three"),
        RelayEvent::End { from: Side::Client },
        data(Side::Target, b" gamma"),
        RelayEvent::End { from: Side::Target },
    ]);
    assert_eq!(to_target, b"one two three".to_vec());
    assert_eq!(to_client, b"alpha beta gamma".to_vec());
    assert!(relay.is_done());
    assert!(relay.is_clean());
}

#[test]
fn end_of_the_client_leaves_the_way_back_open() {
    let mut relay = Relay::new();
    assert_eq!(
        relay.step(RelayEvent::End { from: Side::Client }),
        RelayAction::ShutdownWrite { to: Side::Target }
    );
    assert_eq!(relay, Relay { upstream: Flow::Finished, downstream: Flow::Open });
    assert!(!relay.is_done());
    assert_eq!(
        relay.step(data(Side::Target, b"still here")),
        RelayAction::Write { to: Side::Client, bytes: b"still here".to_vec() }
    );
    assert_eq!(
        relay.step(RelayEvent::End { from: Side::Target }),
        RelayAction::ShutdownWrite { to: Side::Client }
    );
    assert_eq!(relay, Relay { upstream: Flow::Finished, downstream: Flow::Finished });
    assert!(relay.is_done());
    assert!(relay.is_clean());
}

#[test]
fn end_of_the_target_leaves_the_way_there_open() {
    let mut relay = Relay::new();
    assert_eq!(
        relay.step(RelayEvent::End { from: Side::Target }),
        RelayAction::ShutdownWrite { to: Side::Client }
    );
    assert!(!relay.is_done());
    assert_eq!(
        relay.step(data(Side::Client, b"more")),
        RelayAction::Write { to: Side::Target, bytes: b"more".to_vec() }
    );
}

#[test]
fn fault_of_one_direction_does_not_stop_the_other() {
    let mut relay = Relay::new();
    assert_eq!(relay.step(RelayEvent::Fault { from: Side::Client }), RelayAction::Nothing);
    assert_eq!(relay, Relay { upstream: Flow::Failed, downstream: Flow::Open });
    assert!(!relay.is_done());
    assert_eq!(
        relay.step(data(Side::Target, b"answer")),
        RelayAction::Write { to: Side::Client, bytes: b"answer".to_vec() }
    );
    assert_eq!(
        relay.step(RelayEvent::End { from: Side::Target }),
        RelayAction::ShutdownWrite { to: Side::Client }
    );
    assert!(relay.is_done());
    assert!(!relay.is_clean());
}

#[test]
fn closed_direction_takes_no_more_events() {
    let mut relay = Relay::new();
    relay.step(RelayEvent::End { from: Side::Client });
    assert_eq!(relay.step(data(Side::Client, b"late")), RelayAction::Nothing);
    assert_eq!(relay.step(RelayEvent::End { from: Side::Client }), RelayAction::Nothing);
    assert_eq!(relay, Relay { upstream: Flow::Finished, downstream: Flow::Open });
    relay.step(RelayEvent::Fault { from: Side::Target });
    assert_eq!(relay.step(data(Side::Target, b"late")), RelayAction::Nothing);
    assert_eq!(relay.step(RelayEvent::End { from: Side::Target }), RelayAction::Nothing);
    assert_eq!(relay, Relay { upstream: Flow::Finished, downstream: Flow::Failed });
    assert!(relay.is_done());
    assert!(!relay.is_clean());
}

#[test]
fn fault_after_the_end_of_a_direction_is_recorded() {
    let mut relay = Relay::new();
    assert_eq!(
        relay.step(RelayEvent::End { from: Side::Client }),
        RelayAction::ShutdownWrite { to: Side::Target }
    );
    assert_eq!(relay.step(RelayEvent::Fault { from: Side::Client }), RelayAction::Nothing);
    assert_eq!(relay, Relay { upstream: Flow::Failed, downstream: Flow::Open });
    assert_eq!(
        relay.step(data(Side::Target, b"answer")),
        RelayAction::Write { to: Side::Client, bytes: b"answer".to_vec() }
    );
    relay.step(RelayEvent::End { from: Side::Target });
    assert!(relay.is_done());
    assert!(!relay.is_clean());
    assert_eq!(relay.step(RelayEvent::Fault { from: Side::Client }), RelayAction::Nothing);
    assert_eq!(relay, Relay { upstream: Flow::Failed, downstream: Flow::Finished });
}
