use socks4::relay::{
    EndReason, RelayAction, RelayDirection, RelayEvent, RelayPair, Side, IDLE_TIMEOUT_SECS,
    RELAY_BUFFER_LEN,
};

/// What one wait for data on the source gives.
enum Source {
    Data(Vec<u8>),
    Closed,
    Idle,
    Failed,
}

/// How much of what it is offered a write takes; `None` is a failed write.
type Sink = Vec<Option<usize>>;

/// Drives one direction over scripted reads and writes, as a driver with
/// real sockets would. Returns the direction and what was delivered.
fn pump(reads: Vec<Source>, writes: Sink) -> (RelayDirection, Vec<u8>) {
    let mut direction = RelayDirection::new();
    let mut delivered = Vec::new();
    let mut buffer: Vec<u8> = Vec::new();
    let mut reads = reads.into_iter();
    let mut writes = writes.into_iter();
    loop {
        match direction.action() {
            RelayAction::Read => {
                let event = match reads.next().unwrap_or(Source::Idle) {
                    Source::Data(data) => {
                        buffer = data;
                        RelayEvent::Read(buffer.len())
                    }
                    Source::Closed => RelayEvent::Read(0),
                    Source::Idle => RelayEvent::IdleTimeout,
                    Source::Failed => RelayEvent::ReadFailed,
                };
                direction.step(event);
            }
            RelayAction::Write { from, to } => {
                let event = match writes.next().unwrap_or(Some(usize::MAX)) {
                    Some(room) => {
                        let n = room.min(to - from);
                        delivered.extend_from_slice(&buffer[from..from + n]);
                        RelayEvent::Written(n)
                    }
                    None => RelayEvent::WriteFailed,
                };
                direction.step(event);
            }
            RelayAction::Stop => return (direction, delivered),
        }
    }
}

#[test]
fn relay_constants() {
    assert_eq!(IDLE_TIMEOUT_SECS, 30);
    assert_eq!(RELAY_BUFFER_LEN, 8192);
}

#[test]
fn direction_starts_by_reading() {
    let direction = RelayDirection::new();
    assert_eq!(direction, RelayDirection::AwaitData);
    assert_eq!(direction.action(), RelayAction::Read);
    assert!(!direction.ended());
}

#[test]
fn direction_forwards_a_chunk_in_full() {
    let mut direction = RelayDirection::new();
    direction.step(RelayEvent::Read(4));
    assert_eq!(direction, RelayDirection::Forwarding { from: 0, to: 4 });
    assert_eq!(direction.action(), RelayAction::Write { from: 0, to: 4 });
    direction.step(RelayEvent::Written(4));
    assert_eq!(direction, RelayDirection::AwaitData);
    assert_eq!(direction.action(), RelayAction::Read);
}

#[test]
fn direction_writes_the_rest_after_a_partial_write() {
    let mut direction = RelayDirection::new();
    direction.step(RelayEvent::Read(10));
    direction.step(RelayEvent::Written(3));
    assert_eq!(direction.action(), RelayAction::Write { from: 3, to: 10 });
    direction.step(RelayEvent::Written(1));
    assert_eq!(direction.action(), RelayAction::Write { from: 4, to: 10 });
    direction.step(RelayEvent::Written(6));
    assert_eq!(direction.action(), RelayAction::Read);
    assert!(!direction.ended());
}

#[test]
fn direction_ends_on_closed_source() {
    let mut direction = RelayDirection::new();
    direction.step(RelayEvent::Read(0));
    assert_eq!(direction, RelayDirection::Ended(EndReason::PeerClosed));
    assert_eq!(direction.action(), RelayAction::Stop);
    assert!(direction.ended());
}

#[test]
fn direction_ends_on_idle_timeout() {
    let mut direction = RelayDirection::new();
    direction.step(RelayEvent::IdleTimeout);
    assert_eq!(direction, RelayDirection::Ended(EndReason::IdleTimeout));
    assert_eq!(direction.action(), RelayAction::Stop);
}

#[test]
fn direction_ends_on_failures() {
    let mut read_failed = RelayDirection::new();
    read_failed.step(RelayEvent::ReadFailed);
    assert_eq!(read_failed, RelayDirection::Ended(EndReason::TransportError));

    let mut write_failed = RelayDirection::new();
    write_failed.step(RelayEvent::Read(5));
    write_failed.step(RelayEvent::WriteFailed);
    assert_eq!(write_failed, RelayDirection::Ended(EndReason::TransportError));

    let mut stalled = RelayDirection::new();
    stalled.step(RelayEvent::Read(5));
    stalled.step(RelayEvent::Written(0));
    assert_eq!(stalled, RelayDirection::Ended(EndReason::TransportError));

    let mut overrun = RelayDirection::new();
    overrun.step(RelayEvent::Read(5));
    overrun.step(RelayEvent::Written(2));
    overrun.step(RelayEvent::Written(4));
    assert_eq!(overrun, RelayDirection::Ended(EndReason::TransportError));
}

#[test]
fn direction_ends_on_events_out_of_place() {
    for event in [RelayEvent::Written(1), RelayEvent::WriteFailed] {
        let mut direction = RelayDirection::new();
        direction.step(event);
        assert_eq!(direction, RelayDirection::Ended(EndReason::TransportError));
    }
    for event in [RelayEvent::Read(1), RelayEvent::Read(0), RelayEvent::IdleTimeout] {
        let mut direction = RelayDirection::Forwarding { from: 1, to: 3 };
        direction.step(event);
        assert_eq!(direction, RelayDirection::Ended(EndReason::TransportError));
    }
    let mut upside_down = RelayDirection::Forwarding { from: 3, to: 1 };
    upside_down.step(RelayEvent::Written(1));
    assert_eq!(upside_down, RelayDirection::Ended(EndReason::TransportError));
}

#[test]
fn ended_direction_stays_ended() {
    let events = [
        RelayEvent::Read(7),
        RelayEvent::Read(0),
        RelayEvent::IdleTimeout,
        RelayEvent::ReadFailed,
        RelayEvent::Written(7),
        RelayEvent::WriteFailed,
    ];
    for reason in [EndReason::PeerClosed, EndReason::IdleTimeout, EndReason::TransportError] {
        for event in events {
            let mut direction = RelayDirection::Ended(reason);
            direction.step(event);
            assert_eq!(direction, RelayDirection::Ended(reason));
            assert_eq!(direction.action(), RelayAction::Stop);
        }
    }
}

#[test]
fn pump_delivers_all_chunks_in_order() {
    let (direction, delivered) = pump(
        vec![
            Source::Data(vec![1, 2, 3]),
            Source::Data(vec![4]),
            Source::Data(vec![5, 6, 7, 8, 9]),
            Source::Closed,
        ],
        vec![],
    );
    assert_eq!(direction, RelayDirection::Ended(EndReason::PeerClosed));
    assert_eq!(delivered, vec![1, 2, 3, 4, 5, 6, 7, 8, 9]);
}

#[test]
fn pump_delivers_all_chunks_through_partial_writes() {
    let (direction, delivered) = pump(
        vec![Source::Data(vec![1, 2, 3, 4, 5]), Source::Data(vec![6, 7, 8]), Source::Idle],
        vec![Some(2), Some(1), Some(9), Some(1), Some(1), Some(1)],
    );
    assert_eq!(direction, RelayDirection::Ended(EndReason::IdleTimeout));
    assert_eq!(delivered, vec![1, 2, 3, 4, 5, 6, 7, 8]);
}

#[test]
fn pump_delivers_a_prefix_when_a_write_fails() {
    let (direction, delivered) = pump(
        vec![Source::Data(vec![1, 2, 3, 4, 5]), Source::Data(vec![6, 7, 8]), Source::Closed],
        vec![Some(5), Some(2), None],
    );
    assert_eq!(direction, RelayDirection::Ended(EndReason::TransportError));
    assert_eq!(delivered, vec![1, 2, 3, 4, 5, 6, 7]);
}

#[test]
fn pump_stops_reading_once_the_source_failed() {
    let (direction, delivered) =
        pump(vec![Source::Data(vec![1]), Source::Failed, Source::Data(vec![2])], vec![]);
    assert_eq!(direction, RelayDirection::Ended(EndReason::TransportError));
    assert_eq!(delivered, vec![1]);
}

#[test]
fn source_that_closes_at_once_delivers_nothing() {
    let (quiet, to_target) = pump(vec![Source::Closed, Source::Data(vec![1, 2])], vec![]);
    assert_eq!(quiet, RelayDirection::Ended(EndReason::PeerClosed));
    assert!(to_target.is_empty());
    let (other, to_client) = pump(vec![Source::Closed], vec![]);
    assert!(to_client.is_empty());
    let pair = RelayPair { client_to_target: quiet, target_to_client: other };
    assert!(pair.finished());
    let (again, nothing) = pump(vec![Source::Closed], vec![]);
    assert_eq!(again, quiet);
    assert!(nothing.is_empty());
}

#[test]
fn pair_starts_with_both_directions_reading() {
    let pair = RelayPair::new();
    assert_eq!(pair.client_to_target, RelayDirection::AwaitData);
    assert_eq!(pair.target_to_client, RelayDirection::AwaitData);
    assert_eq!(pair.action(Side::ClientToTarget), RelayAction::Read);
    assert_eq!(pair.action(Side::TargetToClient), RelayAction::Read);
    assert!(!pair.finished());
}

#[test]
fn pair_steps_one_side_and_leaves_the_other() {
    let mut pair = RelayPair::new();
    pair.step(Side::ClientToTarget, RelayEvent::Read(4));
    assert_eq!(pair.client_to_target, RelayDirection::Forwarding { from: 0, to: 4 });
    assert_eq!(pair.target_to_client, RelayDirection::AwaitData);
    pair.step(Side::TargetToClient, RelayEvent::Read(0));
    assert_eq!(pair.client_to_target, RelayDirection::Forwarding { from: 0, to: 4 });
    assert_eq!(pair.target_to_client, RelayDirection::Ended(EndReason::PeerClosed));
    assert_eq!(pair.action(Side::ClientToTarget), RelayAction::Write { from: 0, to: 4 });
    assert_eq!(pair.action(Side::TargetToClient), RelayAction::Stop);
}

#[test]
fn pair_is_finished_when_both_directions_have_ended() {
    let mut pair = RelayPair::new();
    assert!(!pair.finished());
    pair.step(Side::TargetToClient, RelayEvent::IdleTimeout);
    assert!(!pair.finished());
    pair.step(Side::ClientToTarget, RelayEvent::Read(2));
    pair.step(Side::ClientToTarget, RelayEvent::Written(2));
    assert!(!pair.finished());
    pair.step(Side::ClientToTarget, RelayEvent::Read(0));
    assert!(pair.finished());
}

#[test]
fn half_closed_relay_keeps_the_open_direction_running() {
    let mut pair = RelayPair::new();
    let mut to_client: Vec<u8> = Vec::new();
    let mut to_target: Vec<u8> = Vec::new();

    let from_target = vec![10u8, 20, 30];
    pair.step(Side::TargetToClient, RelayEvent::Read(from_target.len()));
    if let RelayAction::Write { from, to } = pair.action(Side::TargetToClient) {
        to_client.extend_from_slice(&from_target[from..to]);
        pair.step(Side::TargetToClient, RelayEvent::Written(to - from));
    }
    pair.step(Side::TargetToClient, RelayEvent::Read(0));
    assert_eq!(to_client, vec![10, 20, 30]);
    assert_eq!(pair.target_to_client, RelayDirection::Ended(EndReason::PeerClosed));
    assert_eq!(pair.client_to_target, RelayDirection::AwaitData);
    assert!(!pair.finished());

    let from_client = vec![1u8, 2];
    pair.step(Side::ClientToTarget, RelayEvent::Read(from_client.len()));
    if let RelayAction::Write { from, to } = pair.action(Side::ClientToTarget) {
        to_target.extend_from_slice(&from_client[from..to]);
        pair.step(Side::ClientToTarget, RelayEvent::Written(to - from));
    }
    assert_eq!(to_target, vec![1, 2]);
    assert_eq!(pair.action(Side::ClientToTarget), RelayAction::Read);
    assert!(!pair.finished());

    pair.step(Side::ClientToTarget, RelayEvent::IdleTimeout);
    assert_eq!(pair.client_to_target, RelayDirection::Ended(EndReason::IdleTimeout));
    assert!(pair.finished());
    assert_eq!(to_client, vec![10, 20, 30]);
}
