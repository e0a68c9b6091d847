//! The relay between two established connections: one direction of it as a
//! state machine that a driver feeds with what its reads and writes gave, and
//! the pair of directions that makes up a relay.
//!
//! A direction reads a chunk from its source and writes it to its destination
//! in full before it reads again. A write that takes only part of the chunk
//! is followed by a write of the rest; a write that takes nothing, or fails,
//! ends the direction.

use vstd::prelude::*;

verus! {

/// How long a direction waits for data from its source before it ends.
pub const IDLE_TIMEOUT_SECS: u64 = 30;

/// The size of the buffer that a direction reads into.
pub const RELAY_BUFFER_LEN: usize = 8192;

/// Why a direction has ended.
#[derive(Debug, Clone, Copy, PartialEq, Eq, Structural)]
pub enum EndReason {
    /// The source was closed in an orderly way: a read gave no bytes.
    PeerClosed,
    /// The source sent nothing for the length of the idle timeout.
    IdleTimeout,
    /// A read or a write failed, or a write made no progress.
    TransportError,
}

/// What the driver reports to a direction.
#[derive(Debug, Clone, Copy, PartialEq, Eq, Structural)]
pub enum RelayEvent {
    /// A read gave this many bytes; none means that the source was closed.
    Read(usize),
    /// The wait for data ran into the idle timeout.
    IdleTimeout,
    /// A read failed.
    ReadFailed,
    /// A write took this many bytes.
    Written(usize),
    /// A write failed.
    WriteFailed,
}

/// What a direction asks of the driver.
#[derive(Debug, Clone, Copy, PartialEq, Eq, Structural)]
pub enum RelayAction {
    /// Wait for data from the source, up to the idle timeout, and read it
    /// into the buffer from its start.
    Read,
    /// Write the bytes of the buffer from `from` up to `to`, excluded, to
    /// the destination.
    Write { from: usize, to: usize },
    /// Nothing more: the direction has ended.
    Stop,
}

/// One direction of a relay.
#[derive(Debug, Clone, Copy, PartialEq, Eq, Structural)]
pub enum RelayDirection {
    /// Waiting for data from the source.
    AwaitData,
    /// The bytes of the buffer from `from` up to `to` are still to be
    /// written; those before `from` were written.
    Forwarding { from: usize, to: usize },
    /// Over.
    Ended(EndReason),
}

/// The state that follows `state` on `event`.
pub open spec fn relay_next(state: RelayDirection, event: RelayEvent) -> RelayDirection {
    match state {
        RelayDirection::AwaitData => match event {
            RelayEvent::Read(n) => if n == 0 {
                RelayDirection::Ended(EndReason::PeerClosed)
            } else {
                RelayDirection::Forwarding { from: 0, to: n }
            },
            RelayEvent::IdleTimeout => RelayDirection::Ended(EndReason::IdleTimeout),
            _ => RelayDirection::Ended(EndReason::TransportError),
        },
        RelayDirection::Forwarding { from, to } => match event {
            RelayEvent::Written(m) => if m == 0 || m > to - from {
                RelayDirection::Ended(EndReason::TransportError)
            } else if from + m == to {
                RelayDirection::AwaitData
            } else {
                RelayDirection::Forwarding { from: (from + m) as usize, to }
            },
            _ => RelayDirection::Ended(EndReason::TransportError),
        },
        RelayDirection::Ended(reason) => RelayDirection::Ended(reason),
    }
}

/// What a direction in `state` asks of the driver.
pub open spec fn relay_action(state: RelayDirection) -> RelayAction {
    match state {
        RelayDirection::AwaitData => RelayAction::Read,
        RelayDirection::Forwarding { from, to } => RelayAction::Write { from, to },
        RelayDirection::Ended(_) => RelayAction::Stop,
    }
}

impl RelayDirection {
    /// A direction that has moved nothing yet.
    pub fn new() -> (direction: Self)
        ensures
            direction == RelayDirection::AwaitData,
    {
        RelayDirection::AwaitData
    }

    /// What the driver has to do next.
    pub fn action(&self) -> (action: RelayAction)
        ensures
            action == relay_action(*self),
    {
        match self {
            RelayDirection::AwaitData => RelayAction::Read,
            RelayDirection::Forwarding { from, to } => RelayAction::Write { from: *from, to: *to },
            RelayDirection::Ended(_) => RelayAction::Stop,
        }
    }

    /// Takes in what the driver's last read or write gave.
    pub fn step(&mut self, event: RelayEvent)
        ensures
            *final(self) == relay_next(*old(self), event),
    {
        let next = match *self {
            RelayDirection::AwaitData => match event {
                RelayEvent::Read(n) => if n == 0 {
                    RelayDirection::Ended(EndReason::PeerClosed)
                } else {
                    RelayDirection::Forwarding { from: 0, to: n }
                },
                RelayEvent::IdleTimeout => RelayDirection::Ended(EndReason::IdleTimeout),
                _ => RelayDirection::Ended(EndReason::TransportError),
            },
            RelayDirection::Forwarding { from, to } => match event {
                RelayEvent::Written(m) => if m == 0 || to < from || m > to - from {
                    RelayDirection::Ended(EndReason::TransportError)
                } else if from + m == to {
                    RelayDirection::AwaitData
                } else {
                    RelayDirection::Forwarding { from: from + m, to }
                },
                _ => RelayDirection::Ended(EndReason::TransportError),
            },
            RelayDirection::Ended(reason) => RelayDirection::Ended(reason),
        };
        *self = next;
    }

    /// Whether the direction has ended.
    pub fn ended(&self) -> (b: bool)
        ensures
            b == (*self is Ended),
    {
        match self {
            RelayDirection::Ended(_) => true,
            _ => false,
        }
    }
}

/// The two directions of a relay.
#[derive(Debug, Clone, Copy, PartialEq, Eq, Structural)]
pub enum Side {
    /// From the client to the destination.
    ClientToTarget,
    /// From the destination to the client.
    TargetToClient,
}

/// A relay between a client and its destination: two directions over one
/// pair of connections, each of which ends on its own. The relay is over
/// when both have ended.
#[derive(Debug, Clone, Copy, PartialEq, Eq, Structural)]
pub struct RelayPair {
    pub client_to_target: RelayDirection,
    pub target_to_client: RelayDirection,
}

impl RelayPair {
    /// The direction on `side`.
    pub open spec fn direction(self, side: Side) -> RelayDirection {
        match side {
            Side::ClientToTarget => self.client_to_target,
            Side::TargetToClient => self.target_to_client,
        }
    }

    /// Both directions have ended.
    pub open spec fn is_finished(self) -> bool {
        self.client_to_target is Ended && self.target_to_client is Ended
    }

    /// A relay that has moved nothing yet.
    pub fn new() -> (pair: Self)
        ensures
            pair.client_to_target == RelayDirection::AwaitData,
            pair.target_to_client == RelayDirection::AwaitData,
    {
        RelayPair {
            client_to_target: RelayDirection::new(),
            target_to_client: RelayDirection::new(),
        }
    }

    /// What the driver of the direction on `side` has to do next.
    pub fn action(&self, side: Side) -> (action: RelayAction)
        ensures
            action == relay_action(self.direction(side)),
    {
        match side {
            Side::ClientToTarget => self.client_to_target.action(),
            Side::TargetToClient => self.target_to_client.action(),
        }
    }

    /// Takes in what the last read or write on `side` gave. The other
    /// direction is left as it was: the end of one does not stop the other.
    pub fn step(&mut self, side: Side, event: RelayEvent)
        ensures
            final(self).direction(side) == relay_next(old(self).direction(side), event),
            side == Side::ClientToTarget ==> final(self).target_to_client
                == old(self).target_to_client,
            side == Side::TargetToClient ==> final(self).client_to_target
                == old(self).client_to_target,
    {
        match side {
            Side::ClientToTarget => self.client_to_target.step(event),
            Side::TargetToClient => self.target_to_client.step(event),
        }
    }

    /// Whether the relay is over: both directions have ended, and both
    /// connections can be closed.
    pub fn finished(&self) -> (b: bool)
        ensures
            b == self.is_finished(),
    {
        self.client_to_target.ended() && self.target_to_client.ended()
    }
}

/// What happens on a direction, with the bytes that a read brings.
pub enum Occurrence {
    Read(Seq<u8>),
    IdleTimeout,
    ReadFailed,
    Written(usize),
    WriteFailed,
}

impl Occurrence {
    /// What the driver reports of it.
    pub open spec fn event(self) -> RelayEvent {
        match self {
            Occurrence::Read(data) => RelayEvent::Read(data.len() as usize),
            Occurrence::IdleTimeout => RelayEvent::IdleTimeout,
            Occurrence::ReadFailed => RelayEvent::ReadFailed,
            Occurrence::Written(m) => RelayEvent::Written(m),
            Occurrence::WriteFailed => RelayEvent::WriteFailed,
        }
    }

    /// A read brings no more than a buffer can hold.
    pub open spec fn fits(self) -> bool {
        self matches Occurrence::Read(data) ==> data.len() <= usize::MAX
    }
}

/// A direction together with the bytes it moves: the buffer's content since
/// the last read, all that was read from the source, and all that was
/// written to the destination.
pub struct Transfer {
    pub direction: RelayDirection,
    pub buffer: Seq<u8>,
    pub received: Seq<u8>,
    pub delivered: Seq<u8>,
}

/// A transfer before anything has happened.
pub open spec fn transfer_start() -> Transfer {
    Transfer {
        direction: RelayDirection::AwaitData,
        buffer: Seq::empty(),
        received: Seq::empty(),
        delivered: Seq::empty(),
    }
}

/// What an occurrence makes of a transfer, where the driver does what the
/// direction asks: a read that the direction waited for fills the buffer,
/// and a write that it asked for delivers the bytes that the write took.
pub open spec fn transfer_step(transfer: Transfer, occurrence: Occurrence) -> Transfer {
    Transfer {
        direction: relay_next(transfer.direction, occurrence.event()),
        buffer: match (transfer.direction, occurrence) {
            (RelayDirection::AwaitData, Occurrence::Read(data)) => data,
            _ => transfer.buffer,
        },
        received: match (transfer.direction, occurrence) {
            (RelayDirection::AwaitData, Occurrence::Read(data)) => transfer.received + data,
            _ => transfer.received,
        },
        delivered: match (transfer.direction, occurrence) {
            (RelayDirection::Forwarding { from, to }, Occurrence::Written(m)) => if 0 < m <= to
                - from {
                transfer.delivered + transfer.buffer.subrange(from as int, from + m)
            } else {
                transfer.delivered
            },
            _ => transfer.delivered,
        },
    }
}

/// What a sequence of occurrences makes of a transfer.
pub open spec fn transfer_run(transfer: Transfer, occurrences: Seq<Occurrence>) -> Transfer
    decreases occurrences.len(),
{
    if occurrences.len() == 0 {
        transfer
    } else {
        transfer_step(transfer_run(transfer, occurrences.drop_last()), occurrences.last())
    }
}

/// Nothing was lost, duplicated or reordered: what was delivered and what
/// is still to be written make up what was read. Once a direction has ended
/// on a closed or idle source, everything read was delivered; once it has
/// ended on a failure, what was delivered is the start of what was read.
pub open spec fn intact(transfer: Transfer) -> bool {
    match transfer.direction {
        RelayDirection::AwaitData => transfer.delivered == transfer.received,
        RelayDirection::Forwarding { from, to } => {
            &&& from < to
            &&& to == transfer.buffer.len()
            &&& transfer.delivered + transfer.buffer.skip(from as int) == transfer.received
        },
        RelayDirection::Ended(reason) => if reason == EndReason::TransportError {
            transfer.delivered.is_prefix_of(transfer.received)
        } else {
            transfer.delivered == transfer.received
        },
    }
}

/// An occurrence leaves an intact transfer intact.
pub proof fn lemma_step_keeps_intact(transfer: Transfer, occurrence: Occurrence)
    requires
        intact(transfer),
        occurrence.fits(),
    ensures
        intact(transfer_step(transfer, occurrence)),
{
    let next = transfer_step(transfer, occurrence);
    match (transfer.direction, occurrence) {
        (RelayDirection::AwaitData, Occurrence::Read(data)) => {
            if data.len() > 0 {
                assert(next.delivered + next.buffer.skip(0) =~= next.received);
            } else {
                assert(next.received =~= transfer.received);
            }
        },
        (RelayDirection::Forwarding { from, to }, Occurrence::Written(m)) => {
            if 0 < m <= to - from {
                let taken = transfer.buffer.subrange(from as int, from + m);
                assert(transfer.buffer.skip(from as int) =~= taken + transfer.buffer.skip(
                    from + m,
                ));
                assert(next.delivered + transfer.buffer.skip(from + m) =~= transfer.received);
                if from + m == to {
                    assert(next.delivered =~= transfer.received);
                }
            } else {
                assert(transfer.delivered.is_prefix_of(transfer.received));
            }
        },
        (RelayDirection::Forwarding { from, to }, _) => {
            assert(transfer.delivered.is_prefix_of(transfer.received));
        },
        _ => {},
    }
}

/// Whatever happens on a direction, in whatever order, nothing is lost,
/// duplicated or reordered.
pub proof fn lemma_run_keeps_intact(occurrences: Seq<Occurrence>)
    requires
        forall|i: int| 0 <= i < occurrences.len() ==> occurrences[i].fits(),
    ensures
        intact(transfer_run(transfer_start(), occurrences)),
    decreases occurrences.len(),
{
    if occurrences.len() > 0 {
        lemma_run_keeps_intact(occurrences.drop_last());
        lemma_step_keeps_intact(
            transfer_run(transfer_start(), occurrences.drop_last()),
            occurrences.last(),
        );
    }
}

/// A direction that has ended stays as it is: it asks for nothing more and
/// delivers nothing more, whatever is reported to it.
pub proof fn lemma_ended_stays(transfer: Transfer, occurrences: Seq<Occurrence>)
    requires
        transfer.direction is Ended,
    ensures
        transfer_run(transfer, occurrences) == transfer,
        relay_action(transfer_run(transfer, occurrences).direction) == RelayAction::Stop,
    decreases occurrences.len(),
{
    if occurrences.len() > 0 {
        lemma_ended_stays(transfer, occurrences.drop_last());
    }
}

/// Where the source sends nothing and closes at once, the direction ends
/// with nothing delivered, and stays so.
pub proof fn lemma_closed_source_delivers_nothing(occurrences: Seq<Occurrence>)
    requires
        occurrences.len() > 0,
        occurrences[0] == Occurrence::Read(Seq::empty()),
    ensures
        transfer_run(transfer_start(), occurrences).direction == RelayDirection::Ended(
            EndReason::PeerClosed,
        ),
        transfer_run(transfer_start(), occurrences).delivered == Seq::<u8>::empty(),
    decreases occurrences.len(),
{
    if occurrences.len() == 1 {
        assert(occurrences.drop_last().len() == 0);
        assert(occurrences.last() == occurrences[0]);
        assert(transfer_step(transfer_start(), occurrences[0]).received =~= Seq::<u8>::empty());
    } else {
        assert(occurrences.drop_last()[0] == occurrences[0]);
        lemma_closed_source_delivers_nothing(occurrences.drop_last());
    }
}

} // verus!
