//! The TCP data plane: payload is relayed between a local socket and a
//! stream, each direction by itself, and a direction that has ended closes
//! the half that it wrote to.

use vstd::prelude::*;

verus! {

/// One of the two directions of a relayed connection.
#[derive(Clone, Copy, Debug, PartialEq, Eq, Structural)]
pub enum Direction {
    /// From the local socket into the stream.
    Outbound,
    /// From the stream to the local socket.
    Inbound,
}

/// What to do with what was read from the source of a direction.
#[derive(Clone, Copy, Debug, PartialEq, Eq, Structural)]
pub enum RelayAction {
    /// Write the `len` bytes that were read to the sink, all of them.
    Forward { len: usize },
    /// The source has ended: shut down the writing half of the sink.
    Shutdown,
    /// The direction has ended before: do nothing.
    Ignore,
}

/// Which directions of a relayed connection are still open.
#[derive(Clone, Copy, Debug, PartialEq, Eq, Structural)]
pub struct TcpRelay {
    outbound_open: bool,
    inbound_open: bool,
}

/// What is done with a read of `len` bytes in a direction that is open or
/// not: nothing after its end; a read of no bytes is its end; any other read
/// is forwarded whole.
pub open spec fn relay_action(open: bool, len: nat) -> RelayAction {
    if !open {
        RelayAction::Ignore
    } else if len == 0 {
        RelayAction::Shutdown
    } else {
        RelayAction::Forward { len: len as usize }
    }
}

impl TcpRelay {
    /// Whether `direction` is still open.
    pub closed spec fn is_open(self, direction: Direction) -> bool {
        match direction {
            Direction::Outbound => self.outbound_open,
            Direction::Inbound => self.inbound_open,
        }
    }

    /// A connection with both directions open.
    pub fn new() -> (r: TcpRelay)
        ensures
            r.is_open(Direction::Outbound),
            r.is_open(Direction::Inbound),
    {
        TcpRelay { outbound_open: true, inbound_open: true }
    }

    /// Whether `direction` is still open.
    pub fn open(&self, direction: Direction) -> (r: bool)
        ensures
            r == self.is_open(direction),
    {
        match direction {
            Direction::Outbound => self.outbound_open,
            Direction::Inbound => self.inbound_open,
        }
    }

    /// Decides what to do with a read of `len` bytes from the source of
    /// `direction`, where no bytes mean that the source has ended. The end of
    /// a source closes its direction and leaves the other as it is.
    pub fn on_read(&mut self, direction: Direction, len: usize) -> (r: RelayAction)
        ensures
            r == relay_action(old(self).is_open(direction), len as nat),
            final(self).is_open(direction) == (old(self).is_open(direction) && len > 0),
            forall|other: Direction|
                other != direction ==> final(self).is_open(other) == old(self).is_open(other),
    {
        if !self.open(direction) {
            RelayAction::Ignore
        } else if len == 0 {
            match direction {
                Direction::Outbound => {
                    self.outbound_open = false;
                },
                Direction::Inbound => {
                    self.inbound_open = false;
                },
            }
            RelayAction::Shutdown
        } else {
            RelayAction::Forward { len }
        }
    }

    /// Whether the relay is over: both directions have ended.
    pub fn finished(&self) -> (r: bool)
        ensures
            r == (!self.is_open(Direction::Outbound) && !self.is_open(Direction::Inbound)),
    {
        !self.outbound_open && !self.inbound_open
    }
}

/// A read from the source of a direction: the bytes that it gave, none where
/// the source has ended.
pub struct ReadEvent {
    pub direction: Direction,
    pub chunk: Seq<u8>,
}

/// Whether the source of `direction` has ended in the course of `events`.
pub open spec fn ended(events: Seq<ReadEvent>, direction: Direction) -> bool {
    exists|i: int|
        0 <= i < events.len() && (#[trigger] events[i]).direction == direction
            && events[i].chunk.len() == 0
}

/// The bytes that the source of `direction` gave before it ended.
pub open spec fn source_bytes(events: Seq<ReadEvent>, direction: Direction) -> Seq<u8>
    decreases events.len(),
{
    if events.len() == 0 {
        Seq::empty()
    } else {
        let before = events.drop_last();
        if events.last().direction == direction && !ended(before, direction) {
            source_bytes(before, direction) + events.last().chunk
        } else {
            source_bytes(before, direction)
        }
    }
}

/// The bytes that the relay has written to the sink of `direction` after
/// `events`: those of every read that `relay_action` forwards.
pub open spec fn delivered_bytes(events: Seq<ReadEvent>, direction: Direction) -> Seq<u8>
    decreases events.len(),
{
    if events.len() == 0 {
        Seq::empty()
    } else {
        let before = events.drop_last();
        let read = events.last();
        if read.direction == direction && relay_action(
            still_open(before, direction),
            read.chunk.len(),
        ) is Forward {
            delivered_bytes(before, direction) + read.chunk
        } else {
            delivered_bytes(before, direction)
        }
    }
}

/// Whether the relay holds `direction` open after `events`: it does until
/// `relay_action` shuts the direction down.
pub open spec fn still_open(events: Seq<ReadEvent>, direction: Direction) -> bool
    decreases events.len(),
{
    if events.len() == 0 {
        true
    } else {
        let before = events.drop_last();
        let read = events.last();
        still_open(before, direction) && !(read.direction == direction && relay_action(
            still_open(before, direction),
            read.chunk.len(),
        ) is Shutdown)
    }
}

/// In each direction the relay delivers exactly the bytes that the source
/// gave, in their order, and it holds the direction open until the source
/// has ended. So once both directions have ended, what went to the target is
/// what the application sent, and what went to the application is what the
/// target sent.
pub proof fn lemma_relay_delivers_source(events: Seq<ReadEvent>, direction: Direction)
    ensures
        delivered_bytes(events, direction) == source_bytes(events, direction),
        still_open(events, direction) == !ended(events, direction),
    decreases events.len(),
{
    if events.len() > 0 {
        let before = events.drop_last();
        lemma_relay_delivers_source(before, direction);
        let read = events.last();
        if ended(before, direction) {
            let i = choose|i: int|
                0 <= i < before.len() && (#[trigger] before[i]).direction == direction
                    && before[i].chunk.len() == 0;
            assert(events[i] == before[i]);
        }
        if ended(events, direction) && !ended(before, direction) {
            let i = choose|i: int|
                0 <= i < events.len() && (#[trigger] events[i]).direction == direction
                    && events[i].chunk.len() == 0;
            if i < before.len() {
                assert(before[i] == events[i]);
            }
        }
        if read.direction == direction && read.chunk.len() == 0 {
            assert(events[events.len() - 1] == read);
        }
    }
}

/// How often the relay has shut down the sink of `direction` in the course of
/// `events`.
pub open spec fn shutdowns(events: Seq<ReadEvent>, direction: Direction) -> nat
    decreases events.len(),
{
    if events.len() == 0 {
        0
    } else {
        let before = events.drop_last();
        let read = events.last();
        if read.direction == direction && relay_action(
            still_open(before, direction),
            read.chunk.len(),
        ) is Shutdown {
            shutdowns(before, direction) + 1
        } else {
            shutdowns(before, direction)
        }
    }
}

/// The relay shuts down the sink of a direction once, when its source has
/// ended, and not before.
pub proof fn lemma_relay_shuts_down_once(events: Seq<ReadEvent>, direction: Direction)
    ensures
        shutdowns(events, direction) == if ended(events, direction) {
            1nat
        } else {
            0nat
        },
    decreases events.len(),
{
    if events.len() > 0 {
        let before = events.drop_last();
        lemma_relay_shuts_down_once(before, direction);
        lemma_relay_delivers_source(before, direction);
        lemma_relay_delivers_source(events, direction);
    }
}

} // verus!
