//! The UDP data plane: the datagrams of one peer are carried over a stream,
//! one write per datagram, and every chunk read from the stream goes back to
//! that peer as one datagram.

use vstd::prelude::*;
use crate::common::addr::SocketAddress;

verus! {

/// The most bytes of a datagram that are carried: the size of the buffer that
/// a datagram is received into, and of the one that a chunk is read into.
pub const DATAGRAM_BUFFER: usize = 1024;

/// What to do with a datagram that the socket received.
#[derive(Clone, Copy, Debug, PartialEq, Eq, Structural)]
pub enum DatagramAction {
    /// Write its `len` bytes to the stream, in one write.
    Forward { len: usize },
    /// It is not from the peer of the flow: drop it.
    Discard,
}

/// What to do with what was read from the stream.
#[derive(Clone, Copy, Debug, PartialEq, Eq, Structural)]
pub enum ChunkAction {
    /// Send the `len` bytes that were read to `peer` as one datagram.
    SendTo { peer: SocketAddress, len: usize },
    /// The stream has ended: stop.
    Stop,
    /// No peer is known yet: drop the chunk.
    Drop,
}

/// The datagram side of a flow: the one peer whose datagrams it carries, once
/// that peer is known.
#[derive(Clone, Copy, Debug, PartialEq, Eq, Structural)]
pub struct UdpPump {
    peer: Option<SocketAddress>,
}

/// The peer of a flow after a datagram from `from`: the peer that it had, or
/// `from` where it had none.
pub open spec fn peer_after(peer: Option<SocketAddress>, from: SocketAddress) -> Option<
    SocketAddress,
> {
    match peer {
        Some(p) => Some(p),
        None => Some(from),
    }
}

/// Whether a flow with the peer `peer` carries a datagram from `from`: the
/// first datagram of a flow without a peer, and after that those of its peer.
pub open spec fn carries(peer: Option<SocketAddress>, from: SocketAddress) -> bool {
    match peer {
        Some(p) => p == from,
        None => true,
    }
}

/// What a flow with the peer `peer` does with what a read from the stream
/// gave, `None` where the stream has ended: each chunk goes to the peer as one
/// datagram, and the end of the stream stops the flow.
pub open spec fn chunk_action(peer: Option<SocketAddress>, read: Option<usize>) -> ChunkAction {
    match (read, peer) {
        (None, _) => ChunkAction::Stop,
        (Some(len), Some(peer)) => ChunkAction::SendTo { peer, len },
        (Some(_), None) => ChunkAction::Drop,
    }
}

impl UdpPump {
    /// The peer of the flow, if it is known.
    pub closed spec fn peer_spec(self) -> Option<SocketAddress> {
        self.peer
    }

    /// A flow whose peer is whoever sends the first datagram.
    pub fn unbound() -> (r: UdpPump)
        ensures
            r.peer_spec() is None,
    {
        UdpPump { peer: None }
    }

    /// A flow with the peer `peer`.
    pub fn bound_to(peer: SocketAddress) -> (r: UdpPump)
        ensures
            r.peer_spec() == Some(peer),
    {
        UdpPump { peer: Some(peer) }
    }

    /// The peer of the flow, if it is known.
    pub fn peer(&self) -> (r: Option<SocketAddress>)
        ensures
            r == self.peer_spec(),
    {
        self.peer
    }

    /// Decides what to do with a datagram of `len` bytes from `from`. The
    /// first datagram of a flow without a peer makes its sender the peer and
    /// is forwarded; after that, datagrams of the peer are forwarded and all
    /// others dropped.
    pub fn on_datagram(&mut self, from: SocketAddress, len: usize) -> (r: DatagramAction)
        ensures
            final(self).peer_spec() == peer_after(old(self).peer_spec(), from),
            carries(old(self).peer_spec(), from) ==> r == (DatagramAction::Forward { len }),
            !carries(old(self).peer_spec(), from) ==> r == DatagramAction::Discard,
    {
        match self.peer {
            None => {
                self.peer = Some(from);
                DatagramAction::Forward { len }
            },
            Some(p) => {
                if p == from {
                    DatagramAction::Forward { len }
                } else {
                    DatagramAction::Discard
                }
            },
        }
    }

    /// Decides what to do with what a read from the stream gave: `None` where
    /// the stream has ended, else the number of bytes. Each chunk goes to the
    /// peer as one datagram.
    pub fn on_chunk(&self, read: Option<usize>) -> (r: ChunkAction)
        ensures
            r == chunk_action(self.peer_spec(), read),
    {
        match read {
            None => ChunkAction::Stop,
            Some(len) => match self.peer {
                Some(peer) => ChunkAction::SendTo { peer, len },
                None => ChunkAction::Drop,
            },
        }
    }
}

/// A datagram as it arrives at the socket.
pub struct Datagram {
    pub from: SocketAddress,
    pub payload: Seq<u8>,
}

/// What of a datagram's payload fits the buffer that it is received into.
pub open spec fn received(payload: Seq<u8>) -> Seq<u8> {
    if payload.len() <= DATAGRAM_BUFFER {
        payload
    } else {
        payload.take(DATAGRAM_BUFFER as int)
    }
}

/// The peer of a flow that started with the peer `peer`, after `arrivals`.
pub open spec fn peer_of(peer: Option<SocketAddress>, arrivals: Seq<Datagram>) -> Option<
    SocketAddress,
>
    decreases arrivals.len(),
{
    if arrivals.len() == 0 {
        peer
    } else {
        peer_after(peer_of(peer, arrivals.drop_last()), arrivals.last().from)
    }
}

/// What a flow that started with the peer `peer` has written to the stream
/// after `arrivals`, write by write: the datagrams that `on_datagram`
/// forwards.
pub open spec fn forwarded(peer: Option<SocketAddress>, arrivals: Seq<Datagram>) -> Seq<Seq<u8>>
    decreases arrivals.len(),
{
    if arrivals.len() == 0 {
        Seq::empty()
    } else {
        let before = arrivals.drop_last();
        if carries(peer_of(peer, before), arrivals.last().from) {
            forwarded(peer, before).push(received(arrivals.last().payload))
        } else {
            forwarded(peer, before)
        }
    }
}

/// The payloads of those of `arrivals` that `sender` sent, in their order.
pub open spec fn sent_by(sender: SocketAddress, arrivals: Seq<Datagram>) -> Seq<Seq<u8>>
    decreases arrivals.len(),
{
    if arrivals.len() == 0 {
        Seq::empty()
    } else if arrivals.last().from == sender {
        sent_by(sender, arrivals.drop_last()).push(arrivals.last().payload)
    } else {
        sent_by(sender, arrivals.drop_last())
    }
}

/// The peer of a flow is settled by its first datagram, if it was not
/// settled from the start.
pub proof fn lemma_peer_settled(peer: Option<SocketAddress>, arrivals: Seq<Datagram>)
    requires
        arrivals.len() > 0,
    ensures
        peer_of(peer, arrivals) == peer_after(peer, arrivals[0].from),
    decreases arrivals.len(),
{
    if arrivals.len() > 1 {
        lemma_peer_settled(peer, arrivals.drop_last());
        assert(arrivals.drop_last()[0] == arrivals[0]);
    } else {
        assert(arrivals.drop_last().len() == 0);
        assert(peer_of(peer, arrivals.drop_last()) == peer);
        assert(arrivals.last() == arrivals[0]);
    }
}

/// The stream carries each datagram of the flow's peer exactly once, in the
/// order of arrival, and no datagram of anyone else, provided that none of
/// them is longer than the buffer.
pub proof fn lemma_udp_carries_peer_in_order(peer: Option<SocketAddress>, arrivals: Seq<Datagram>)
    requires
        arrivals.len() > 0,
        forall|i: int| 0 <= i < arrivals.len() ==> (#[trigger] arrivals[i]).payload.len()
            <= DATAGRAM_BUFFER,
    ensures
        peer_of(peer, arrivals) is Some,
        forwarded(peer, arrivals) == sent_by(peer_of(peer, arrivals)->0, arrivals),
    decreases arrivals.len(),
{
    lemma_peer_settled(peer, arrivals);
    let settled = peer_of(peer, arrivals)->0;
    let before = arrivals.drop_last();
    if before.len() == 0 {
        assert(forwarded(peer, before) =~= Seq::<Seq<u8>>::empty());
        assert(sent_by(settled, before) =~= Seq::<Seq<u8>>::empty());
        assert(peer_of(peer, before) == peer);
    } else {
        assert forall|i: int| 0 <= i < before.len() implies (#[trigger] before[i]).payload.len()
            <= DATAGRAM_BUFFER by {
            assert(before[i] == arrivals[i]);
        }
        lemma_udp_carries_peer_in_order(peer, before);
        lemma_peer_settled(peer, before);
        assert(before[0] == arrivals[0]);
    }
    assert(arrivals.last() == arrivals[arrivals.len() - 1]);
}

/// What a read from the stream gave: a chunk, or nothing where the stream has
/// ended.
pub struct StreamRead {
    pub chunk: Option<Seq<u8>>,
}

/// The length that a read reports.
pub open spec fn read_len(read: StreamRead) -> Option<usize> {
    match read.chunk {
        Some(chunk) => Some(chunk.len() as usize),
        None => None,
    }
}

/// The chunks that were read from a stream before it ended: those of `reads`
/// up to the first read that gave nothing.
pub open spec fn chunks_before_end(reads: Seq<StreamRead>) -> Seq<Seq<u8>>
    decreases reads.len(),
{
    if reads.len() == 0 {
        Seq::empty()
    } else {
        match reads[0].chunk {
            None => Seq::empty(),
            Some(chunk) => seq![chunk] + chunks_before_end(reads.drop_first()),
        }
    }
}

/// The datagrams that a flow with the peer `peer` sends for `reads`, one
/// after the other, until `chunk_action` stops it: to whom, and what.
pub open spec fn datagrams_sent(peer: Option<SocketAddress>, reads: Seq<StreamRead>) -> Seq<
    (SocketAddress, Seq<u8>),
>
    decreases reads.len(),
{
    if reads.len() == 0 {
        Seq::empty()
    } else {
        match chunk_action(peer, read_len(reads[0])) {
            ChunkAction::Stop => Seq::empty(),
            ChunkAction::Drop => datagrams_sent(peer, reads.drop_first()),
            ChunkAction::SendTo { peer: to, len } => seq![(to, reads[0].chunk->0.take(len as int))]
                + datagrams_sent(peer, reads.drop_first()),
        }
    }
}

/// Every chunk that the stream gives before it ends goes to the peer as one
/// datagram, in the order of the chunks, and nothing goes anywhere else,
/// provided that no chunk is longer than the buffer that it is read into.
pub proof fn lemma_chunks_reach_peer(peer: SocketAddress, reads: Seq<StreamRead>)
    requires
        forall|i: int|
            0 <= i < reads.len() && (#[trigger] reads[i]).chunk is Some ==> reads[i].chunk->0.len()
                <= DATAGRAM_BUFFER,
    ensures
        datagrams_sent(Some(peer), reads).len() == chunks_before_end(reads).len(),
        forall|i: int|
            0 <= i < chunks_before_end(reads).len() ==> #[trigger] datagrams_sent(
                Some(peer),
                reads,
            )[i] == (peer, chunks_before_end(reads)[i]),
    decreases reads.len(),
{
    if reads.len() > 0 && reads[0].chunk is Some {
        let rest = reads.drop_first();
        assert forall|i: int|
            0 <= i < rest.len() && (#[trigger] rest[i]).chunk is Some implies rest[i].chunk->0.len()
            <= DATAGRAM_BUFFER by {
            assert(rest[i] == reads[i + 1]);
        }
        lemma_chunks_reach_peer(peer, rest);
        let chunk = reads[0].chunk->0;
        assert(chunk.take(chunk.len() as int) == chunk);
        assert forall|i: int|
            0 <= i < chunks_before_end(reads).len() implies #[trigger] datagrams_sent(
            Some(peer),
            reads,
        )[i] == (peer, chunks_before_end(reads)[i]) by {
            if i > 0 {
                assert(datagrams_sent(Some(peer), reads)[i] == datagrams_sent(Some(peer), rest)[i
                    - 1]);
                assert(chunks_before_end(reads)[i] == chunks_before_end(rest)[i - 1]);
            }
        }
    }
}

} // verus!
