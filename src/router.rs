use vstd::prelude::*;
use crate::peer::{Channel, PeerId};
use crate::wire::Payload;

verus! {

/// Bytes received from a peer on either channel.
#[derive(Clone, Debug, PartialEq, Eq)]
pub struct Frame {
    pub peer: PeerId,
    pub data: Vec<u8>,
}

/// Where a queued message goes.
#[derive(Clone, Copy, Debug, PartialEq, Eq, Structural)]
pub enum Destination {
    Peer(PeerId),
    AllPeers,
}

/// One send on the transport.
#[derive(Clone, Debug, PartialEq, Eq)]
pub struct Transmission {
    pub channel: Channel,
    pub peer: PeerId,
    pub data: Vec<u8>,
}

impl View for Transmission {
    type V = (Channel, PeerId, Seq<u8>);

    open spec fn view(&self) -> (Channel, PeerId, Seq<u8>) {
        (self.channel, self.peer, self.data@)
    }
}

/// Whether some message of type `M` is carried by exactly these bytes.
pub open spec fn carries<M: Payload>(b: Seq<u8>) -> bool {
    exists|m: M| #[trigger] m.wire() == b
}

/// The frames that carry a message of type `M`, in delivery order.
pub open spec fn claimed<M: Payload>(frames: Seq<Frame>) -> Seq<Frame>
    decreases frames.len(),
{
    if frames.len() == 0 {
        seq![]
    } else {
        let init = claimed::<M>(frames.drop_last());
        if carries::<M>(frames.last().data@) {
            init.push(frames.last())
        } else {
            init
        }
    }
}

/// `msgs` are the messages of type `M` that `frames` carry, in delivery
/// order, each tagged with its sender.
pub open spec fn decoded_from<M: Payload>(msgs: Seq<(PeerId, M)>, frames: Seq<Frame>) -> bool {
    let kept = claimed::<M>(frames);
    &&& msgs.len() == kept.len()
    &&& forall|i: int|
        0 <= i < msgs.len() ==> (#[trigger] msgs[i]).0 == kept[i].peer && msgs[i].1.wire()
            == kept[i].data@
}

/// The sends that one queued message stands for.
pub open spec fn fan_out(dest: Destination, ch: Channel, peers: Seq<PeerId>, data: Seq<u8>) -> Seq<
    (Channel, PeerId, Seq<u8>),
> {
    match dest {
        Destination::Peer(p) => seq![(ch, p, data)],
        Destination::AllPeers => peers.map_values(|p: PeerId| (ch, p, data)),
    }
}

/// The sends that a queue stands for, in queue order, where `peers` are the
/// connected peers.
pub open spec fn transmissions<M: Payload>(
    q: Seq<(Destination, M)>,
    ch: Channel,
    peers: Seq<PeerId>,
) -> Seq<(Channel, PeerId, Seq<u8>)>
    decreases q.len(),
{
    if q.len() == 0 {
        seq![]
    } else {
        transmissions(q.drop_last(), ch, peers) + fan_out(
            q.last().0,
            ch,
            peers,
            q.last().1.wire(),
        )
    }
}

/// The messages of one type received since the last flush.
pub struct IncomingMessages<M> {
    pub messages: Vec<(PeerId, M)>,
}

/// The messages of one type waiting to be sent.
pub struct OutgoingMessages<M> {
    pub reliable: Vec<(Destination, M)>,
    pub unreliable: Vec<(Destination, M)>,
}

impl<M: Payload> IncomingMessages<M> {
    /// An empty queue; handed out by `MessageRegistry::add_network_message`.
    pub(crate) fn new() -> (r: Self)
        ensures
            r.messages@ == Seq::<(PeerId, M)>::empty(),
    {
        IncomingMessages { messages: Vec::new() }
    }

    /// Drops every message held.
    pub fn flush(&mut self)
        ensures
            final(self).messages@ == Seq::<(PeerId, M)>::empty(),
    {
        self.messages.clear();
    }

    /// Appends the messages of type `M` that `frames` carry, in order; frames
    /// that carry none are skipped. Returns how many were skipped.
    pub fn read_system(&mut self, frames: &Vec<Frame>) -> (skipped: usize)
        ensures
            final(self).messages@.subrange(0, old(self).messages@.len() as int)
                == old(self).messages@,
            decoded_from(
                final(self).messages@.subrange(
                    old(self).messages@.len() as int,
                    final(self).messages@.len() as int,
                ),
                frames@,
            ),
            old(self).messages@.len() <= final(self).messages@.len(),
            skipped == frames@.len() - claimed::<M>(frames@).len(),
    {
        let ghost start = self.messages@.len() as int;
        let ghost old_msgs = self.messages@;
        let mut skipped: usize = 0;
        let mut i: usize = 0;
        while i < frames.len()
            invariant
                i <= frames@.len(),
                start == old_msgs.len(),
                self.messages@.subrange(0, start) == old_msgs,
                start <= self.messages@.len(),
                decoded_from(
                    self.messages@.subrange(start, self.messages@.len() as int),
                    frames@.subrange(0, i as int),
                ),
                skipped == i - claimed::<M>(frames@.subrange(0, i as int)).len(),
                claimed::<M>(frames@.subrange(0, i as int)).len() <= i,
            decreases frames@.len() - i,
        {
            let ghost prefix = frames@.subrange(0, i as int);
            let ghost next = frames@.subrange(0, i + 1);
            assert(next.drop_last() =~= prefix);
            assert(next.last() == frames@[i as int]);
            let frame = &frames[i];
            match M::from_packet(frame.data.as_slice()) {
                Some(m) => {
                    let ghost before = self.messages@;
                    self.messages.push((frame.peer, m));
                    proof {
                        assert(carries::<M>(frames@[i as int].data@));
                        assert(self.messages@.subrange(0, start) =~= old_msgs);
                        let got = self.messages@.subrange(start, self.messages@.len() as int);
                        assert(got =~= before.subrange(start, before.len() as int).push(
                            (frame.peer, m),
                        ));
                        assert forall|k: int| 0 <= k < got.len() implies (#[trigger] got[k]).0
                            == claimed::<M>(next)[k].peer && got[k].1.wire() == claimed::<M>(
                            next,
                        )[k].data@ by {
                            if k < got.len() - 1 {
                                assert(got[k] == before.subrange(start, before.len() as int)[k]);
                            }
                        }
                    }
                },
                None => {
                    proof {
                        assert(!carries::<M>(frames@[i as int].data@));
                    }
                    skipped = skipped + 1;
                },
            }
            i = i + 1;
        }
        assert(frames@.subrange(0, frames@.len() as int) =~= frames@);
        skipped
    }

    /// Drops what was held and keeps the messages of type `M` that `frames`
    /// carry: the inbound step of one tick.
    pub fn receive(&mut self, frames: &Vec<Frame>) -> (skipped: usize)
        ensures
            decoded_from(final(self).messages@, frames@),
            skipped == frames@.len() - claimed::<M>(frames@).len(),
    {
        self.flush();
        let skipped = self.read_system(frames);
        assert(self.messages@.subrange(0, self.messages@.len() as int) =~= self.messages@);
        skipped
    }
}

impl<M: Payload> OutgoingMessages<M> {
    /// Empty queues; handed out by `MessageRegistry::add_network_message`.
    pub(crate) fn new() -> (r: Self)
        ensures
            r.reliable@ == Seq::<(Destination, M)>::empty(),
            r.unreliable@ == Seq::<(Destination, M)>::empty(),
    {
        OutgoingMessages { reliable: Vec::new(), unreliable: Vec::new() }
    }

    /// Queues `m` for `peer` on the reliable channel.
    pub fn reliable_to_peer(&mut self, peer: PeerId, m: M)
        ensures
            final(self).reliable@ == old(self).reliable@.push((Destination::Peer(peer), m)),
            final(self).unreliable@ == old(self).unreliable@,
    {
        self.reliable.push((Destination::Peer(peer), m));
    }

    /// Queues `m` for every connected peer on the reliable channel.
    pub fn reliable_to_all(&mut self, m: M)
        ensures
            final(self).reliable@ == old(self).reliable@.push((Destination::AllPeers, m)),
            final(self).unreliable@ == old(self).unreliable@,
    {
        self.reliable.push((Destination::AllPeers, m));
    }

    /// Queues `m` for `peer` on the unreliable channel.
    pub fn unreliable_to_peer(&mut self, peer: PeerId, m: M)
        ensures
            final(self).unreliable@ == old(self).unreliable@.push((Destination::Peer(peer), m)),
            final(self).reliable@ == old(self).reliable@,
    {
        self.unreliable.push((Destination::Peer(peer), m));
    }

    /// Queues `m` for every connected peer on the unreliable channel.
    pub fn unreliable_to_all(&mut self, m: M)
        ensures
            final(self).unreliable@ == old(self).unreliable@.push((Destination::AllPeers, m)),
            final(self).reliable@ == old(self).reliable@,
    {
        self.unreliable.push((Destination::AllPeers, m));
    }

    /// Appends the sends that `q` stands for.
    fn send_queue(q: &Vec<(Destination, M)>, ch: Channel, peers: &Vec<PeerId>, out: &mut Vec<
        Transmission,
    >)
        ensures
            final(out)@.map_values(|t: Transmission| t@) == old(out)@.map_values(
                |t: Transmission| t@,
            ) + transmissions(q@, ch, peers@),
    {
        let ghost start = out@.map_values(|t: Transmission| t@);
        let mut i: usize = 0;
        while i < q.len()
            invariant
                i <= q@.len(),
                out@.map_values(|t: Transmission| t@) == start + transmissions(
                    q@.subrange(0, i as int),
                    ch,
                    peers@,
                ),
            decreases q@.len() - i,
        {
            let ghost sent = out@.map_values(|t: Transmission| t@);
            assert(q@.subrange(0, i + 1).drop_last() =~= q@.subrange(0, i as int));
            let data = q[i].1.to_packet();
            let ghost goal = fan_out(q@[i as int].0, ch, peers@, data@);
            match q[i].0 {
                Destination::Peer(p) => {
                    out.push(Transmission { channel: ch, peer: p, data });
                    assert(out@.map_values(|t: Transmission| t@) =~= sent + goal);
                },
                Destination::AllPeers => {
                    let mut j: usize = 0;
                    while j < peers.len()
                        invariant
                            j <= peers@.len(),
                            goal == peers@.map_values(|p: PeerId| (ch, p, data@)),
                            out@.map_values(|t: Transmission| t@) == sent + goal.subrange(
                                0,
                                j as int,
                            ),
                        decreases peers@.len() - j,
                    {
                        let ghost before = out@.map_values(|t: Transmission| t@);
                        out.push(Transmission { channel: ch, peer: peers[j], data: data.clone() });
                        assert(out@.map_values(|t: Transmission| t@) =~= before.push(
                            (ch, peers@[j as int], data@),
                        ));
                        assert(goal.subrange(0, j + 1) =~= goal.subrange(0, j as int).push(
                            goal[j as int],
                        ));
                        j = j + 1;
                    }
                    assert(goal.subrange(0, peers@.len() as int) =~= goal);
                },
            }
            assert(transmissions(q@.subrange(0, i + 1), ch, peers@) == transmissions(
                q@.subrange(0, i as int),
                ch,
                peers@,
            ) + goal);
            i = i + 1;
        }
        assert(q@.subrange(0, q@.len() as int) =~= q@);
    }

    /// Encodes every queued message and empties both queues: first the
    /// reliable queue, then the unreliable one, each in queue order, a message
    /// for all peers going to each of `peers` in turn. The outbound step of
    /// one tick.
    pub fn drain(&mut self, peers: &Vec<PeerId>) -> (r: Vec<Transmission>)
        ensures
            r@.map_values(|t: Transmission| t@) == transmissions(
                old(self).reliable@,
                Channel::Reliable,
                peers@,
            ) + transmissions(old(self).unreliable@, Channel::Unreliable, peers@),
            final(self).reliable@ == Seq::<(Destination, M)>::empty(),
            final(self).unreliable@ == Seq::<(Destination, M)>::empty(),
    {
        let mut out: Vec<Transmission> = Vec::new();
        assert(out@.map_values(|t: Transmission| t@) =~= Seq::empty());
        Self::send_queue(&self.reliable, Channel::Reliable, peers, &mut out);
        Self::send_queue(&self.unreliable, Channel::Unreliable, peers, &mut out);
        assert(out@.map_values(|t: Transmission| t@) =~= transmissions(
            old(self).reliable@,
            Channel::Reliable,
            peers@,
        ) + transmissions(old(self).unreliable@, Channel::Unreliable, peers@));
        self.reliable.clear();
        self.unreliable.clear();
        out
    }
}

/// A setup mistake in the set of message types.
#[derive(Clone, Copy, Debug, PartialEq, Eq, Structural)]
pub enum RouterError {
    /// The message type was registered before.
    AlreadyRegistered,
}

/// The names of the message types registered with the router.
#[derive(Debug)]
pub struct MessageRegistry {
    pub names: Vec<String>,
}

impl MessageRegistry {
    pub open spec fn registered(&self) -> Seq<Seq<char>> {
        self.names@.map_values(|s: String| s@)
    }

    pub fn new() -> (r: MessageRegistry)
        ensures
            r.registered() == Seq::<Seq<char>>::empty(),
    {
        let r = MessageRegistry { names: Vec::new() };
        assert(r.registered() =~= Seq::<Seq<char>>::empty());
        r
    }

    /// Registers message type `M` and hands out its empty inbound queue and
    /// outbound pair; a type registered twice is refused.
    pub fn add_network_message<M: Payload>(&mut self) -> (r: Result<
        (IncomingMessages<M>, OutgoingMessages<M>),
        RouterError,
    >)
        ensures
            r is Err <==> old(self).registered().contains(M::name()),
            r is Err ==> final(self).registered() == old(self).registered(),
            r is Ok ==> final(self).registered() == old(self).registered().push(M::name()),
            r matches Ok((i, o)) ==> i.messages@.len() == 0 && o.reliable@.len() == 0
                && o.unreliable@.len() == 0,
    {
        let name = String::from_str(M::reflect_name());
        let mut i: usize = 0;
        while i < self.names.len()
            invariant
                i <= self.names@.len(),
                name@ == M::name(),
                forall|k: int| 0 <= k < i ==> self.registered()[k] != M::name(),
            decreases self.names@.len() - i,
        {
            if self.names[i] == name {
                assert(self.registered()[i as int] == M::name());
                return Err(RouterError::AlreadyRegistered);
            }
            i = i + 1;
        }
        assert(!self.registered().contains(M::name()));
        self.names.push(name);
        assert(self.registered() =~= old(self).registered().push(M::name()));
        Ok((IncomingMessages::new(), OutgoingMessages::new()))
    }
}

} // verus!
