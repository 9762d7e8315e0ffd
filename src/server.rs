use vstd::prelude::*;
use crate::addr::ConnectionAddr;
use crate::peer::{PeerId, PeerState};

verus! {

/// What the host application is told.
#[derive(Clone, Copy, Debug, PartialEq, Eq, Structural)]
pub enum ServerEvent {
    IdAssigned(PeerId),
    PeerJoined(PeerId),
    PeerLeft(PeerId),
}

/// The host side of a session.
#[derive(Clone, Copy, Debug)]
pub struct SilkServer {
    /// The signaling server.
    pub addr: ConnectionAddr,
    /// Our own id, once the transport gave it.
    pub id: Option<PeerId>,
}

/// The event for a peer update.
pub open spec fn peer_event(u: (PeerId, PeerState)) -> ServerEvent {
    match u.1 {
        PeerState::Connected => ServerEvent::PeerJoined(u.0),
        PeerState::Disconnected => ServerEvent::PeerLeft(u.0),
    }
}

/// The event for our own id, the first time it is known.
pub open spec fn id_events(known: Option<PeerId>, id: Option<PeerId>) -> Seq<ServerEvent> {
    match (known, id) {
        (None, Some(p)) => seq![ServerEvent::IdAssigned(p)],
        _ => seq![],
    }
}

impl SilkServer {
    pub fn new(addr: ConnectionAddr) -> (r: SilkServer)
        ensures
            r.addr == addr,
            r.id is None,
    {
        SilkServer { addr, id: None }
    }

    /// Handles what the transport reports in one tick: our id, latched the
    /// first time, then each peer update in order.
    pub fn read_socket(&mut self, id: Option<PeerId>, ups: &Vec<(PeerId, PeerState)>) -> (r: Vec<
        ServerEvent,
    >)
        ensures
            r@ == id_events(old(self).id, id) + ups@.map_values(|u: (PeerId, PeerState)| peer_event(u)),
            final(self).id == (if old(self).id is None { id } else { old(self).id }),
            final(self).addr == old(self).addr,
    {
        let mut out: Vec<ServerEvent> = Vec::new();
        if self.id.is_none() {
            if let Some(p) = id {
                self.id = Some(p);
                out.push(ServerEvent::IdAssigned(p));
            }
        }
        let ghost head = out@;
        assert(head == id_events(old(self).id, id));
        let mut i: usize = 0;
        while i < ups.len()
            invariant
                i <= ups@.len(),
                out@ == head + ups@.subrange(0, i as int).map_values(
                    |u: (PeerId, PeerState)| peer_event(u),
                ),
            decreases ups@.len() - i,
        {
            let (peer, st) = ups[i];
            let e = match st {
                PeerState::Connected => ServerEvent::PeerJoined(peer),
                PeerState::Disconnected => ServerEvent::PeerLeft(peer),
            };
            out.push(e);
            assert(ups@.subrange(0, i + 1).map_values(|u: (PeerId, PeerState)| peer_event(u))
                =~= ups@.subrange(0, i as int).map_values(|u: (PeerId, PeerState)| peer_event(u)).push(e));
            i = i + 1;
        }
        assert(ups@.subrange(0, ups@.len() as int) =~= ups@);
        out
    }
}

} // verus!
