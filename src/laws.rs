use vstd::prelude::*;
use crate::addr::ConnectionAddr;
use crate::auth::{login_request_for, AuthenticationRequest, LoginResponse};
use crate::client::{
    drop_reaction, no_reaction, peer_login, peer_step, login_step, request_step, request_steps,
    server_reset_text, ClientEventView, ConnectionRequest, ConnectionState, ReactionView,
    SilkClient, TransportCommand,
};
use crate::peer::{Channel, PeerId, PeerState};
use crate::router::{decoded_from, transmissions, Destination, Frame};
use crate::wire::{opt_view, Payload};

verus! {

/// Connect requests made while establishing or connected change nothing and
/// ask nothing of the transport, however many there are.
pub proof fn lemma_redundant_connects(c: SilkClient, rs: Seq<ConnectionRequest>)
    requires
        c.state != ConnectionState::Disconnected,
        forall|i: int| 0 <= i < rs.len() ==> #[trigger] rs[i] is Connect,
    ensures
        request_steps(c, rs).0 == c,
        forall|i: int| 0 <= i < rs.len() ==> #[trigger] request_steps(c, rs).1[i] == no_reaction(),
        request_steps(c, rs).1.len() == rs.len(),
    decreases rs.len(),
{
    if rs.len() > 0 {
        let init = rs.drop_last();
        assert forall|i: int| 0 <= i < init.len() implies #[trigger] init[i] is Connect by {
            assert(init[i] == rs[i]);
        }
        lemma_redundant_connects(c, init);
        assert(rs[rs.len() - 1] is Connect);
    }
}

/// From a fresh client, a connect request followed by the first sight of the
/// host queues exactly one login request, carrying the credentials, for the
/// host on the reliable channel; the credentials are then gone, and the host
/// seen again queues nothing more.
pub proof fn lemma_connect_then_host(
    c: SilkClient,
    addr: ConnectionAddr,
    auth: AuthenticationRequest,
    host: PeerId,
)
    requires
        c.wf(),
        c.state == ConnectionState::Disconnected,
    ensures
        ({
            let c1 = request_step(c, ConnectionRequest::Connect { addr, auth }).0;
            let c2 = peer_step(c1, host, PeerState::Connected).0;
            &&& c1.state == ConnectionState::Establishing
            &&& peer_login(c1, host, PeerState::Connected) == seq![
                (Destination::Peer(host), login_request_for(auth)),
            ]
            &&& c2.session.auth is None
            &&& c2.session.host_id == Some(host)
            &&& c2.state == ConnectionState::Establishing
            &&& peer_login(c2, host, PeerState::Connected) == Seq::<
                (Destination, crate::auth::LoginRequest),
            >::empty()
        }),
{
}

/// An acceptance while establishing with the host known connects, and tells
/// the application once, with the host and the name the host gave.
pub proof fn lemma_accepted(c: SilkClient, username: String)
    requires
        c.wf(),
        c.state == ConnectionState::Establishing,
        c.session.host_id is Some,
    ensures
        ({
            let (c1, r) = login_step(c, LoginResponse::Accepted { username });
            &&& c1.state == ConnectionState::Connected
            &&& c1.wf()
            &&& r == ReactionView {
                command: None,
                event: Some(
                    ClientEventView::ConnectedToHost {
                        host: c.session.host_id->Some_0,
                        username: username@,
                    },
                ),
            }
        }),
{
}

/// A denial while establishing with the host known disconnects, forgets the
/// host, closes the transport and tells the application once, with the
/// reason the host gave.
pub proof fn lemma_denied(c: SilkClient, reason: Option<String>)
    requires
        c.wf(),
        c.state == ConnectionState::Establishing,
        c.session.host_id is Some,
    ensures
        ({
            let (c1, r) = login_step(c, LoginResponse::Denied { reason });
            &&& c1.state == ConnectionState::Disconnected
            &&& c1.session.host_id is None
            &&& r == drop_reaction(opt_view(reason))
            &&& r.command == Some(TransportCommand::Close)
        }),
{
}

/// Losing the host while connected disconnects and is reported once: the
/// same news seen again does nothing.
pub proof fn lemma_host_loss_reported_once(c: SilkClient, host: PeerId)
    requires
        c.wf(),
        c.state == ConnectionState::Connected,
    ensures
        ({
            let (c1, r1) = peer_step(c, host, PeerState::Disconnected);
            let (c2, r2) = peer_step(c1, host, PeerState::Disconnected);
            &&& c1.state == ConnectionState::Disconnected
            &&& r1 == drop_reaction(Some(server_reset_text()))
            &&& c2 == c1
            &&& r2 == no_reaction()
        }),
{
}

/// With no frame delivered since the flush, no message is held.
pub proof fn lemma_nothing_delivered<M: Payload>(msgs: Seq<(PeerId, M)>)
    requires
        decoded_from(msgs, Seq::<Frame>::empty()),
    ensures
        msgs.len() == 0,
{
}

/// Messages queued for single peers on the reliable channel become exactly
/// one send each, in queue order, on the reliable channel to their peer.
pub proof fn lemma_reliable_sends<M: Payload>(q: Seq<(Destination, M)>, peers: Seq<PeerId>)
    requires
        forall|i: int| 0 <= i < q.len() ==> (#[trigger] q[i]).0 is Peer,
    ensures
        transmissions(q, Channel::Reliable, peers).len() == q.len(),
        forall|i: int|
            0 <= i < q.len() ==> #[trigger] transmissions(q, Channel::Reliable, peers)[i] == (
                Channel::Reliable,
                q[i].0->Peer_0,
                q[i].1.wire(),
            ),
    decreases q.len(),
{
    if q.len() > 0 {
        let init = q.drop_last();
        assert forall|i: int| 0 <= i < init.len() implies (#[trigger] init[i]).0 is Peer by {
            assert(init[i] == q[i]);
        }
        lemma_reliable_sends(init, peers);
        assert(q[q.len() - 1].0 is Peer);
        assert forall|i: int| 0 <= i < q.len() implies #[trigger] transmissions(
            q,
            Channel::Reliable,
            peers,
        )[i] == (Channel::Reliable, q[i].0->Peer_0, q[i].1.wire()) by {
            if i < q.len() - 1 {
                assert(init[i] == q[i]);
            }
        }
    }
}

} // verus!
