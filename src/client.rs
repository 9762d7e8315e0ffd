use vstd::prelude::*;
use crate::addr::ConnectionAddr;
use crate::auth::{login_request_for, AuthenticationRequest, LoginRequest, LoginResponse};
use crate::peer::{PeerId, PeerState};
use crate::router::{Destination, IncomingMessages, OutgoingMessages};
use crate::wire::{opt_view, Payload};

verus! {

/// Where the client stands with respect to the host.
#[derive(Clone, Copy, Debug, PartialEq, Eq, Hash, Structural)]
pub enum ConnectionState {
    Disconnected,
    /// The transport is open; the host has not answered the login yet.
    Establishing,
    Connected,
}

/// What the client knows of its session.
#[derive(Debug, PartialEq, Eq)]
pub struct SessionState {
    /// The signaling server, kept while a connection is attempted or held.
    pub addr: Option<ConnectionAddr>,
    /// Credentials waiting to be sent once the host is reached.
    pub auth: Option<AuthenticationRequest>,
    /// Our own id, as the transport gave it.
    pub local_id: Option<PeerId>,
    /// The id of the host.
    pub host_id: Option<PeerId>,
}

/// A request from the application.
#[derive(Debug, PartialEq, Eq)]
pub enum ConnectionRequest {
    /// Connect to the host through the signaling server at `addr`, and log
    /// in with `auth`.
    Connect { addr: ConnectionAddr, auth: AuthenticationRequest },
    /// Leave the session.
    Disconnect { reason: Option<String> },
}

/// What the transport must do.
#[derive(Clone, Copy, Debug, PartialEq, Eq)]
pub enum TransportCommand {
    Open(ConnectionAddr),
    Close,
}

/// What the application is told.
#[derive(Debug, PartialEq, Eq)]
pub enum ClientEvent {
    IdAssigned(PeerId),
    ConnectedToHost { host: PeerId, username: String },
    DisconnectedFromHost { reason: Option<String> },
}

/// A client event with its text as characters.
pub enum ClientEventView {
    IdAssigned(PeerId),
    ConnectedToHost { host: PeerId, username: Seq<char> },
    DisconnectedFromHost { reason: Option<Seq<char>> },
}

impl View for ClientEvent {
    type V = ClientEventView;

    open spec fn view(&self) -> ClientEventView {
        match self {
            ClientEvent::IdAssigned(id) => ClientEventView::IdAssigned(*id),
            ClientEvent::ConnectedToHost { host, username } => ClientEventView::ConnectedToHost {
                host: *host,
                username: username@,
            },
            ClientEvent::DisconnectedFromHost { reason } => ClientEventView::DisconnectedFromHost {
                reason: opt_view(*reason),
            },
        }
    }
}

/// The outcome of one step of the state machine.
#[derive(Debug, PartialEq, Eq)]
pub struct Reaction {
    pub command: Option<TransportCommand>,
    pub event: Option<ClientEvent>,
}

/// The view of a reaction.
pub struct ReactionView {
    pub command: Option<TransportCommand>,
    pub event: Option<ClientEventView>,
}

impl View for Reaction {
    type V = ReactionView;

    open spec fn view(&self) -> ReactionView {
        ReactionView {
            command: self.command,
            event: match self.event {
                None => None,
                Some(e) => Some(e@),
            },
        }
    }
}

/// A state that cannot arise from the client's own transitions.
#[derive(Clone, Copy, Debug, PartialEq, Eq, Structural)]
pub enum SessionError {
    /// The host was reached while establishing, with no credentials to send.
    MissingAuthentication,
}

/// The client side of a session.
#[derive(Debug, PartialEq, Eq)]
pub struct SilkClient {
    pub state: ConnectionState,
    pub session: SessionState,
}

/// Text of the reason given when the host peer goes away.
pub open spec fn server_reset_text() -> Seq<char> {
    "Server reset"@
}

/// Text of the reason given when a channel of the transport closes.
pub open spec fn connection_closed_text() -> Seq<char> {
    "Connection closed"@
}

pub open spec fn empty_session() -> SessionState {
    SessionState { addr: None, auth: None, local_id: None, host_id: None }
}

/// The client after a reset.
pub open spec fn disconnected() -> SilkClient {
    SilkClient { state: ConnectionState::Disconnected, session: empty_session() }
}

pub open spec fn no_reaction() -> ReactionView {
    ReactionView { command: None, event: None }
}

/// Reset, transport closed, and the application told why.
pub open spec fn drop_reaction(reason: Option<Seq<char>>) -> ReactionView {
    ReactionView {
        command: Some(TransportCommand::Close),
        event: Some(ClientEventView::DisconnectedFromHost { reason }),
    }
}

/// The effect of a request from the application.
pub open spec fn request_step(c: SilkClient, r: ConnectionRequest) -> (SilkClient, ReactionView) {
    match r {
        ConnectionRequest::Connect { addr, auth } => {
            if c.state == ConnectionState::Disconnected {
                (
                    SilkClient {
                        state: ConnectionState::Establishing,
                        session: SessionState {
                            addr: Some(addr),
                            auth: Some(auth),
                            local_id: c.session.local_id,
                            host_id: c.session.host_id,
                        },
                    },
                    ReactionView { command: Some(TransportCommand::Open(addr)), event: None },
                )
            } else {
                (c, no_reaction())
            }
        },
        ConnectionRequest::Disconnect { reason } => (disconnected(), drop_reaction(
            opt_view(reason),
        )),
    }
}

/// The effect of the transport reporting our own id.
pub open spec fn local_id_step(c: SilkClient, id: Option<PeerId>) -> (SilkClient, ReactionView) {
    match id {
        Some(p) => {
            if c.state != ConnectionState::Disconnected && c.session.local_id is None {
                (
                    SilkClient {
                        state: c.state,
                        session: SessionState {
                            addr: c.session.addr,
                            auth: c.session.auth,
                            local_id: Some(p),
                            host_id: c.session.host_id,
                        },
                    },
                    ReactionView { command: None, event: Some(ClientEventView::IdAssigned(p)) },
                )
            } else {
                (c, no_reaction())
            }
        },
        None => (c, no_reaction()),
    }
}

/// Whether a peer coming up now is the host, reached for the first time.
pub open spec fn host_reached(c: SilkClient, s: PeerState) -> bool {
    s == PeerState::Connected && c.state == ConnectionState::Establishing && c.session.host_id is None
}

/// The effect of the transport reporting that a peer came or went, when the
/// host reached for the first time finds credentials to send.
pub open spec fn peer_step(c: SilkClient, peer: PeerId, s: PeerState) -> (SilkClient, ReactionView) {
    if host_reached(c, s) {
        (
            SilkClient {
                state: c.state,
                session: SessionState {
                    addr: c.session.addr,
                    auth: None,
                    local_id: c.session.local_id,
                    host_id: Some(peer),
                },
            },
            no_reaction(),
        )
    } else if s == PeerState::Disconnected && c.state != ConnectionState::Disconnected {
        (disconnected(), drop_reaction(Some(server_reset_text())))
    } else {
        (c, no_reaction())
    }
}

/// The login requests queued when a peer comes or goes: the stored
/// credentials, for the host reached for the first time.
pub open spec fn peer_login(c: SilkClient, peer: PeerId, s: PeerState) -> Seq<
    (Destination, LoginRequest),
> {
    if host_reached(c, s) && c.session.auth is Some {
        seq![(Destination::Peer(peer), login_request_for(c.session.auth->Some_0))]
    } else {
        seq![]
    }
}

/// The effect of the transport reporting whether any channel closed.
pub open spec fn closed_step(c: SilkClient, any_closed: bool) -> (SilkClient, ReactionView) {
    if any_closed && c.state != ConnectionState::Disconnected {
        (disconnected(), drop_reaction(Some(connection_closed_text())))
    } else {
        (c, no_reaction())
    }
}

/// The effect of the host's answer to the login.
pub open spec fn login_step(c: SilkClient, resp: LoginResponse) -> (SilkClient, ReactionView) {
    if c.state == ConnectionState::Establishing && c.session.host_id is Some {
        match resp {
            LoginResponse::Accepted { username } => (
                SilkClient { state: ConnectionState::Connected, session: c.session },
                ReactionView {
                    command: None,
                    event: Some(
                        ClientEventView::ConnectedToHost {
                            host: c.session.host_id->Some_0,
                            username: username@,
                        },
                    ),
                },
            ),
            LoginResponse::Denied { reason } => (disconnected(), drop_reaction(opt_view(reason))),
        }
    } else {
        (c, no_reaction())
    }
}

/// The effect of requests handled one after another.
pub open spec fn request_steps(c: SilkClient, rs: Seq<ConnectionRequest>) -> (SilkClient, Seq<
    ReactionView,
>)
    decreases rs.len(),
{
    if rs.len() == 0 {
        (c, seq![])
    } else {
        let (c1, outs) = request_steps(c, rs.drop_last());
        let (c2, o) = request_step(c1, rs.last());
        (c2, outs.push(o))
    }
}

/// The effect of peer updates handled one after another, with the login
/// requests they queue.
pub open spec fn peer_steps(c: SilkClient, ups: Seq<(PeerId, PeerState)>) -> (SilkClient, Seq<
    ReactionView,
>, Seq<(Destination, LoginRequest)>)
    decreases ups.len(),
{
    if ups.len() == 0 {
        (c, seq![], seq![])
    } else {
        let (c1, outs, sent) = peer_steps(c, ups.drop_last());
        let (c2, o) = peer_step(c1, ups.last().0, ups.last().1);
        (c2, outs.push(o), sent + peer_login(c1, ups.last().0, ups.last().1))
    }
}

/// The effect of the host's answers handled one after another.
pub open spec fn login_steps(c: SilkClient, rs: Seq<(PeerId, LoginResponse)>) -> (SilkClient, Seq<
    ReactionView,
>)
    decreases rs.len(),
{
    if rs.len() == 0 {
        (c, seq![])
    } else {
        let (c1, outs) = login_steps(c, rs.drop_last());
        let (c2, o) = login_step(c1, rs.last().1);
        (c2, outs.push(o))
    }
}

/// The effect of what the transport reports in one tick: our id first, then
/// each peer update in order, then whether a channel closed.
pub open spec fn socket_step(
    c: SilkClient,
    id: Option<PeerId>,
    ups: Seq<(PeerId, PeerState)>,
    any_closed: bool,
) -> (SilkClient, Seq<ReactionView>, Seq<(Destination, LoginRequest)>) {
    let (c1, o1) = local_id_step(c, id);
    let (c2, o2, sent) = peer_steps(c1, ups);
    let (c3, o3) = closed_step(c2, any_closed);
    (c3, seq![o1] + o2 + seq![o3], sent)
}

pub open spec fn reaction_views(rs: Seq<Reaction>) -> Seq<ReactionView> {
    rs.map_values(|r: Reaction| r@)
}

impl SessionState {
    pub fn new() -> (r: SessionState)
        ensures
            r == empty_session(),
    {
        SessionState { addr: None, auth: None, local_id: None, host_id: None }
    }
}

impl SilkClient {
    /// The invariant that every transition keeps.
    pub open spec fn wf(&self) -> bool {
        match self.state {
            ConnectionState::Disconnected => self.session == empty_session(),
            ConnectionState::Establishing => {
                &&& self.session.addr is Some
                &&& (self.session.host_id is None <==> self.session.auth is Some)
            },
            ConnectionState::Connected => {
                &&& self.session.addr is Some
                &&& self.session.host_id is Some
                &&& self.session.auth is None
            },
        }
    }

    /// Whether the invariant holds, for callers outside verified code.
    pub fn is_wf(&self) -> (r: bool)
        ensures
            r == self.wf(),
    {
        let s = &self.session;
        match self.state {
            ConnectionState::Disconnected => s.addr.is_none() && s.auth.is_none()
                && s.local_id.is_none() && s.host_id.is_none(),
            ConnectionState::Establishing => s.addr.is_some() && (s.host_id.is_none()
                == s.auth.is_some()),
            ConnectionState::Connected => s.addr.is_some() && s.host_id.is_some()
                && s.auth.is_none(),
        }
    }

    /// A client that has never connected.
    pub fn new() -> (r: SilkClient)
        ensures
            r == disconnected(),
            r.wf(),
    {
        SilkClient { state: ConnectionState::Disconnected, session: SessionState::new() }
    }

    /// Back to the initial state; the transport is to be closed and the
    /// application told why.
    fn reset(&mut self, reason: Option<String>) -> (r: Reaction)
        ensures
            *final(self) == disconnected(),
            r@ == drop_reaction(opt_view(reason)),
    {
        self.state = ConnectionState::Disconnected;
        self.session = SessionState::new();
        Reaction {
            command: Some(TransportCommand::Close),
            event: Some(ClientEvent::DisconnectedFromHost { reason }),
        }
    }

    /// Handles one request: `Connect` only while disconnected, `Disconnect`
    /// in any state.
    pub fn handle_request(&mut self, r: ConnectionRequest) -> (out: Reaction)
        ensures
            (*final(self), out@) == request_step(*old(self), r),
            old(self).wf() ==> final(self).wf(),
    {
        match r {
            ConnectionRequest::Connect { addr, auth } => {
                if self.state == ConnectionState::Disconnected {
                    self.session.addr = Some(addr);
                    self.session.auth = Some(auth);
                    self.state = ConnectionState::Establishing;
                    Reaction { command: Some(TransportCommand::Open(addr)), event: None }
                } else {
                    Reaction { command: None, event: None }
                }
            },
            ConnectionRequest::Disconnect { reason } => self.reset(reason),
        }
    }

    /// Latches our own id the first time the open transport reports it.
    pub fn observe_local_id(&mut self, id: Option<PeerId>) -> (out: Reaction)
        ensures
            (*final(self), out@) == local_id_step(*old(self), id),
            old(self).wf() ==> final(self).wf(),
    {
        match id {
            Some(p) => {
                if self.state != ConnectionState::Disconnected && self.session.local_id.is_none() {
                    self.session.local_id = Some(p);
                    Reaction { command: None, event: Some(ClientEvent::IdAssigned(p)) }
                } else {
                    Reaction { command: None, event: None }
                }
            },
            None => Reaction { command: None, event: None },
        }
    }

    /// Handles a peer coming or going. The host reached for the first time
    /// while establishing gets the stored credentials as a login request on
    /// the reliable channel; that no credentials are stored then is an error,
    /// which leaves everything as it was.
    pub fn observe_peer(
        &mut self,
        peer: PeerId,
        s: PeerState,
        login: &mut OutgoingMessages<LoginRequest>,
    ) -> (out: Result<Reaction, SessionError>)
        ensures
            out is Err <==> host_reached(*old(self), s) && old(self).session.auth is None,
            out is Err ==> *final(self) == *old(self) && *final(login) == *old(login),
            out matches Ok(o) ==> (*final(self), o@) == peer_step(*old(self), peer, s),
            final(login).reliable@ == old(login).reliable@ + peer_login(*old(self), peer, s),
            final(login).unreliable@ == old(login).unreliable@,
            old(self).wf() ==> out is Ok && final(self).wf(),
    {
        if s == PeerState::Connected && self.state == ConnectionState::Establishing
            && self.session.host_id.is_none() {
            match self.session.auth.take() {
                None => {
                    assert(login.reliable@ =~= old(login).reliable@ + peer_login(
                        *old(self),
                        peer,
                        s,
                    ));
                    Err(SessionError::MissingAuthentication)
                },
                Some(auth) => {
                    self.session.host_id = Some(peer);
                    login.reliable_to_peer(peer, auth.into_login_request());
                    assert(login.reliable@ =~= old(login).reliable@ + peer_login(
                        *old(self),
                        peer,
                        s,
                    ));
                    Ok(Reaction { command: None, event: None })
                },
            }
        } else if s == PeerState::Disconnected && self.state != ConnectionState::Disconnected {
            assert(login.reliable@ =~= old(login).reliable@ + peer_login(*old(self), peer, s));
            let reason = String::from_str("Server reset");
            Ok(self.reset(Some(reason)))
        } else {
            assert(login.reliable@ =~= old(login).reliable@ + peer_login(*old(self), peer, s));
            Ok(Reaction { command: None, event: None })
        }
    }

    /// Handles the transport reporting whether any channel has closed.
    pub fn observe_closed(&mut self, any_closed: bool) -> (out: Reaction)
        ensures
            (*final(self), out@) == closed_step(*old(self), any_closed),
            old(self).wf() ==> final(self).wf(),
    {
        if any_closed && self.state != ConnectionState::Disconnected {
            let reason = String::from_str("Connection closed");
            self.reset(Some(reason))
        } else {
            Reaction { command: None, event: None }
        }
    }

    /// Handles the host's answer to the login, which counts only while
    /// establishing with the host known. An answer in any other state
    /// (disconnected, already connected, or before the host was reached)
    /// answers no login request of this session, and is dropped.
    pub fn on_login(&mut self, resp: LoginResponse) -> (out: Reaction)
        ensures
            (*final(self), out@) == login_step(*old(self), resp),
            old(self).wf() ==> final(self).wf(),
    {
        if self.state == ConnectionState::Establishing {
            match self.session.host_id {
                Some(host) => match resp {
                    LoginResponse::Accepted { username } => {
                        self.state = ConnectionState::Connected;
                        Reaction {
                            command: None,
                            event: Some(ClientEvent::ConnectedToHost { host, username }),
                        }
                    },
                    LoginResponse::Denied { reason } => self.reset(reason),
                },
                None => Reaction { command: None, event: None },
            }
        } else {
            Reaction { command: None, event: None }
        }
    }

    /// Handles the requests of one tick: the first one only, the rest are
    /// dropped.
    pub fn handle_requests(&mut self, rs: Vec<ConnectionRequest>) -> (out: Reaction)
        ensures
            rs@.len() == 0 ==> *final(self) == *old(self) && out@ == no_reaction(),
            rs@.len() > 0 ==> (*final(self), out@) == request_step(*old(self), rs@[0]),
            old(self).wf() ==> final(self).wf(),
    {
        let mut rs = rs;
        if rs.len() == 0 {
            Reaction { command: None, event: None }
        } else {
            let first = rs.swap_remove(0);
            self.handle_request(first)
        }
    }

    /// Handles what the transport reports in one tick: our id, the peer
    /// updates in order, then whether any channel closed. Login requests for
    /// the host go to `login`.
    pub fn read_socket(
        &mut self,
        id: Option<PeerId>,
        ups: &Vec<(PeerId, PeerState)>,
        any_closed: bool,
        login: &mut OutgoingMessages<LoginRequest>,
    ) -> (out: Vec<Reaction>)
        requires
            old(self).wf(),
        ensures
            (*final(self), reaction_views(out@), final(login).reliable@.subrange(
                old(login).reliable@.len() as int,
                final(login).reliable@.len() as int,
            )) == socket_step(*old(self), id, ups@, any_closed),
            old(login).reliable@.len() <= final(login).reliable@.len(),
            final(login).reliable@.subrange(0, old(login).reliable@.len() as int)
                == old(login).reliable@,
            final(login).unreliable@ == old(login).unreliable@,
            final(self).wf(),
    {
        let mut out: Vec<Reaction> = Vec::new();
        let r = self.observe_local_id(id);
        out.push(r);
        let ghost c1 = *self;
        let ghost base = login.reliable@;
        let ghost o1 = reaction_views(out@);
        let mut i: usize = 0;
        while i < ups.len()
            invariant
                i <= ups@.len(),
                c1.wf(),
                self.wf(),
                login.reliable@.subrange(0, base.len() as int) == base,
                base.len() <= login.reliable@.len(),
                login.unreliable@ == old(login).unreliable@,
                base == old(login).reliable@,
                o1.len() == 1,
                out@.len() >= 1,
                (*self, reaction_views(out@).subrange(1, out@.len() as int), login.reliable@.subrange(
                    base.len() as int,
                    login.reliable@.len() as int,
                )) == peer_steps(c1, ups@.subrange(0, i as int)),
                reaction_views(out@).subrange(0, 1) == o1,
            decreases ups@.len() - i,
        {
            let ghost prev = *self;
            let ghost prev_out = reaction_views(out@);
            let ghost prev_sent = login.reliable@;
            assert(ups@.subrange(0, i + 1).drop_last() =~= ups@.subrange(0, i as int));
            let (peer, st) = ups[i];
            let r = self.observe_peer(peer, st, login);
            match r {
                Ok(o) => {
                    out.push(o);
                },
                Err(_) => {},
            }
            proof {
                assert(reaction_views(out@) =~= prev_out.push(
                    peer_step(prev, peer, st).1,
                ));
                assert(reaction_views(out@).subrange(1, out@.len() as int) =~= prev_out.subrange(
                    1,
                    prev_out.len() as int,
                ).push(peer_step(prev, peer, st).1));
                assert(reaction_views(out@).subrange(0, 1) =~= prev_out.subrange(0, 1));
                assert(login.reliable@.subrange(base.len() as int, login.reliable@.len() as int)
                    =~= prev_sent.subrange(base.len() as int, prev_sent.len() as int) + peer_login(
                    prev,
                    peer,
                    st,
                ));
                assert(login.reliable@.subrange(0, base.len() as int) =~= prev_sent.subrange(
                    0,
                    base.len() as int,
                ));
            }
            i = i + 1;
        }
        let ghost mid = reaction_views(out@);
        let r = self.observe_closed(any_closed);
        out.push(r);
        proof {
            assert(ups@.subrange(0, ups@.len() as int) =~= ups@);
            assert(reaction_views(out@) =~= mid.push(r@));
            assert(mid =~= o1 + mid.subrange(1, mid.len() as int));
            assert(reaction_views(out@) =~= o1 + mid.subrange(1, mid.len() as int) + seq![r@]);
        }
        out
    }

    /// Handles every answer to the login received this tick, in order, and
    /// empties `inbound`.
    pub fn on_login_responses(&mut self, inbound: &mut IncomingMessages<LoginResponse>) -> (out: Vec<
        Reaction,
    >)
        ensures
            (*final(self), reaction_views(out@)) == login_steps(*old(self), old(inbound).messages@),
            final(inbound).messages@ == Seq::<(PeerId, LoginResponse)>::empty(),
            old(self).wf() ==> final(self).wf(),
    {
        let ghost all = inbound.messages@;
        let n = inbound.messages.len();
        let ghost c0 = *self;
        let mut out: Vec<Reaction> = Vec::new();
        let mut k: usize = 0;
        while inbound.messages.len() > 0
            invariant
                k <= all.len(),
                all.len() == n,
                inbound.messages@ == all.subrange(k as int, all.len() as int),
                (*self, reaction_views(out@)) == login_steps(c0, all.subrange(0, k as int)),
                c0.wf() ==> self.wf(),
            decreases all.len() - k,
        {
            let ghost prev_out = reaction_views(out@);
            assert(all.subrange(0, k + 1).drop_last() =~= all.subrange(0, k as int));
            assert(all.subrange(0, k + 1).last() == inbound.messages@[0]);
            let (_, resp) = inbound.messages.remove(0);
            let o = self.on_login(resp);
            out.push(o);
            proof {
                assert(reaction_views(out@) =~= prev_out.push(o@));
                assert(inbound.messages@ =~= all.subrange(k + 1, all.len() as int));
            }
            k = k + 1;
        }
        assert(all.subrange(0, all.len() as int) =~= all);
        out
    }

    /// Queues `m` for the host on the reliable channel.
    pub fn reliable_to_host<M: Payload>(&self, out: &mut OutgoingMessages<M>, m: M)
        requires
            self.session.host_id is Some,
        ensures
            final(out).reliable@ == old(out).reliable@.push(
                (Destination::Peer(self.session.host_id->Some_0), m),
            ),
            final(out).unreliable@ == old(out).unreliable@,
    {
        match self.session.host_id {
            Some(host) => out.reliable_to_peer(host, m),
            None => {},
        }
    }

    /// Queues `m` for the host on the unreliable channel.
    pub fn unreliable_to_host<M: Payload>(&self, out: &mut OutgoingMessages<M>, m: M)
        requires
            self.session.host_id is Some,
        ensures
            final(out).unreliable@ == old(out).unreliable@.push(
                (Destination::Peer(self.session.host_id->Some_0), m),
            ),
            final(out).reliable@ == old(out).reliable@,
    {
        match self.session.host_id {
            Some(host) => out.unreliable_to_peer(host, m),
            None => {},
        }
    }
}

} // verus!
