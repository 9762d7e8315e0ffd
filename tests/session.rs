use silk::addr::{ConnectionAddr, IpAddress};
use silk::auth::{AuthenticationRequest, LoginRequest, LoginResponse};
use silk::client::{
    ClientEvent, ConnectionRequest, ConnectionState, SessionError, SessionState, SilkClient,
    TransportCommand,
};
use silk::peer::{Channel, PeerId, PeerState};
use silk::router::{Frame, IncomingMessages, MessageRegistry, OutgoingMessages, Transmission};
use silk::wire::Payload;

fn queues<M: Payload>() -> (IncomingMessages<M>, OutgoingMessages<M>) {
    MessageRegistry::new().add_network_message::<M>().unwrap()
}

const HOST: PeerId = PeerId(0x11);

fn remote() -> ConnectionAddr {
    ConnectionAddr::Remote { ip: IpAddress::V4([127, 0, 0, 1]), port: 3536 }
}

fn guest(name: &str) -> AuthenticationRequest {
    AuthenticationRequest::Guest { username: Some(name.to_string()) }
}

fn connect(client: &mut SilkClient, auth: AuthenticationRequest) {
    let r = client.handle_request(ConnectionRequest::Connect { addr: remote(), auth });
    assert_eq!(r.command, Some(TransportCommand::Open(remote())));
    assert_eq!(r.event, None);
}

/// Connects, sees the host, and returns what the login queue sent.
fn reach_host(client: &mut SilkClient, auth: AuthenticationRequest) -> Vec<Transmission> {
    connect(client, auth);
    let mut login_out = queues::<LoginRequest>().1;
    let out = client.read_socket(None, &vec![(HOST, PeerState::Connected)], false, &mut login_out);
    assert!(out.iter().all(|r| r.command.is_none() && r.event.is_none()));
    login_out.drain(&vec![])
}

fn answer(client: &mut SilkClient, resp: LoginResponse) -> Vec<ClientEvent> {
    let mut login_in = queues::<LoginResponse>().0;
    let frames = vec![Frame { peer: HOST, data: resp.to_packet() }];
    assert_eq!(login_in.receive(&frames), 0);
    let out = client.on_login_responses(&mut login_in);
    assert!(login_in.messages.is_empty());
    out.into_iter().filter_map(|r| r.event).collect()
}

#[test]
fn guest_login_accepted() {
    let mut client = SilkClient::new();
    assert_eq!(client.state, ConnectionState::Disconnected);
    let sent = reach_host(&mut client, guest("alice"));
    assert_eq!(client.state, ConnectionState::Establishing);
    assert_eq!(client.session.host_id, Some(HOST));
    assert_eq!(client.session.auth, None);
    assert_eq!(sent.len(), 1);
    assert_eq!(sent[0].channel, Channel::Reliable);
    assert_eq!(sent[0].peer, HOST);
    assert_eq!(
        LoginRequest::from_packet(&sent[0].data),
        Some(LoginRequest::Guest { username: Some("alice".to_string()) })
    );
    let events = answer(&mut client, LoginResponse::Accepted { username: "alice".to_string() });
    assert_eq!(client.state, ConnectionState::Connected);
    assert!(client.is_wf());
    assert_eq!(
        events,
        vec![ClientEvent::ConnectedToHost { host: HOST, username: "alice".to_string() }]
    );
}

#[test]
fn guest_login_denied() {
    let mut client = SilkClient::new();
    reach_host(&mut client, guest("alice"));
    let events =
        answer(&mut client, LoginResponse::Denied { reason: Some("bad token".to_string()) });
    assert_eq!(client.state, ConnectionState::Disconnected);
    assert_eq!(client.session.host_id, None);
    assert_eq!(
        events,
        vec![ClientEvent::DisconnectedFromHost { reason: Some("bad token".to_string()) }]
    );
}

#[test]
fn host_loss_reported_once() {
    let mut client = SilkClient::new();
    reach_host(&mut client, guest("alice"));
    answer(&mut client, LoginResponse::Accepted { username: "alice".to_string() });
    assert_eq!(client.state, ConnectionState::Connected);
    let mut login_out = queues::<LoginRequest>().1;
    let ups = vec![(HOST, PeerState::Disconnected)];
    let first: Vec<_> = client.read_socket(None, &ups, false, &mut login_out);
    assert_eq!(client.state, ConnectionState::Disconnected);
    let events: Vec<_> = first.into_iter().filter_map(|r| r.event).collect();
    assert_eq!(
        events,
        vec![ClientEvent::DisconnectedFromHost { reason: Some("Server reset".to_string()) }]
    );
    let again = client.read_socket(None, &ups, false, &mut login_out);
    assert!(again.iter().all(|r| r.event.is_none() && r.command.is_none()));
    assert!(login_out.reliable.is_empty());
}

#[test]
fn redundant_connect_changes_nothing() {
    let mut client = SilkClient::new();
    connect(&mut client, guest("alice"));
    for _ in 0..3 {
        let other = ConnectionAddr::Local { port: 9 };
        let r = client.handle_request(ConnectionRequest::Connect { addr: other, auth: guest("bob") });
        assert_eq!(r.command, None);
        assert_eq!(r.event, None);
    }
    assert_eq!(client.state, ConnectionState::Establishing);
    assert_eq!(client.session.addr, Some(remote()));
    assert_eq!(client.session.auth, Some(guest("alice")));
    assert_eq!(client.session.host_id, None);
}

#[test]
fn host_seen_twice_sends_one_login() {
    let mut client = SilkClient::new();
    connect(
        &mut client,
        AuthenticationRequest::Registered {
            access_token: "tok".to_string(),
            character: "knight".to_string(),
        },
    );
    let mut login_out = queues::<LoginRequest>().1;
    let ups = vec![(HOST, PeerState::Connected), (HOST, PeerState::Connected)];
    client.read_socket(None, &ups, false, &mut login_out);
    client.read_socket(None, &ups, false, &mut login_out);
    assert_eq!(client.session.auth, None);
    let sent = login_out.drain(&vec![]);
    assert_eq!(sent.len(), 1);
    assert_eq!(
        LoginRequest::from_packet(&sent[0].data),
        Some(LoginRequest::RegisteredUser {
            access_token: "tok".to_string(),
            character: "knight".to_string()
        })
    );
}

#[test]
fn id_assigned_once() {
    let mut client = SilkClient::new();
    let mut login_out = queues::<LoginRequest>().1;
    let none = client.read_socket(Some(PeerId(5)), &vec![], false, &mut login_out);
    assert!(none.iter().all(|r| r.event.is_none()));
    assert_eq!(client.session.local_id, None);
    connect(&mut client, guest("alice"));
    let first = client.read_socket(Some(PeerId(5)), &vec![], false, &mut login_out);
    let events: Vec<_> = first.into_iter().filter_map(|r| r.event).collect();
    assert_eq!(events, vec![ClientEvent::IdAssigned(PeerId(5))]);
    let second = client.read_socket(Some(PeerId(5)), &vec![], false, &mut login_out);
    assert!(second.iter().all(|r| r.event.is_none()));
    assert_eq!(client.session.local_id, Some(PeerId(5)));
}

#[test]
fn channel_closed_disconnects() {
    let mut client = SilkClient::new();
    reach_host(&mut client, guest("alice"));
    let mut login_out = queues::<LoginRequest>().1;
    let out = client.read_socket(None, &vec![], true, &mut login_out);
    assert_eq!(client.state, ConnectionState::Disconnected);
    assert_eq!(client.session, SessionState::new());
    let last = out.last().unwrap();
    assert_eq!(last.command, Some(TransportCommand::Close));
    assert_eq!(
        last.event,
        Some(ClientEvent::DisconnectedFromHost { reason: Some("Connection closed".to_string()) })
    );
}

#[test]
fn disconnect_request_in_any_state() {
    let mut client = SilkClient::new();
    let r = client.handle_request(ConnectionRequest::Disconnect { reason: None });
    assert_eq!(r.command, Some(TransportCommand::Close));
    assert_eq!(r.event, Some(ClientEvent::DisconnectedFromHost { reason: None }));
    reach_host(&mut client, guest("alice"));
    let r = client.handle_request(ConnectionRequest::Disconnect { reason: Some("bye".to_string()) });
    assert_eq!(client.state, ConnectionState::Disconnected);
    assert_eq!(client.session, SessionState::new());
    assert_eq!(r.event, Some(ClientEvent::DisconnectedFromHost { reason: Some("bye".to_string()) }));
}

#[test]
fn only_first_request_of_a_tick() {
    let mut client = SilkClient::new();
    let r = client.handle_requests(vec![
        ConnectionRequest::Connect { addr: remote(), auth: guest("alice") },
        ConnectionRequest::Disconnect { reason: None },
    ]);
    assert_eq!(r.command, Some(TransportCommand::Open(remote())));
    assert_eq!(client.state, ConnectionState::Establishing);
    let r = client.handle_requests(vec![]);
    assert_eq!(r.command, None);
    assert_eq!(client.state, ConnectionState::Establishing);
}

#[test]
fn host_without_credentials_is_an_error() {
    let mut client = SilkClient {
        state: ConnectionState::Establishing,
        session: SessionState { addr: Some(remote()), auth: None, local_id: None, host_id: None },
    };
    let mut login_out = queues::<LoginRequest>().1;
    assert!(!client.is_wf());
    let r = client.observe_peer(HOST, PeerState::Connected, &mut login_out);
    assert_eq!(r, Err(SessionError::MissingAuthentication));
    assert_eq!(client.session.host_id, None);
    assert!(login_out.reliable.is_empty());
}

#[test]
fn login_answer_outside_establishing_ignored() {
    let mut client = SilkClient::new();
    let events = answer(&mut client, LoginResponse::Accepted { username: "x".to_string() });
    assert!(events.is_empty());
    assert_eq!(client.state, ConnectionState::Disconnected);
}

#[test]
fn send_to_host_after_login() {
    let mut client = SilkClient::new();
    reach_host(&mut client, guest("alice"));
    let mut out = queues::<LoginResponse>().1;
    client.reliable_to_host(&mut out, LoginResponse::Denied { reason: None });
    client.unreliable_to_host(&mut out, LoginResponse::Denied { reason: None });
    let sent = out.drain(&vec![]);
    assert_eq!(sent.len(), 2);
    assert_eq!((sent[0].channel, sent[0].peer), (Channel::Reliable, HOST));
    assert_eq!((sent[1].channel, sent[1].peer), (Channel::Unreliable, HOST));
}
