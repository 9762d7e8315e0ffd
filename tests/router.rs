use silk::auth::{LoginRequest, LoginResponse};
use silk::peer::{Channel, PeerId, PeerState};
use silk::router::{Frame, IncomingMessages, MessageRegistry, OutgoingMessages, RouterError};
use silk::server::{ServerEvent, SilkServer};
use silk::addr::ConnectionAddr;
use silk::wire::Payload;

fn queues<M: Payload>() -> (IncomingMessages<M>, OutgoingMessages<M>) {
    MessageRegistry::new().add_network_message::<M>().unwrap()
}

fn accepted(name: &str) -> LoginResponse {
    LoginResponse::Accepted { username: name.to_string() }
}

#[test]
fn inbound_keeps_only_this_tick() {
    let mut inbox = queues::<LoginResponse>().0;
    let frames = vec![
        Frame { peer: PeerId(1), data: accepted("a").to_packet() },
        Frame { peer: PeerId(2), data: vec![0xff, 1, 2] },
        Frame { peer: PeerId(3), data: LoginRequest::Guest { username: None }.to_packet() },
        Frame { peer: PeerId(4), data: accepted("b").to_packet() },
    ];
    assert_eq!(inbox.receive(&frames), 2);
    assert_eq!(inbox.messages, vec![(PeerId(1), accepted("a")), (PeerId(4), accepted("b"))]);
    let next = vec![Frame { peer: PeerId(5), data: accepted("c").to_packet() }];
    assert_eq!(inbox.receive(&next), 0);
    assert_eq!(inbox.messages, vec![(PeerId(5), accepted("c"))]);
    assert_eq!(inbox.receive(&vec![]), 0);
    assert!(inbox.messages.is_empty());
}

#[test]
fn read_system_appends_and_flush_clears() {
    let mut inbox = queues::<LoginResponse>().0;
    let frames = vec![Frame { peer: PeerId(1), data: accepted("a").to_packet() }];
    inbox.read_system(&frames);
    inbox.read_system(&frames);
    assert_eq!(inbox.messages.len(), 2);
    inbox.read_system(&vec![Frame { peer: PeerId(2), data: vec![0xff] }]);
    assert_eq!(inbox.messages.len(), 2);
    inbox.flush();
    assert!(inbox.messages.is_empty());
}

#[test]
fn reliable_sends_keep_order() {
    let mut out = queues::<LoginResponse>().1;
    let names = ["one", "two", "three"];
    for n in names {
        out.reliable_to_peer(PeerId(7), accepted(n));
    }
    let sent = out.drain(&vec![PeerId(8)]);
    assert_eq!(sent.len(), 3);
    for (t, n) in sent.iter().zip(names) {
        assert_eq!(t.channel, Channel::Reliable);
        assert_eq!(t.peer, PeerId(7));
        assert_eq!(t.data, accepted(n).to_packet());
    }
    assert!(out.reliable.is_empty());
    assert!(out.unreliable.is_empty());
    assert!(out.drain(&vec![PeerId(8)]).is_empty());
}

#[test]
fn broadcast_reaches_every_peer() {
    let mut out = queues::<LoginResponse>().1;
    out.unreliable_to_all(accepted("u"));
    out.reliable_to_all(accepted("r"));
    out.unreliable_to_peer(PeerId(2), accepted("p"));
    let sent = out.drain(&vec![PeerId(1), PeerId(2)]);
    let got: Vec<_> = sent.iter().map(|t| (t.channel, t.peer, t.data.clone())).collect();
    assert_eq!(
        got,
        vec![
            (Channel::Reliable, PeerId(1), accepted("r").to_packet()),
            (Channel::Reliable, PeerId(2), accepted("r").to_packet()),
            (Channel::Unreliable, PeerId(1), accepted("u").to_packet()),
            (Channel::Unreliable, PeerId(2), accepted("u").to_packet()),
            (Channel::Unreliable, PeerId(2), accepted("p").to_packet()),
        ]
    );
    let none = out.drain(&vec![]);
    assert!(none.is_empty());
}

#[test]
fn broadcast_with_no_peers_sends_nothing() {
    let mut out = queues::<LoginResponse>().1;
    out.reliable_to_all(accepted("r"));
    assert!(out.drain(&vec![]).is_empty());
    assert!(out.reliable.is_empty());
}

#[test]
fn duplicate_registration_refused() {
    let mut reg = MessageRegistry::new();
    let (inbox, outbox) = reg.add_network_message::<LoginRequest>().unwrap();
    assert!(inbox.messages.is_empty());
    assert!(outbox.reliable.is_empty() && outbox.unreliable.is_empty());
    assert!(reg.add_network_message::<LoginResponse>().is_ok());
    assert!(matches!(
        reg.add_network_message::<LoginRequest>(),
        Err(RouterError::AlreadyRegistered)
    ));
    assert_eq!(reg.names, vec!["LoginRequest".to_string(), "LoginResponse".to_string()]);
}

#[test]
fn server_events() {
    let mut server = SilkServer::new(ConnectionAddr::Local { port: 3536 });
    let ups = vec![(PeerId(1), PeerState::Connected), (PeerId(2), PeerState::Disconnected)];
    let ev = server.read_socket(Some(PeerId(9)), &ups);
    assert_eq!(
        ev,
        vec![
            ServerEvent::IdAssigned(PeerId(9)),
            ServerEvent::PeerJoined(PeerId(1)),
            ServerEvent::PeerLeft(PeerId(2)),
        ]
    );
    let ev = server.read_socket(Some(PeerId(9)), &vec![]);
    assert!(ev.is_empty());
    assert_eq!(server.id, Some(PeerId(9)));
}
