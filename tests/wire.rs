use silk::addr::{ConnectionAddr, IpAddress};
use silk::auth::{AuthenticationRequest, LoginRequest, LoginResponse};
use silk::peer::{Channel, ChannelConfig, RELIABLE_CHANNEL_INDEX, UNRELIABLE_CHANNEL_INDEX};
use silk::socket::SilkSocket;
use silk::wire::{push_str, read_str, read_u64, push_u64, Payload};

#[test]
fn local_url() {
    assert_eq!(ConnectionAddr::Local { port: 3536 }.to_url(), "ws://0.0.0.0:3536/");
    assert_eq!(ConnectionAddr::Local { port: 0 }.to_url(), "ws://0.0.0.0:0/");
}

#[test]
fn remote_urls() {
    let v4 = ConnectionAddr::Remote { ip: IpAddress::V4([127, 0, 0, 1]), port: 3536 };
    assert_eq!(v4.to_url(), "ws://127.0.0.1:3536/");
    let v4 = ConnectionAddr::Remote { ip: IpAddress::V4([255, 10, 0, 200]), port: 65535 };
    assert_eq!(v4.to_url(), "ws://255.10.0.200:65535/");
    let v6 = ConnectionAddr::Remote {
        ip: IpAddress::V6([0x2001, 0xdb8, 0, 0, 0, 0, 0xffff, 1]),
        port: 80,
    };
    assert_eq!(v6.to_url(), "ws://[2001:db8:0:0:0:0:ffff:1]:80/");
}

#[test]
fn socket_setup() {
    let s = SilkSocket::new(ConnectionAddr::Local { port: 3536 });
    assert_eq!(s.url, "ws://0.0.0.0:3536/");
    assert_eq!(
        s.channels,
        vec![
            ChannelConfig { ordered: true, max_retransmits: Some(0) },
            ChannelConfig { ordered: true, max_retransmits: None },
        ]
    );
    assert_eq!(Channel::Unreliable.index(), UNRELIABLE_CHANNEL_INDEX);
    assert_eq!(Channel::Reliable.index(), RELIABLE_CHANNEL_INDEX);
    assert_eq!(Channel::from_index(1), Some(Channel::Reliable));
    assert_eq!(Channel::from_index(2), None);
    assert_eq!(Channel::all(), vec![Channel::Unreliable, Channel::Reliable]);
}

#[test]
fn integer_layout() {
    let mut out = Vec::new();
    push_u64(&mut out, 0x0102030405060708);
    assert_eq!(out, vec![8, 7, 6, 5, 4, 3, 2, 1]);
    assert_eq!(read_u64(&out, 0), 0x0102030405060708);
}

#[test]
fn string_layout() {
    let mut out = Vec::new();
    push_str(&mut out, &"hé".to_string());
    assert_eq!(out, vec![3, 0, 0, 0, 0, 0, 0, 0, b'h', 0xc3, 0xa9]);
    assert_eq!(read_str(&out, 0), Some(("hé".to_string(), 11)));
    let bad = vec![2, 0, 0, 0, 0, 0, 0, 0, 0xc3, 0x28];
    assert_eq!(read_str(&bad, 0), None);
    let short = vec![5, 0, 0, 0, 0, 0, 0, 0, b'a'];
    assert_eq!(read_str(&short, 0), None);
}

#[test]
fn login_messages_round_trip() {
    let reqs = vec![
        LoginRequest::RegisteredUser { access_token: "t0k".to_string(), character: "".to_string() },
        LoginRequest::Guest { username: None },
        LoginRequest::Guest { username: Some("alice".to_string()) },
    ];
    for r in reqs {
        assert_eq!(LoginRequest::from_packet(&r.to_packet()), Some(r.clone()));
        assert_eq!(LoginResponse::from_packet(&r.to_packet()), None);
    }
    let resps = vec![
        LoginResponse::Accepted { username: "alice".to_string() },
        LoginResponse::Denied { reason: None },
        LoginResponse::Denied { reason: Some("bad token".to_string()) },
    ];
    for r in resps {
        assert_eq!(LoginResponse::from_packet(&r.to_packet()), Some(r.clone()));
        assert_eq!(LoginRequest::from_packet(&r.to_packet()), None);
    }
    assert_eq!(LoginRequest::reflect_name(), "LoginRequest");
    assert_eq!(LoginResponse::reflect_name(), "LoginResponse");
}

#[test]
fn guest_packet_bytes() {
    let p = LoginRequest::Guest { username: Some("al".to_string()) }.to_packet();
    assert_eq!(p, vec![2, 1, 2, 0, 0, 0, 0, 0, 0, 0, b'a', b'l']);
    let p = LoginResponse::Denied { reason: None }.to_packet();
    assert_eq!(p, vec![4, 0]);
}

#[test]
fn malformed_packets_refused() {
    assert_eq!(LoginResponse::from_packet(&[]), None);
    assert_eq!(LoginResponse::from_packet(&[4]), None);
    assert_eq!(LoginResponse::from_packet(&[4, 0, 0]), None);
    assert_eq!(LoginResponse::from_packet(&[4, 2]), None);
    assert_eq!(LoginRequest::from_packet(&[9, 0]), None);
}

#[test]
fn credentials_become_login_request() {
    let a = AuthenticationRequest::Registered { access_token: "x".to_string(), character: "y".to_string() };
    assert_eq!(
        a.into_login_request(),
        LoginRequest::RegisteredUser { access_token: "x".to_string(), character: "y".to_string() }
    );
    let g = AuthenticationRequest::Guest { username: None };
    assert_eq!(g.into_login_request(), LoginRequest::Guest { username: None });
}
