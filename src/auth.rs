use vstd::prelude::*;
use crate::wire::{
    is_prefix, opt_view, opt_wire, push_opt_str, push_str, read_opt_str, read_str, str_wire,
    Payload,
};

verus! {

/// The credentials a client presents to the host once it can reach it.
#[derive(Clone, Debug, PartialEq, Eq)]
pub enum AuthenticationRequest {
    Registered { access_token: String, character: String },
    Guest { username: Option<String> },
}

/// First message of the handshake, client to host, on the reliable channel.
#[derive(Clone, Debug, PartialEq, Eq)]
pub enum LoginRequest {
    RegisteredUser { access_token: String, character: String },
    Guest { username: Option<String> },
}

/// Second message of the handshake, host to client, on the reliable channel.
#[derive(Clone, Debug, PartialEq, Eq)]
pub enum LoginResponse {
    Accepted { username: String },
    Denied { reason: Option<String> },
}

/// First byte of each kind of handshake message.
pub const REGISTERED_USER_TAG: u8 = 1;
pub const GUEST_TAG: u8 = 2;
pub const ACCEPTED_TAG: u8 = 3;
pub const DENIED_TAG: u8 = 4;

/// The login request that carries the given credentials.
pub open spec fn login_request_for(auth: AuthenticationRequest) -> LoginRequest {
    match auth {
        AuthenticationRequest::Registered { access_token, character } => {
            LoginRequest::RegisteredUser { access_token, character }
        },
        AuthenticationRequest::Guest { username } => LoginRequest::Guest { username },
    }
}

impl AuthenticationRequest {
    /// The login request that carries these credentials.
    pub fn into_login_request(self) -> (r: LoginRequest)
        ensures
            r == login_request_for(self),
    {
        match self {
            AuthenticationRequest::Registered { access_token, character } => {
                LoginRequest::RegisteredUser { access_token, character }
            },
            AuthenticationRequest::Guest { username } => LoginRequest::Guest { username },
        }
    }
}

proof fn lemma_split(a: Seq<u8>, c: Seq<u8>)
    ensures
        is_prefix(a, a + c),
        (a + c).subrange(a.len() as int, (a + c).len() as int) == c,
{
    assert((a + c).subrange(0, a.len() as int) =~= a);
    assert((a + c).subrange(a.len() as int, (a + c).len() as int) =~= c);
}

impl Payload for LoginRequest {
    open spec fn wire(&self) -> Seq<u8> {
        match self {
            LoginRequest::RegisteredUser { access_token, character } => seq![REGISTERED_USER_TAG]
                + str_wire(access_token@) + str_wire(character@),
            LoginRequest::Guest { username } => seq![GUEST_TAG] + opt_wire(opt_view(*username)),
        }
    }

    open spec fn name() -> Seq<char> {
        "LoginRequest"@
    }

    fn reflect_name() -> (r: &'static str) {
        "LoginRequest"
    }

    fn to_packet(&self) -> (r: Vec<u8>) {
        let mut out: Vec<u8> = Vec::new();
        match self {
            LoginRequest::RegisteredUser { access_token, character } => {
                out.push(REGISTERED_USER_TAG);
                push_str(&mut out, access_token);
                push_str(&mut out, character);
            },
            LoginRequest::Guest { username } => {
                out.push(GUEST_TAG);
                push_opt_str(&mut out, username);
            },
        }
        assert(out@ =~= self.wire());
        out
    }

    fn from_packet(p: &[u8]) -> (r: Option<Self>) {
        if p.len() == 0 {
            assert forall|m: LoginRequest| #[trigger] m.wire() != p@ by {
                assert(m.wire().len() > 0);
            }
            return None;
        }
        let tag = p[0];
        if tag == REGISTERED_USER_TAG {
            let ghost owed = exists|m: LoginRequest| #[trigger] m.wire() == p@;
            proof {
                if owed {
                    let m = choose|m: LoginRequest| #[trigger] m.wire() == p@;
                    assert(m.wire()[0] == tag);
                    let a = str_wire(m->RegisteredUser_access_token@);
                    let c = str_wire(m->RegisteredUser_character@);
                    assert(p@ =~= seq![tag] + (a + c));
                    lemma_split(seq![tag], a + c);
                    lemma_split(a, c);
                    assert(p@.subrange(1, p@.len() as int) =~= a + c);
                }
            }
            match read_str(p, 1) {
                None => {
                    assert(!owed);
                    None
                },
                Some((access_token, e1)) => {
                    proof {
                        if owed {
                            let m = choose|m: LoginRequest| #[trigger] m.wire() == p@;
                            let a = str_wire(m->RegisteredUser_access_token@);
                            let c = str_wire(m->RegisteredUser_character@);
                            assert(p@.subrange(e1 as int, p@.len() as int) =~= c);
                            lemma_split(c, seq![]);
                            assert(c + seq![] =~= c);
                        }
                    }
                    match read_str(p, e1) {
                        None => {
                            assert(!owed);
                            None
                        },
                        Some((character, e2)) => {
                            if e2 == p.len() {
                                let m = LoginRequest::RegisteredUser { access_token, character };
                                assert(p@ =~= seq![tag] + p@.subrange(1, e1 as int) + p@.subrange(
                                    e1 as int,
                                    e2 as int,
                                ));
                                Some(m)
                            } else {
                                assert(!owed);
                                None
                            }
                        },
                    }
                },
            }
        } else if tag == GUEST_TAG {
            let ghost owed = exists|m: LoginRequest| #[trigger] m.wire() == p@;
            proof {
                if owed {
                    let m = choose|m: LoginRequest| #[trigger] m.wire() == p@;
                    assert(m.wire()[0] == tag);
                    let u = opt_wire(opt_view(m->Guest_username));
                    assert(p@ =~= seq![tag] + u);
                    lemma_split(seq![tag], u);
                    lemma_split(u, seq![]);
                    assert(u + seq![] =~= u);
                }
            }
            match read_opt_str(p, 1) {
                None => {
                    assert(!owed);
                    None
                },
                Some((username, e)) => {
                    if e == p.len() {
                        assert(p@ =~= seq![tag] + p@.subrange(1, e as int));
                        Some(LoginRequest::Guest { username })
                    } else {
                        assert(!owed);
                        None
                    }
                },
            }
        } else {
            assert forall|m: LoginRequest| #[trigger] m.wire() != p@ by {
                if m.wire() == p@ {
                    assert(m.wire()[0] == p@[0]);
                }
            }
            None
        }
    }
}

impl Payload for LoginResponse {
    open spec fn wire(&self) -> Seq<u8> {
        match self {
            LoginResponse::Accepted { username } => seq![ACCEPTED_TAG] + str_wire(username@),
            LoginResponse::Denied { reason } => seq![DENIED_TAG] + opt_wire(opt_view(*reason)),
        }
    }

    open spec fn name() -> Seq<char> {
        "LoginResponse"@
    }

    fn reflect_name() -> (r: &'static str) {
        "LoginResponse"
    }

    fn to_packet(&self) -> (r: Vec<u8>) {
        let mut out: Vec<u8> = Vec::new();
        match self {
            LoginResponse::Accepted { username } => {
                out.push(ACCEPTED_TAG);
                push_str(&mut out, username);
            },
            LoginResponse::Denied { reason } => {
                out.push(DENIED_TAG);
                push_opt_str(&mut out, reason);
            },
        }
        assert(out@ =~= self.wire());
        out
    }

    fn from_packet(p: &[u8]) -> (r: Option<Self>) {
        if p.len() == 0 {
            assert forall|m: LoginResponse| #[trigger] m.wire() != p@ by {
                assert(m.wire().len() > 0);
            }
            return None;
        }
        let tag = p[0];
        if tag == ACCEPTED_TAG {
            let ghost owed = exists|m: LoginResponse| #[trigger] m.wire() == p@;
            proof {
                if owed {
                    let m = choose|m: LoginResponse| #[trigger] m.wire() == p@;
                    assert(m.wire()[0] == tag);
                    let u = str_wire(m->Accepted_username@);
                    assert(p@ =~= seq![tag] + u);
                    lemma_split(seq![tag], u);
                    lemma_split(u, seq![]);
                    assert(u + seq![] =~= u);
                }
            }
            match read_str(p, 1) {
                None => {
                    assert(!owed);
                    None
                },
                Some((username, e)) => {
                    if e == p.len() {
                        assert(p@ =~= seq![tag] + p@.subrange(1, e as int));
                        Some(LoginResponse::Accepted { username })
                    } else {
                        assert(!owed);
                        None
                    }
                },
            }
        } else if tag == DENIED_TAG {
            let ghost owed = exists|m: LoginResponse| #[trigger] m.wire() == p@;
            proof {
                if owed {
                    let m = choose|m: LoginResponse| #[trigger] m.wire() == p@;
                    assert(m.wire()[0] == tag);
                    let u = opt_wire(opt_view(m->Denied_reason));
                    assert(p@ =~= seq![tag] + u);
                    lemma_split(seq![tag], u);
                    lemma_split(u, seq![]);
                    assert(u + seq![] =~= u);
                }
            }
            match read_opt_str(p, 1) {
                None => {
                    assert(!owed);
                    None
                },
                Some((reason, e)) => {
                    if e == p.len() {
                        assert(p@ =~= seq![tag] + p@.subrange(1, e as int));
                        Some(LoginResponse::Denied { reason })
                    } else {
                        assert(!owed);
                        None
                    }
                },
            }
        } else {
            assert forall|m: LoginResponse| #[trigger] m.wire() != p@ by {
                if m.wire() == p@ {
                    assert(m.wire()[0] == p@[0]);
                }
            }
            None
        }
    }
}

} // verus!
