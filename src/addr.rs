use vstd::prelude::*;

verus! {

/// An IP address of a signaling server.
#[derive(Clone, Copy, Debug, PartialEq, Eq)]
pub enum IpAddress {
    V4([u8; 4]),
    V6([u16; 8]),
}

/// Where the signaling server is to be found.
#[derive(Clone, Copy, Debug, PartialEq, Eq)]
pub enum ConnectionAddr {
    /// A signaling server on this machine.
    Local { port: u16 },
    /// A signaling server elsewhere.
    Remote { ip: IpAddress, port: u16 },
}

/// The digit characters, lowest value first.
pub open spec fn digit_chars() -> Seq<char> {
    seq!['0', '1', '2', '3', '4', '5', '6', '7', '8', '9', 'a', 'b', 'c', 'd', 'e', 'f']
}

/// `n` written in `base` with no leading zeros (and `0` as one digit).
pub open spec fn digits(n: nat, base: nat) -> Seq<char>
    recommends
        2 <= base <= 16,
    decreases n via digits_decreases
{
    if n < base || base < 2 {
        seq![digit_chars()[n as int]]
    } else {
        digits(n / base, base) + seq![digit_chars()[(n % base) as int]]
    }
}

#[via_fn]
proof fn digits_decreases(n: nat, base: nat) {
    if !(n < base || base < 2) {
        assert(n / base < n) by (nonlinear_arith)
            requires
                n >= base,
                base >= 2,
        ;
    }
}

/// Dotted decimal form of an IPv4 address.
pub open spec fn ipv4_text(o: Seq<u8>) -> Seq<char> {
    digits(o[0] as nat, 10) + seq!['.'] + digits(o[1] as nat, 10) + seq!['.']
        + digits(o[2] as nat, 10) + seq!['.'] + digits(o[3] as nat, 10)
}

/// Groups `i..8` of an IPv6 address in lowercase hex, each preceded by a colon
/// except the first group of the address.
pub open spec fn ipv6_groups(g: Seq<u16>, i: nat) -> Seq<char>
    decreases 8 - i,
{
    if i >= 8 {
        seq![]
    } else {
        (if i == 0 { seq![] } else { seq![':'] }) + digits(g[i as int] as nat, 16)
            + ipv6_groups(g, i + 1)
    }
}

/// The host part of a URL for an address: dotted decimal, or eight hex
/// groups in brackets. A URL must hold an IPv6 host in brackets (RFC 3986,
/// section 3.2.2), else its colons read as the port separator; within them
/// the groups are written out in full, one of the forms RFC 4291 allows, so
/// that the text follows from the groups one by one.
pub open spec fn host_text(ip: IpAddress) -> Seq<char> {
    match ip {
        IpAddress::V4(o) => ipv4_text(o@),
        IpAddress::V6(g) => seq!['['] + ipv6_groups(g@, 0) + seq![']'],
    }
}

/// The signaling URL of an address: `ws://<host>:<port>/`, where a local
/// server listens on every interface.
pub open spec fn url_of(a: ConnectionAddr) -> Seq<char> {
    match a {
        ConnectionAddr::Local { port } => "ws://0.0.0.0:"@ + digits(port as nat, 10) + "/"@,
        ConnectionAddr::Remote { ip, port } => "ws://"@ + host_text(ip) + ":"@ + digits(
            port as nat,
            10,
        ) + "/"@,
    }
}

/// Appends `n` written in `base`.
fn append_digits(s: &mut String, n: u64, base: u64)
    requires
        2 <= base <= 16,
    ensures
        final(s)@ == old(s)@ + digits(n as nat, base as nat),
    decreases n,
{
    let table = "0123456789abcdef";
    proof {
        reveal_strlit("0123456789abcdef");
        assert(table@ =~= digit_chars());
    }
    let ghost s0 = s@;
    if n >= base {
        append_digits(s, n / base, base);
    }
    let d = (n % base) as usize;
    s.append(table.substring_char(d, d + 1));
    proof {
        assert(table@.subrange(d as int, d as int + 1) =~= seq![digit_chars()[d as int]]);
        if n >= base {
            assert(s@ =~= s0 + digits(n as nat, base as nat));
        } else {
            assert(s@ =~= s0 + digits(n as nat, base as nat));
        }
    }
}

/// Appends the host part of a URL for `ip`.
fn append_host(s: &mut String, ip: &IpAddress)
    ensures
        final(s)@ == old(s)@ + host_text(*ip),
{
    proof {
        reveal_strlit(".");
        reveal_strlit(":");
        reveal_strlit("[");
        reveal_strlit("]");
        assert("."@ =~= seq!['.']);
        assert(":"@ =~= seq![':']);
        assert("["@ =~= seq!['[']);
        assert("]"@ =~= seq![']']);
    }
    match ip {
        IpAddress::V4(o) => {
            let ghost s0 = s@;
            let mut k: usize = 0;
            while k < 4
                invariant
                    k <= 4,
                    s@ == s0 + ipv4_prefix(o@, k as nat),
                decreases 4 - k,
            {
                let ghost before = s@;
                proof {
                    reveal_strlit(".");
                    assert("."@ =~= seq!['.']);
                }
                if k > 0 {
                    s.append(".");
                }
                append_digits(s, o[k] as u64, 10);
                proof {
                    if k == 0 {
                        assert(ipv4_prefix(o@, 1) == digits(o@[0] as nat, 10));
                        assert(s@ =~= s0 + ipv4_prefix(o@, 1));
                    } else {
                        assert(ipv4_prefix(o@, (k + 1) as nat) == ipv4_prefix(o@, k as nat)
                            + seq!['.'] + digits(o@[k as int] as nat, 10));
                        assert(s@ =~= s0 + ipv4_prefix(o@, (k + 1) as nat));
                    }
                }
                k = k + 1;
            }
            proof {
                reveal_with_fuel(ipv4_prefix, 5);
                assert(ipv4_prefix(o@, 4) =~= ipv4_text(o@));
            }
        },
        IpAddress::V6(g) => {
            let ghost s0 = s@;
            s.append("[");
            let mut k: usize = 0;
            while k < 8
                invariant
                    k <= 8,
                    s@ + ipv6_groups(g@, k as nat) == s0 + seq!['['] + ipv6_groups(g@, 0),
                decreases 8 - k,
            {
                let ghost before = s@;
                proof {
                    reveal_strlit(":");
                    assert(":"@ =~= seq![':']);
                }
                let ghost sep: Seq<char> = if k == 0 { seq![] } else { seq![':'] };
                assert(ipv6_groups(g@, k as nat) == sep + digits(g@[k as int] as nat, 16)
                    + ipv6_groups(g@, (k + 1) as nat));
                if k > 0 {
                    s.append(":");
                }
                append_digits(s, g[k] as u64, 16);
                proof {
                    assert(s@ =~= before + sep + digits(g@[k as int] as nat, 16));
                    assert(s@ + ipv6_groups(g@, (k + 1) as nat) =~= before + ipv6_groups(
                        g@,
                        k as nat,
                    ));
                }
                k = k + 1;
            }
            s.append("]");
            proof {
                assert(ipv6_groups(g@, 8) =~= seq![]);
                assert(s@ =~= s0 + host_text(*ip));
            }
        },
    }
}

/// The first `k` octets in dotted decimal.
spec fn ipv4_prefix(o: Seq<u8>, k: nat) -> Seq<char>
    decreases k,
{
    if k == 0 {
        seq![]
    } else if k == 1 {
        digits(o[0] as nat, 10)
    } else {
        ipv4_prefix(o, (k - 1) as nat) + seq!['.'] + digits(o[k - 1] as nat, 10)
    }
}

impl ConnectionAddr {
    /// The URL of the signaling server.
    pub fn to_url(&self) -> (r: String)
        ensures
            r@ == url_of(*self),
    {
        proof {
            reveal_strlit("ws://0.0.0.0:");
            reveal_strlit("ws://");
            reveal_strlit(":");
            reveal_strlit("/");
        }
        match self {
            ConnectionAddr::Local { port } => {
                let mut s = String::from_str("ws://0.0.0.0:");
                append_digits(&mut s, *port as u64, 10);
                s.append("/");
                s
            },
            ConnectionAddr::Remote { ip, port } => {
                let mut s = String::from_str("ws://");
                append_host(&mut s, ip);
                s.append(":");
                append_digits(&mut s, *port as u64, 10);
                s.append("/");
                proof {
                    assert(s@ =~= url_of(*self));
                }
                s
            },
        }
    }
}

} // verus!
