use vstd::prelude::*;
use vstd::utf8::*;

verus! {

/// A message type that can travel over a channel: it is written as bytes
/// and read back from them, and a frame that holds no message of the type
/// is refused.
pub trait Payload: Sized {
    /// The bytes that carry this message.
    spec fn wire(&self) -> Seq<u8>;

    /// The name of the message type.
    spec fn name() -> Seq<char>;

    /// A readable name of the message type, for diagnostics.
    fn reflect_name() -> (r: &'static str)
        ensures
            r@ == Self::name(),
    ;

    /// Writes the message as bytes.
    fn to_packet(&self) -> (r: Vec<u8>)
        ensures
            r@ == self.wire(),
    ;

    /// Reads a message from a frame: the message carried by exactly these
    /// bytes, or `None` where no message of the type is carried by them.
    fn from_packet(packet: &[u8]) -> (r: Option<Self>)
        ensures
            r matches Some(m) ==> m.wire() == packet@,
            r is None ==> forall|m: Self| #[trigger] m.wire() != packet@,
    ;
}

/// Whether `p` is the start of `s`.
pub open spec fn is_prefix(p: Seq<u8>, s: Seq<u8>) -> bool {
    p.len() <= s.len() && s.subrange(0, p.len() as int) == p
}

/// A 64-bit integer as eight bytes, least significant first.
pub open spec fn le64(n: u64) -> Seq<u8> {
    seq![
        (n & 0xff) as u8,
        ((n >> 8u64) & 0xff) as u8,
        ((n >> 16u64) & 0xff) as u8,
        ((n >> 24u64) & 0xff) as u8,
        ((n >> 32u64) & 0xff) as u8,
        ((n >> 40u64) & 0xff) as u8,
        ((n >> 48u64) & 0xff) as u8,
        ((n >> 56u64) & 0xff) as u8,
    ]
}

/// A string as its UTF-8 length in eight bytes, then its UTF-8 bytes.
pub open spec fn str_wire(s: Seq<char>) -> Seq<u8> {
    le64(encode_utf8(s).len() as u64) + encode_utf8(s)
}

/// An optional string as a byte 0 for none, or 1 followed by the string.
pub open spec fn opt_wire(o: Option<Seq<char>>) -> Seq<u8> {
    match o {
        None => seq![0u8],
        Some(s) => seq![1u8] + str_wire(s),
    }
}

/// The view of an optional string.
pub open spec fn opt_view(o: Option<String>) -> Option<Seq<char>> {
    match o {
        None => None,
        Some(s) => Some(s@),
    }
}

proof fn lemma_le64_injective(a: u64, b: u64)
    requires
        le64(a) == le64(b),
    ensures
        a == b,
{
    assert(le64(a)[0] == le64(b)[0] && le64(a)[1] == le64(b)[1] && le64(a)[2] == le64(b)[2]
        && le64(a)[3] == le64(b)[3] && le64(a)[4] == le64(b)[4] && le64(a)[5] == le64(b)[5]
        && le64(a)[6] == le64(b)[6] && le64(a)[7] == le64(b)[7]);
    assert(a & 0xff < 256 && b & 0xff < 256 && (a >> 8u64) & 0xff < 256 && (b >> 8u64) & 0xff < 256
        && (a >> 16u64) & 0xff < 256 && (b >> 16u64) & 0xff < 256 && (a >> 24u64) & 0xff < 256
        && (b >> 24u64) & 0xff < 256 && (a >> 32u64) & 0xff < 256 && (b >> 32u64) & 0xff < 256
        && (a >> 40u64) & 0xff < 256 && (b >> 40u64) & 0xff < 256 && (a >> 48u64) & 0xff < 256
        && (b >> 48u64) & 0xff < 256 && (a >> 56u64) & 0xff < 256 && (b >> 56u64) & 0xff < 256)
        by (bit_vector);
    assert(a == b) by (bit_vector)
        requires
            a & 0xff == b & 0xff,
            (a >> 8u64) & 0xff == (b >> 8u64) & 0xff,
            (a >> 16u64) & 0xff == (b >> 16u64) & 0xff,
            (a >> 24u64) & 0xff == (b >> 24u64) & 0xff,
            (a >> 32u64) & 0xff == (b >> 32u64) & 0xff,
            (a >> 40u64) & 0xff == (b >> 40u64) & 0xff,
            (a >> 48u64) & 0xff == (b >> 48u64) & 0xff,
            (a >> 56u64) & 0xff == (b >> 56u64) & 0xff,
    ;
}

/// Appends `n` as eight bytes, least significant first.
pub fn push_u64(out: &mut Vec<u8>, n: u64)
    ensures
        final(out)@ == old(out)@ + le64(n),
{
    out.push((n & 0xff) as u8);
    out.push(((n >> 8u64) & 0xff) as u8);
    out.push(((n >> 16u64) & 0xff) as u8);
    out.push(((n >> 24u64) & 0xff) as u8);
    out.push(((n >> 32u64) & 0xff) as u8);
    out.push(((n >> 40u64) & 0xff) as u8);
    out.push(((n >> 48u64) & 0xff) as u8);
    out.push(((n >> 56u64) & 0xff) as u8);
    assert(out@ =~= old(out)@ + le64(n));
}

/// Reads eight bytes at `pos`, least significant first.
pub fn read_u64(b: &[u8], pos: usize) -> (r: u64)
    requires
        pos + 8 <= b@.len(),
    ensures
        le64(r) == b@.subrange(pos as int, pos + 8),
{
    let b0 = b[pos] as u64;
    let b1 = b[pos + 1] as u64;
    let b2 = b[pos + 2] as u64;
    let b3 = b[pos + 3] as u64;
    let b4 = b[pos + 4] as u64;
    let b5 = b[pos + 5] as u64;
    let b6 = b[pos + 6] as u64;
    let b7 = b[pos + 7] as u64;
    let r = b0 | (b1 << 8u64) | (b2 << 16u64) | (b3 << 24u64) | (b4 << 32u64) | (b5 << 40u64) | (
    b6 << 48u64) | (b7 << 56u64);
    assert(r & 0xff == b0 && (r >> 8u64) & 0xff == b1 && (r >> 16u64) & 0xff == b2 && (r
        >> 24u64) & 0xff == b3 && (r >> 32u64) & 0xff == b4 && (r >> 40u64) & 0xff == b5 && (r
        >> 48u64) & 0xff == b6 && (r >> 56u64) & 0xff == b7) by (bit_vector)
        requires
            b0 < 256 && b1 < 256 && b2 < 256 && b3 < 256 && b4 < 256 && b5 < 256 && b6 < 256 && b7
                < 256,
            r == b0 | (b1 << 8u64) | (b2 << 16u64) | (b3 << 24u64) | (b4 << 32u64) | (b5 << 40u64)
                | (b6 << 48u64) | (b7 << 56u64),
    ;
    assert(le64(r) =~= b@.subrange(pos as int, pos + 8));
    r
}

/// Relies on `core::str::from_utf8`: it succeeds exactly on valid UTF-8, and
/// the text it gives holds those bytes.
#[verifier::external_body]
fn utf8_to_string(b: &[u8]) -> (r: Option<String>)
    ensures
        r is Some <==> valid_utf8(b@),
        r matches Some(s) ==> s@ == decode_utf8(b@),
{
    match core::str::from_utf8(b) {
        Ok(s) => Some(s.to_string()),
        Err(_) => None,
    }
}

/// Appends a string in its wire form.
pub fn push_str(out: &mut Vec<u8>, s: &String)
    ensures
        final(out)@ == old(out)@ + str_wire(s@),
{
    let bytes = s.as_str().as_bytes();
    push_u64(out, bytes.len() as u64);
    let ghost mid = out@;
    let mut i: usize = 0;
    while i < bytes.len()
        invariant
            i <= bytes@.len(),
            bytes@ == encode_utf8(s@),
            out@ == mid + bytes@.subrange(0, i as int),
        decreases bytes@.len() - i,
    {
        out.push(bytes[i]);
        assert(out@ =~= mid + bytes@.subrange(0, i + 1));
        i = i + 1;
    }
    assert(bytes@.subrange(0, bytes@.len() as int) =~= bytes@);
    assert(out@ =~= old(out)@ + str_wire(s@));
}

/// Reads a string in wire form at `pos`, with the position after it.
pub fn read_str(b: &[u8], pos: usize) -> (r: Option<(String, usize)>)
    requires
        pos <= b@.len(),
    ensures
        r matches Some((s, e)) ==> pos <= e <= b@.len() && b@.subrange(pos as int, e as int)
            == str_wire(s@),
        forall|t: Seq<char>|
            is_prefix(#[trigger] str_wire(t), b@.subrange(pos as int, b@.len() as int)) ==> (
            r matches Some((s, e)) && s@ == t && e == pos + str_wire(t).len()),
{
    let rest = b.len() - pos;
    if rest < 8 {
        assert forall|t: Seq<char>|
            !is_prefix(#[trigger] str_wire(t), b@.subrange(pos as int, b@.len() as int)) by {}
        return None;
    }
    let n = read_u64(b, pos);
    if n > (rest - 8) as u64 {
        assert forall|t: Seq<char>|
            !is_prefix(#[trigger] str_wire(t), b@.subrange(pos as int, b@.len() as int)) by {
            if is_prefix(str_wire(t), b@.subrange(pos as int, b@.len() as int)) {
                let w = str_wire(t);
                assert(w.subrange(0, 8) =~= le64(encode_utf8(t).len() as u64));
                assert(b@.subrange(pos as int, pos + 8) =~= w.subrange(0, 8));
                lemma_le64_injective(n, encode_utf8(t).len() as u64);
            }
        }
        return None;
    }
    let start = pos + 8;
    let end = start + n as usize;
    let body = &b[start..end];
    let ghost rest_seq = b@.subrange(pos as int, b@.len() as int);
    proof {
        assert forall|t: Seq<char>| is_prefix(#[trigger] str_wire(t), rest_seq) implies body@
            == encode_utf8(t) by {
            let w = str_wire(t);
            assert(w.subrange(0, 8) =~= le64(encode_utf8(t).len() as u64));
            assert(b@.subrange(pos as int, pos + 8) =~= w.subrange(0, 8));
            lemma_le64_injective(n, encode_utf8(t).len() as u64);
            assert(encode_utf8(t).len() == n);
            assert(body@ =~= w.subrange(8, w.len() as int));
        }
    }
    match utf8_to_string(body) {
        None => {
            proof {
                assert forall|t: Seq<char>| !is_prefix(#[trigger] str_wire(t), rest_seq) by {
                    if is_prefix(str_wire(t), rest_seq) {
                        encode_utf8_valid_utf8(t);
                    }
                }
            }
            None
        },
        Some(s) => {
            proof {
                decode_utf8_encode_utf8(body@);
                assert(b@.subrange(pos as int, end as int) =~= b@.subrange(pos as int, pos + 8)
                    + body@);
                assert forall|t: Seq<char>| is_prefix(#[trigger] str_wire(t), rest_seq) implies s@
                    == t by {
                    encode_utf8_decode_utf8(t);
                }
            }
            Some((s, end))
        },
    }
}

/// Appends an optional string in its wire form.
pub fn push_opt_str(out: &mut Vec<u8>, o: &Option<String>)
    ensures
        final(out)@ == old(out)@ + opt_wire(opt_view(*o)),
{
    match o {
        None => {
            out.push(0u8);
            assert(out@ =~= old(out)@ + opt_wire(opt_view(*o)));
        },
        Some(s) => {
            out.push(1u8);
            push_str(out, s);
            assert(out@ =~= old(out)@ + opt_wire(opt_view(*o)));
        },
    }
}

/// Reads an optional string in wire form at `pos`, with the position after
/// it.
pub fn read_opt_str(b: &[u8], pos: usize) -> (r: Option<(Option<String>, usize)>)
    requires
        pos <= b@.len(),
    ensures
        r matches Some((o, e)) ==> pos <= e <= b@.len() && b@.subrange(pos as int, e as int)
            == opt_wire(opt_view(o)),
        forall|t: Option<Seq<char>>|
            is_prefix(#[trigger] opt_wire(t), b@.subrange(pos as int, b@.len() as int)) ==> (
            r matches Some((o, e)) && opt_view(o) == t && e == pos + opt_wire(t).len()),
{
    let ghost rest_seq = b@.subrange(pos as int, b@.len() as int);
    if pos == b.len() {
        assert forall|t: Option<Seq<char>>| !is_prefix(#[trigger] opt_wire(t), rest_seq) by {}
        return None;
    }
    let flag = b[pos];
    if flag == 0 {
        assert(b@.subrange(pos as int, pos + 1) =~= seq![0u8]);
        assert forall|t: Option<Seq<char>>| is_prefix(#[trigger] opt_wire(t), rest_seq) implies t
            is None by {
            if t is Some {
                assert(opt_wire(t)[0] == rest_seq[0]);
            }
        }
        Some((None, pos + 1))
    } else if flag == 1 {
        let ghost tail = b@.subrange(pos + 1, b@.len() as int);
        proof {
            assert forall|t: Option<Seq<char>>| is_prefix(#[trigger] opt_wire(t), rest_seq) implies (
            t matches Some(u) && is_prefix(str_wire(u), tail)) by {
                assert(opt_wire(t)[0] == rest_seq[0]);
                assert(t is Some);
                let u = t->Some_0;
                let k = str_wire(u).len() as int;
                assert(rest_seq.subrange(0, k + 1) == opt_wire(t));
                assert(tail.subrange(0, k) =~= rest_seq.subrange(0, k + 1).subrange(1, k + 1));
                assert(opt_wire(t).subrange(1, k + 1) =~= str_wire(u));
            }
        }
        match read_str(b, pos + 1) {
            None => {
                proof {
                    assert forall|t: Option<Seq<char>>| !is_prefix(#[trigger] opt_wire(t), rest_seq) by {
                        if is_prefix(opt_wire(t), rest_seq) {
                            let u = t->Some_0;
                            assert(is_prefix(str_wire(u), tail));
                        }
                    }
                }
                None
            },
            Some((s, e)) => {
                proof {
                    assert(b@.subrange(pos as int, e as int) =~= seq![1u8] + b@.subrange(
                        pos + 1,
                        e as int,
                    ));
                    assert forall|t: Option<Seq<char>>| is_prefix(#[trigger] opt_wire(t), rest_seq) implies (
                    opt_view(Some(s)) == t && e == pos + opt_wire(t).len()) by {
                        let u = t->Some_0;
                        assert(is_prefix(str_wire(u), tail));
                    }
                }
                Some((Some(s), e))
            },
        }
    } else {
        assert forall|t: Option<Seq<char>>| !is_prefix(#[trigger] opt_wire(t), rest_seq) by {
            if is_prefix(opt_wire(t), rest_seq) {
                assert(opt_wire(t)[0] == rest_seq[0]);
            }
        }
        None
    }
}

} // verus!
