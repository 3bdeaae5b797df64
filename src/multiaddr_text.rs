use vstd::prelude::*;
use vstd::utf8::{decode_utf8, valid_utf8};

use crate::multiaddr::{
    decode_varint_at, is_length_prefixed, payload_end_exec, rest,
    segment_at, spec_decode_varint, Multiaddr, MultiaddrError, DNS4, DNS6, DNSADDR, IP4, IP6, P2P,
    TCP, UDP, WS, WSS,
};

verus! {

/// The base-58 text (Bitcoin alphabet) of a byte string, as the bs58 crate writes it.
pub uninterp spec fn base58_of(b: Seq<u8>) -> Seq<char>;

/// Relies on bs58::encode(..).into_string: the result depends on the bytes alone.
#[verifier::external_body]
fn base58_encode(b: &[u8]) -> (r: String)
    ensures
        r@ == base58_of(b@),
{
    bs58::encode(b).into_string()
}

/// Relies on String::push: the character is appended at the end.
#[verifier::external_body]
fn push_char(s: &mut String, c: char)
    ensures
        final(s)@ == old(s)@.push(c),
{
    s.push(c)
}

/// Relies on String::push_str: the text is appended at the end.
#[verifier::external_body]
fn push_text(s: &mut String, t: &str)
    ensures
        final(s)@ == old(s)@ + t@,
{
    s.push_str(t)
}

/// Relies on core::str::from_utf8: it accepts exactly the well-formed UTF-8 byte strings, and
/// the text is what those bytes encode.
#[verifier::external_body]
fn utf8_text(b: &[u8]) -> (r: Option<String>)
    ensures
        r.is_some() == valid_utf8(b@),
        r matches Some(t) ==> t@ == decode_utf8(b@),
{
    match core::str::from_utf8(b) {
        Ok(t) => Some(t.to_owned()),
        Err(_) => None,
    }
}

/// The digit of value `d` (lower-case for values above nine).
pub open spec fn digit_char(d: nat) -> char {
    if d == 0 {
        '0'
    } else if d == 1 {
        '1'
    } else if d == 2 {
        '2'
    } else if d == 3 {
        '3'
    } else if d == 4 {
        '4'
    } else if d == 5 {
        '5'
    } else if d == 6 {
        '6'
    } else if d == 7 {
        '7'
    } else if d == 8 {
        '8'
    } else if d == 9 {
        '9'
    } else if d == 10 {
        'a'
    } else if d == 11 {
        'b'
    } else if d == 12 {
        'c'
    } else if d == 13 {
        'd'
    } else if d == 14 {
        'e'
    } else {
        'f'
    }
}

/// `n` written in base `radix`, sixteen or else ten, with no leading zeros ("0" for zero).
pub open spec fn radix_text(n: nat, radix: nat) -> Seq<char>
    decreases n,
{
    if radix == 16 {
        if n < 16 {
            seq![digit_char(n)]
        } else {
            radix_text(n / 16, radix).push(digit_char(n % 16))
        }
    } else {
        if n < 10 {
            seq![digit_char(n)]
        } else {
            radix_text(n / 10, radix).push(digit_char(n % 10))
        }
    }
}

fn digit(d: u32) -> (c: char)
    requires
        d < 16,
    ensures
        c == digit_char(d as nat),
{
    if d == 0 {
        '0'
    } else if d == 1 {
        '1'
    } else if d == 2 {
        '2'
    } else if d == 3 {
        '3'
    } else if d == 4 {
        '4'
    } else if d == 5 {
        '5'
    } else if d == 6 {
        '6'
    } else if d == 7 {
        '7'
    } else if d == 8 {
        '8'
    } else if d == 9 {
        '9'
    } else if d == 10 {
        'a'
    } else if d == 11 {
        'b'
    } else if d == 12 {
        'c'
    } else if d == 13 {
        'd'
    } else if d == 14 {
        'e'
    } else {
        'f'
    }
}

/// Appends `n` written in base `radix`.
fn push_radix(out: &mut String, n: u32, radix: u32)
    requires
        radix == 10 || radix == 16,
    ensures
        final(out)@ == old(out)@ + radix_text(n as nat, radix as nat),
    decreases n,
{
    if n >= radix {
        push_radix(out, n / radix, radix);
    }
    push_char(out, digit(n % radix));
    assert(out@ =~= old(out)@ + radix_text(n as nat, radix as nat));
}

/// Appends the characters of `cs`.
fn push_chars(out: &mut String, cs: &[char])
    ensures
        final(out)@ == old(out)@ + cs@,
{
    let mut i: usize = 0;
    while i < cs.len()
        invariant
            i <= cs@.len(),
            out@ == old(out)@ + cs@.subrange(0, i as int),
        decreases cs@.len() - i,
    {
        push_char(out, cs[i]);
        i = i + 1;
        assert(out@ =~= old(out)@ + cs@.subrange(0, i as int));
    }
    assert(cs@.subrange(0, cs@.len() as int) =~= cs@);
}

/// A 16-bit value read big-endian from two bytes.
pub open spec fn be16(hi: u8, lo: u8) -> nat {
    hi as nat * 256 + lo as nat
}

/// The text of an IPv4 payload: dotted decimal.
pub open spec fn ip4_text(p: Seq<u8>) -> Seq<char> {
    seq!['/', 'i', 'p', '4', '/'] + radix_text(p[0] as nat, 10) + seq!['.'] + radix_text(
        p[1] as nat,
        10,
    ) + seq!['.'] + radix_text(p[2] as nat, 10) + seq!['.'] + radix_text(p[3] as nat, 10)
}

/// The groups of an IPv6 payload, from group `k` on, each in lower-case hex and preceded by a
/// colon.
pub open spec fn ip6_groups_from(p: Seq<u8>, k: nat) -> Seq<char>
    decreases 8 - k,
{
    if k >= 8 {
        Seq::empty()
    } else {
        seq![':'] + radix_text(be16(p[2 * k as int], p[2 * k as int + 1]), 16) + ip6_groups_from(
            p,
            k + 1,
        )
    }
}

/// The text of an IPv6 payload: all eight groups, colon-separated, in lower-case hex.
pub open spec fn ip6_text(p: Seq<u8>) -> Seq<char> {
    seq!['/', 'i', 'p', '6', '/'] + radix_text(be16(p[0], p[1]), 16) + ip6_groups_from(p, 1)
}

/// The name of a protocol as it stands in text.
pub open spec fn proto_name(proto: u64) -> Seq<char> {
    if proto == TCP {
        seq!['t', 'c', 'p']
    } else if proto == UDP {
        seq!['u', 'd', 'p']
    } else if proto == DNS4 {
        seq!['d', 'n', 's', '4']
    } else if proto == DNS6 {
        seq!['d', 'n', 's', '6']
    } else if proto == DNSADDR {
        seq!['d', 'n', 's', 'a', 'd', 'd', 'r']
    } else if proto == WS {
        seq!['w', 's']
    } else if proto == WSS {
        seq!['w', 's', 's']
    } else {
        seq!['p', '2', 'p']
    }
}

/// The text of one segment from its protocol and payload.
pub open spec fn segment_text(proto: u64, p: Seq<u8>) -> Result<Seq<char>, MultiaddrError> {
    if proto == IP4 {
        Ok(ip4_text(p))
    } else if proto == IP6 {
        Ok(ip6_text(p))
    } else if proto == TCP || proto == UDP {
        Ok(seq!['/'] + proto_name(proto) + seq!['/'] + radix_text(be16(p[0], p[1]), 10))
    } else if proto == DNS4 || proto == DNS6 || proto == DNSADDR {
        if valid_utf8(p) {
            Ok(seq!['/'] + proto_name(proto) + seq!['/'] + decode_utf8(p))
        } else {
            Err(MultiaddrError::InvalidAddress)
        }
    } else if proto == WS || proto == WSS {
        Ok(seq!['/'] + proto_name(proto))
    } else if proto == P2P {
        Ok(seq!['/', 'p', '2', 'p', '/'] + base58_of(p))
    } else {
        Err(MultiaddrError::InvalidProtocol)
    }
}

/// Where the payload of the segment starting at `i` begins.
pub open spec fn payload_start(s: Seq<u8>, i: nat) -> nat {
    let (proto, read) = spec_decode_varint(rest(s, i as int)).unwrap();
    let j = i + read;
    if is_length_prefixed(proto) {
        j + spec_decode_varint(rest(s, j as int)).unwrap().1
    } else {
        j
    }
}

/// The texts of the segments from position `i` on, or the first error met.
pub open spec fn texts_from(s: Seq<u8>, i: nat) -> Result<Seq<Seq<char>>, MultiaddrError>
    decreases s.len() - i,
{
    if i >= s.len() {
        Ok(Seq::empty())
    } else {
        match segment_at(s, i) {
            Err(e) => Err(e),
            Ok((proto, end)) => if end <= i {
                Err(MultiaddrError::InvalidVarint)
            } else {
                match segment_text(proto, s.subrange(payload_start(s, i) as int, end as int)) {
                    Err(e) => Err(e),
                    Ok(t) => match texts_from(s, end) {
                        Err(e) => Err(e),
                        Ok(more) => Ok(seq![t] + more),
                    },
                }
            },
        }
    }
}

pub open spec fn string_views(v: Seq<String>) -> Seq<Seq<char>> {
    v.map_values(|t: String| t@)
}

/// Copies `b[lo..hi]`.
fn copy_range(b: &Vec<u8>, lo: usize, hi: usize) -> (r: Vec<u8>)
    requires
        lo <= hi <= b@.len(),
    ensures
        r@ == b@.subrange(lo as int, hi as int),
{
    let mut r: Vec<u8> = Vec::new();
    let mut i = lo;
    while i < hi
        invariant
            lo <= i <= hi <= b@.len(),
            r@ == b@.subrange(lo as int, i as int),
        decreases hi - i,
    {
        r.push(b[i]);
        i = i + 1;
        assert(r@ =~= b@.subrange(lo as int, i as int));
    }
    r
}

/// The text of the segment of protocol `proto` with payload `p`.
fn segment_string(proto: u64, p: &Vec<u8>) -> (r: Result<String, MultiaddrError>)
    requires
        proto == IP4 ==> p@.len() == 4,
        proto == IP6 ==> p@.len() == 16,
        proto == TCP || proto == UDP ==> p@.len() == 2,
    ensures
        match r {
            Ok(t) => segment_text(proto, p@) == Ok::<Seq<char>, MultiaddrError>(t@),
            Err(e) => segment_text(proto, p@) == Err::<Seq<char>, MultiaddrError>(e),
        },
{
    let mut out = String::new();
    if proto == IP4 {
        push_chars(&mut out, &['/', 'i', 'p', '4', '/']);
        push_radix(&mut out, p[0] as u32, 10);
        push_char(&mut out, '.');
        push_radix(&mut out, p[1] as u32, 10);
        push_char(&mut out, '.');
        push_radix(&mut out, p[2] as u32, 10);
        push_char(&mut out, '.');
        push_radix(&mut out, p[3] as u32, 10);
        assert(out@ =~= ip4_text(p@));
        Ok(out)
    } else if proto == IP6 {
        push_chars(&mut out, &['/', 'i', 'p', '6', '/']);
        push_radix(&mut out, p[0] as u32 * 256 + p[1] as u32, 16);
        let ghost head = out@;
        let mut k: usize = 1;
        while k < 8
            invariant
                1 <= k <= 8,
                p@.len() == 16,
                out@ + ip6_groups_from(p@, k as nat) == head + ip6_groups_from(p@, 1),
            decreases 8 - k,
        {
            let ghost before = out@;
            push_char(&mut out, ':');
            push_radix(&mut out, p[2 * k] as u32 * 256 + p[2 * k + 1] as u32, 16);
            assert(before + ip6_groups_from(p@, k as nat) =~= out@ + ip6_groups_from(
                p@,
                (k + 1) as nat,
            ));
            k = k + 1;
        }
        assert(ip6_groups_from(p@, 8) =~= Seq::<char>::empty());
        assert(out@ =~= ip6_text(p@));
        Ok(out)
    } else if proto == TCP || proto == UDP {
        push_char(&mut out, '/');
        if proto == TCP {
            push_chars(&mut out, &['t', 'c', 'p']);
        } else {
            push_chars(&mut out, &['u', 'd', 'p']);
        }
        push_char(&mut out, '/');
        push_radix(&mut out, p[0] as u32 * 256 + p[1] as u32, 10);
        assert(out@ =~= seq!['/'] + proto_name(proto) + seq!['/'] + radix_text(
            be16(p@[0], p@[1]),
            10,
        ));
        Ok(out)
    } else if proto == DNS4 || proto == DNS6 || proto == DNSADDR {
        let name = match utf8_text(p.as_slice()) {
            Some(t) => t,
            None => {
                return Err(MultiaddrError::InvalidAddress);
            },
        };
        push_char(&mut out, '/');
        if proto == DNS4 {
            push_chars(&mut out, &['d', 'n', 's', '4']);
        } else if proto == DNS6 {
            push_chars(&mut out, &['d', 'n', 's', '6']);
        } else {
            push_chars(&mut out, &['d', 'n', 's', 'a', 'd', 'd', 'r']);
        }
        push_char(&mut out, '/');
        push_text(&mut out, name.as_str());
        assert(out@ =~= seq!['/'] + proto_name(proto) + seq!['/'] + decode_utf8(p@));
        Ok(out)
    } else if proto == WS {
        push_chars(&mut out, &['/', 'w', 's']);
        assert(out@ =~= seq!['/'] + proto_name(proto));
        Ok(out)
    } else if proto == WSS {
        push_chars(&mut out, &['/', 'w', 's', 's']);
        assert(out@ =~= seq!['/'] + proto_name(proto));
        Ok(out)
    } else if proto == P2P {
        push_chars(&mut out, &['/', 'p', '2', 'p', '/']);
        let encoded = base58_encode(p.as_slice());
        push_text(&mut out, encoded.as_str());
        assert(out@ =~= seq!['/', 'p', '2', 'p', '/'] + base58_of(p@));
        Ok(out)
    } else {
        Err(MultiaddrError::InvalidProtocol)
    }
}

impl Multiaddr {
    /// The segments in human-readable form, one string each: `/ip4/1.2.3.4`, `/tcp/80`,
    /// `/ws`, `/p2p/<base-58 identity>` and so on.
    pub fn to_vec(&self) -> (r: Result<Vec<String>, MultiaddrError>)
        ensures
            match r {
                Ok(v) => texts_from(self@, 0) == Ok::<Seq<Seq<char>>, MultiaddrError>(string_views(v@)),
                Err(e) => texts_from(self@, 0) == Err::<Seq<Seq<char>>, MultiaddrError>(e),
            },
    {
        let b = self.to_bytes();
        let mut out: Vec<String> = Vec::new();
        let mut i: usize = 0;
        while i < b.len()
            invariant
                i <= b@.len(),
                b@ == self@,
                texts_from(b@, 0) == match texts_from(b@, i as nat) {
                    Ok(more) => Ok::<Seq<Seq<char>>, MultiaddrError>(string_views(out@) + more),
                    Err(e) => Err::<Seq<Seq<char>>, MultiaddrError>(e),
                },
            decreases b@.len() - i,
        {
            let (proto, read) = match decode_varint_at(b.as_slice(), i) {
                Some(p) => p,
                None => {
                    return Err(MultiaddrError::InvalidVarint);
                },
            };
            let j = i + read;
            let end = payload_end_exec(b.as_slice(), proto, j)?;
            assert(segment_at(b@, i as nat) == Ok::<(u64, nat), MultiaddrError>((proto, end as nat)));
            let mut start = j;
            if proto == DNS4 || proto == DNS6 || proto == DNSADDR || proto == P2P {
                match decode_varint_at(b.as_slice(), j) {
                    Some((_, read2)) => {
                        start = j + read2;
                    },
                    None => {
                        return Err(MultiaddrError::InvalidVarint);
                    },
                }
            }
            assert(start == payload_start(b@, i as nat));
            let p = copy_range(&b, start, end);
            let t = segment_string(proto, &p)?;
            let ghost before = out@;
            out.push(t);
            assert(string_views(out@) =~= string_views(before).push(t@));
            proof {
                match texts_from(b@, end as nat) {
                    Ok(more) => {
                        assert(string_views(before) + (seq![t@] + more) =~= string_views(out@) + more);
                    },
                    Err(_) => {},
                }
            }
            i = end;
        }
        assert(string_views(out@) + Seq::<Seq<char>>::empty() =~= string_views(out@));
        Ok(out)
    }
}

} // verus!
