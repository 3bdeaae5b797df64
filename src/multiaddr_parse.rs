use vstd::prelude::*;
use vstd::string::StringSliceAdditionalSpecFns;

use crate::multiaddr::{
    encode_varint, spec_encode_varint, spec_verify, Multiaddr, MultiaddrError, DNS4,
    DNS6, DNSADDR, IP4, IP6, P2P, TCP, UDP, WS, WSS,
};

verus! {

/// The bytes that a base-58 text (Bitcoin alphabet) decodes to, as the bs58 crate decodes
/// them; none when the text holds a character outside the alphabet.
pub uninterp spec fn base58_decoded(s: Seq<u8>) -> Option<Seq<u8>>;

/// The error of bs58's decoder; it is only carried, and read as an invalid address.
#[verifier::external_type_specification]
#[verifier::external_body]
pub struct ExBase58DecodeError(bs58::decode::Error);

/// Relies on bs58::decode(..).into_vec: the outcome depends on the text alone.
#[verifier::external_body]
fn base58_decode(s: &[u8]) -> (r: Result<Vec<u8>, bs58::decode::Error>)
    ensures
        r matches Ok(v) ==> base58_decoded(s@) == Some(v@),
        r is Err ==> base58_decoded(s@) is None,
{
    bs58::decode(s).into_vec()
}

/// The pieces of `b[start..]` between separators `sep`, scanning from `i`; empty pieces are
/// kept when `keep_empty` holds and dropped otherwise.
pub open spec fn pieces_from(b: Seq<u8>, sep: u8, keep_empty: bool, start: nat, i: nat) -> Seq<Seq<u8>>
    decreases b.len() - i,
{
    if i >= b.len() {
        if keep_empty || start < b.len() {
            seq![b.subrange(start as int, b.len() as int)]
        } else {
            Seq::empty()
        }
    } else if b[i as int] == sep {
        let piece = b.subrange(start as int, i as int);
        let head = if keep_empty || start < i {
            seq![piece]
        } else {
            Seq::<Seq<u8>>::empty()
        };
        head + pieces_from(b, sep, keep_empty, i + 1, i + 1)
    } else {
        pieces_from(b, sep, keep_empty, start, i + 1)
    }
}

pub open spec fn pieces(b: Seq<u8>, sep: u8, keep_empty: bool) -> Seq<Seq<u8>> {
    pieces_from(b, sep, keep_empty, 0, 0)
}

/// The pieces of `b[start..]` between occurrences of "::", taken leftmost first and without
/// overlap, scanning from `i`.
pub open spec fn halves_from(b: Seq<u8>, start: nat, i: nat) -> Seq<Seq<u8>>
    decreases b.len() - i,
{
    if i + 1 >= b.len() {
        seq![b.subrange(start as int, b.len() as int)]
    } else if b[i as int] == 0x3a && b[i as int + 1] == 0x3a {
        seq![b.subrange(start as int, i as int)] + halves_from(b, i + 2, i + 2)
    } else {
        halves_from(b, start, i + 1)
    }
}

proof fn lemma_halves_nonempty(b: Seq<u8>, start: nat, i: nat)
    ensures
        halves_from(b, start, i).len() >= 1,
    decreases b.len() - i,
{
    if i + 1 >= b.len() {
    } else if b[i as int] == 0x3a && b[i as int + 1] == 0x3a {
        lemma_halves_nonempty(b, i + 2, i + 2);
    } else {
        lemma_halves_nonempty(b, start, i + 1);
    }
}

pub open spec fn bytes_views(v: Seq<Vec<u8>>) -> Seq<Seq<u8>> {
    v.map_values(|x: Vec<u8>| x@)
}

/// Splits `b` at each byte `sep`, keeping or dropping empty pieces.
fn split_bytes(b: &[u8], sep: u8, keep_empty: bool) -> (r: Vec<Vec<u8>>)
    ensures
        bytes_views(r@) == pieces(b@, sep, keep_empty),
{
    let mut r: Vec<Vec<u8>> = Vec::new();
    let mut start: usize = 0;
    let mut i: usize = 0;
    let n = b.len();
    while i < n
        invariant
            n == b@.len(),
            start <= i <= n,
            pieces(b@, sep, keep_empty) == bytes_views(r@) + pieces_from(
                b@,
                sep,
                keep_empty,
                start as nat,
                i as nat,
            ),
        decreases n - i,
    {
        if b[i] == sep {
            if keep_empty || start < i {
                let piece = copy_slice(b, start, i);
                let ghost before = r@;
                r.push(piece);
                assert(bytes_views(r@) =~= bytes_views(before).push(piece@));
                assert(bytes_views(before) + pieces_from(b@, sep, keep_empty, start as nat, i as nat)
                    =~= bytes_views(r@) + pieces_from(b@, sep, keep_empty, (i + 1) as nat, (i + 1) as nat));
            } else {
                assert(pieces_from(b@, sep, keep_empty, start as nat, i as nat) =~= pieces_from(
                    b@,
                    sep,
                    keep_empty,
                    (i + 1) as nat,
                    (i + 1) as nat,
                ));
            }
            start = i + 1;
        }
        i = i + 1;
    }
    if keep_empty || start < n {
        let piece = copy_slice(b, start, n);
        let ghost before = r@;
        r.push(piece);
        assert(bytes_views(r@) =~= bytes_views(before).push(piece@));
        assert(bytes_views(r@) =~= bytes_views(before) + pieces_from(
            b@,
            sep,
            keep_empty,
            start as nat,
            n as nat,
        ));
    } else {
        assert(bytes_views(r@) =~= bytes_views(r@) + pieces_from(
            b@,
            sep,
            keep_empty,
            start as nat,
            n as nat,
        ));
    }
    r
}

/// Splits `b` at each "::", leftmost first.
fn split_halves(b: &[u8]) -> (r: Vec<Vec<u8>>)
    ensures
        bytes_views(r@) == halves_from(b@, 0, 0),
{
    let mut r: Vec<Vec<u8>> = Vec::new();
    let mut start: usize = 0;
    let mut i: usize = 0;
    let n = b.len();
    while n > 0 && i < n - 1
        invariant
            n == b@.len(),
            start <= i,
            i <= n,
            halves_from(b@, 0, 0) == bytes_views(r@) + halves_from(b@, start as nat, i as nat),
        decreases n - i,
    {
        if b[i] == 0x3a && b[i + 1] == 0x3a {
            let piece = copy_slice(b, start, i);
            let ghost before = r@;
            r.push(piece);
            assert(bytes_views(r@) =~= bytes_views(before).push(piece@));
            assert(bytes_views(before) + halves_from(b@, start as nat, i as nat) =~= bytes_views(r@)
                + halves_from(b@, (i + 2) as nat, (i + 2) as nat));
            start = i + 2;
            i = i + 2;
        } else {
            i = i + 1;
        }
    }
    let piece = copy_slice(b, start, n);
    let ghost before = r@;
    r.push(piece);
    assert(bytes_views(r@) =~= bytes_views(before) + halves_from(b@, start as nat, i as nat));
    r
}

/// Copies `b[lo..hi]`.
fn copy_slice(b: &[u8], lo: usize, hi: usize) -> (r: Vec<u8>)
    requires
        lo <= hi <= b@.len(),
    ensures
        r@ == b@.subrange(lo as int, hi as int),
{
    let mut r: Vec<u8> = Vec::new();
    let mut i = lo;
    while i < hi
        invariant
            lo <= i <= hi <= b@.len(),
            r@ == b@.subrange(lo as int, i as int),
        decreases hi - i,
    {
        r.push(b[i]);
        i = i + 1;
        assert(r@ =~= b@.subrange(lo as int, i as int));
    }
    r
}

/// The value of an ASCII digit in base sixteen or less; -1 for any other byte.
pub open spec fn digit_value(c: u8) -> int {
    if 0x30 <= c <= 0x39 {
        c - 0x30
    } else if 0x61 <= c <= 0x66 {
        c - 0x61 + 10
    } else if 0x41 <= c <= 0x46 {
        c - 0x41 + 10
    } else {
        -1
    }
}

/// The value of a string of digits in base `radix`; none when a byte is not such a digit.
pub open spec fn digits_value(d: Seq<u8>, radix: nat) -> Option<nat>
    decreases d.len(),
{
    if d.len() == 0 {
        Some(0)
    } else {
        match digits_value(d.drop_last(), radix) {
            None => None,
            Some(v) => {
                let x = digit_value(d.last());
                if 0 <= x < radix {
                    Some(v * radix + x as nat)
                } else {
                    None
                }
            },
        }
    }
}

/// An unsigned number as std's `from_str_radix` reads it: an optional `+`, then at least one
/// digit, the value no more than `max`.
pub open spec fn parse_uint(p: Seq<u8>, radix: nat, max: nat) -> Option<nat> {
    let body = if p.len() > 0 && p[0] == 0x2b {
        p.drop_first()
    } else {
        p
    };
    if body.len() == 0 {
        None
    } else {
        match digits_value(body, radix) {
            Some(v) => if v <= max {
                Some(v)
            } else {
                None
            },
            None => None,
        }
    }
}

/// A string whose prefix holds a byte that is not a digit has no value.
proof fn lemma_digits_prefix_none(d: Seq<u8>, k: int, radix: nat)
    requires
        0 <= k <= d.len(),
        digits_value(d.subrange(0, k), radix) is None,
    ensures
        digits_value(d, radix) is None,
    decreases d.len() - k,
{
    if k < d.len() {
        assert(d.subrange(0, k + 1).drop_last() =~= d.subrange(0, k));
        lemma_digits_prefix_none(d, k + 1, radix);
    } else {
        assert(d.subrange(0, k) =~= d);
    }
}

fn digit_val(c: u8) -> (r: i32)
    ensures
        r as int == digit_value(c),
{
    if 0x30 <= c && c <= 0x39 {
        (c - 0x30) as i32
    } else if 0x61 <= c && c <= 0x66 {
        (c - 0x61 + 10) as i32
    } else if 0x41 <= c && c <= 0x46 {
        (c - 0x41 + 10) as i32
    } else {
        -1
    }
}

/// Reads an unsigned number in base `radix`, as std's `from_str_radix` does, no more than `max`.
fn parse_number(p: &[u8], radix: u32, max: u32) -> (r: Option<u32>)
    requires
        radix == 10 || radix == 16,
        max < 0x10000,
    ensures
        r matches Some(v) ==> parse_uint(p@, radix as nat, max as nat) == Some(v as nat),
        r is None ==> parse_uint(p@, radix as nat, max as nat) is None,
{
    let n = p.len();
    let s0: usize = if n > 0 && p[0] == 0x2b {
        1
    } else {
        0
    };
    let ghost body = if p@.len() > 0 && p@[0] == 0x2b {
        p@.drop_first()
    } else {
        p@
    };
    assert(body =~= p@.subrange(s0 as int, n as int));
    if s0 >= n {
        return None;
    }
    let mut v: u32 = 0;
    let mut i: usize = s0;
    assert(p@.subrange(s0 as int, s0 as int) =~= Seq::<u8>::empty());
    while i < n
        invariant
            n == p@.len(),
            s0 <= i <= n,
            body == p@.subrange(s0 as int, n as int),
            body == (if p@.len() > 0 && p@[0] == 0x2b {
                p@.drop_first()
            } else {
                p@
            }),
            max < 0x10000,
            radix == 10 || radix == 16,
            digits_value(p@.subrange(s0 as int, i as int), radix as nat) matches Some(d) && v as nat
                == (if d > max as nat {
                max as nat + 1
            } else {
                d
            }),
        decreases n - i,
    {
        let x = digit_val(p[i]);
        let ghost pre = p@.subrange(s0 as int, i as int);
        let ghost nxt = p@.subrange(s0 as int, i as int + 1);
        assert(nxt.drop_last() =~= pre);
        assert(nxt.last() == p@[i as int]);
        if x < 0 || x >= radix as i32 {
            proof {
                assert(digits_value(pre, radix as nat) is Some);
                assert(digit_value(nxt.last()) == x as int);
                assert(digits_value(nxt, radix as nat) is None);
                let k = i as int - s0 as int + 1;
                assert(body.subrange(0, k) =~= nxt);
                lemma_digits_prefix_none(body, k, radix as nat);
            }
            return None;
        }
        let ghost d = digits_value(pre, radix as nat).unwrap();
        let w = v * radix + x as u32;
        v = if w > max {
            max + 1
        } else {
            w
        };
        proof {
            let dn = d * radix as nat + x as nat;
            let m1 = max as nat + 1;
            if d > max as nat {
                assert(dn >= m1) by (nonlinear_arith)
                    requires
                        d >= m1,
                        radix >= 1,
                        x >= 0,
                        dn == d * radix as nat + x as nat,
                ;
            }
        }
        i = i + 1;
    }
    assert(p@.subrange(s0 as int, n as int) == body);
    if v > max {
        None
    } else {
        Some(v)
    }
}

/// The values of `ps` read as numbers in base `radix` up to `max`, in order; none when one
/// of them is not such a number.
pub open spec fn numbers_of(ps: Seq<Seq<u8>>, radix: nat, max: nat) -> Option<Seq<nat>>
    decreases ps.len(),
{
    if ps.len() == 0 {
        Some(Seq::empty())
    } else {
        match numbers_of(ps.drop_last(), radix, max) {
            None => None,
            Some(a) => match parse_uint(ps.last(), radix, max) {
                None => None,
                Some(v) => Some(a.push(v)),
            },
        }
    }
}

proof fn lemma_numbers_prefix_none(ps: Seq<Seq<u8>>, k: int, radix: nat, max: nat)
    requires
        0 <= k <= ps.len(),
        numbers_of(ps.subrange(0, k), radix, max) is None,
    ensures
        numbers_of(ps, radix, max) is None,
    decreases ps.len() - k,
{
    if k < ps.len() {
        assert(ps.subrange(0, k + 1).drop_last() =~= ps.subrange(0, k));
        lemma_numbers_prefix_none(ps, k + 1, radix, max);
    } else {
        assert(ps.subrange(0, k) =~= ps);
    }
}

proof fn lemma_numbers_len(ps: Seq<Seq<u8>>, radix: nat, max: nat)
    ensures
        numbers_of(ps, radix, max) matches Some(v) ==> v.len() == ps.len(),
    decreases ps.len(),
{
    if ps.len() > 0 {
        lemma_numbers_len(ps.drop_last(), radix, max);
    }
}

pub open spec fn nat_views(v: Seq<u32>) -> Seq<nat> {
    v.map_values(|x: u32| x as nat)
}

/// Reads each piece as a number in base `radix` up to `max`.
fn parse_numbers(ps: &Vec<Vec<u8>>, radix: u32, max: u32) -> (r: Option<Vec<u32>>)
    requires
        radix == 10 || radix == 16,
        max < 0x10000,
    ensures
        r matches Some(v) ==> numbers_of(bytes_views(ps@), radix as nat, max as nat) == Some(
            nat_views(v@),
        ),
        r matches Some(v) ==> forall|j: int| 0 <= j < v@.len() ==> v@[j] <= max,
        r is None ==> numbers_of(bytes_views(ps@), radix as nat, max as nat) is None,
{
    let mut out: Vec<u32> = Vec::new();
    let mut i: usize = 0;
    let ghost all = bytes_views(ps@);
    assert(all.subrange(0, 0) =~= Seq::<Seq<u8>>::empty());
    while i < ps.len()
        invariant
            i <= ps@.len(),
            all == bytes_views(ps@),
            radix == 10 || radix == 16,
            max < 0x10000,
            numbers_of(all.subrange(0, i as int), radix as nat, max as nat) == Some(nat_views(out@)),
            forall|j: int| 0 <= j < out@.len() ==> out@[j] <= max,
        decreases ps@.len() - i,
    {
        let ghost nxt = all.subrange(0, i as int + 1);
        assert(nxt.drop_last() =~= all.subrange(0, i as int));
        assert(nxt.last() == ps@[i as int]@);
        match parse_number(ps[i].as_slice(), radix, max) {
            Some(v) => {
                let ghost before = out@;
                out.push(v);
                assert(nat_views(out@) =~= nat_views(before).push(v as nat));
            },
            None => {
                proof {
                    lemma_numbers_prefix_none(all, i as int + 1, radix as nat, max as nat);
                }
                return None;
            },
        }
        i = i + 1;
    }
    assert(all.subrange(0, i as int) =~= all);
    Some(out)
}

/// The four octets of a dotted-decimal IPv4 address.
pub open spec fn ip4_payload(p: Seq<u8>) -> Option<Seq<u8>> {
    match numbers_of(pieces(p, 0x2e, true), 10, 255) {
        Some(v) => if v.len() == 4 {
            Some(v.map_values(|x: nat| x as u8))
        } else {
            None
        },
        None => None,
    }
}

/// The eight groups of a colon-hex IPv6 address; a "::" stands for as many zero groups as
/// are missing, and missing groups without one are zeros at the end.
pub open spec fn ip6_groups(p: Seq<u8>) -> Option<Seq<nat>> {
    let hs = halves_from(p, 0, 0);
    if hs.len() > 2 {
        None
    } else {
        let left = pieces(hs[0], 0x3a, false);
        let right = if hs.len() == 2 {
            pieces(hs[1], 0x3a, false)
        } else {
            Seq::empty()
        };
        if left.len() > 8 || right.len() > 8 - left.len() {
            None
        } else {
            match numbers_of(left, 16, 0xffff) {
                None => None,
                Some(l) => match numbers_of(right, 16, 0xffff) {
                    None => None,
                    Some(r) => Some(l + Seq::new((8 - l.len() - r.len()) as nat, |i: int| 0nat) + r),
                },
            }
        }
    }
}

/// The big-endian bytes of 16-bit groups.
pub open spec fn groups_bytes(g: Seq<nat>) -> Seq<u8>
    decreases g.len(),
{
    if g.len() == 0 {
        Seq::empty()
    } else {
        groups_bytes(g.drop_last()) + seq![(g.last() / 256) as u8, (g.last() % 256) as u8]
    }
}

/// Reads a colon-hex IPv6 address, expanding "::".
fn parse_ipv6(addr: &[u8]) -> (r: Result<Vec<u32>, MultiaddrError>)
    ensures
        r matches Ok(v) ==> ip6_groups(addr@) == Some(nat_views(v@)),
        r matches Ok(v) ==> forall|j: int| 0 <= j < v@.len() ==> v@[j] <= 0xffff,
        r matches Err(e) ==> ip6_groups(addr@) is None && e == MultiaddrError::InvalidAddress,
{
    let hs = split_halves(addr);
    if hs.len() > 2 {
        return Err(MultiaddrError::InvalidAddress);
    }
    proof {
        lemma_halves_nonempty(addr@, 0, 0);
    }
    let left = split_bytes(hs[0].as_slice(), 0x3a, false);
    let right = if hs.len() == 2 {
        split_bytes(hs[1].as_slice(), 0x3a, false)
    } else {
        let e: Vec<Vec<u8>> = Vec::new();
        assert(bytes_views(e@) =~= Seq::<Seq<u8>>::empty());
        e
    };
    assert(bytes_views(hs@)[0] == hs@[0]@);
    proof {
        if hs@.len() == 2 {
            assert(bytes_views(hs@)[1] == hs@[1]@);
        }
    }
    if left.len() > 8 || right.len() > 8 - left.len() {
        return Err(MultiaddrError::InvalidAddress);
    }
    let l = match parse_numbers(&left, 16, 0xffff) {
        Some(v) => v,
        None => {
            return Err(MultiaddrError::InvalidAddress);
        },
    };
    let r = match parse_numbers(&right, 16, 0xffff) {
        Some(v) => v,
        None => {
            return Err(MultiaddrError::InvalidAddress);
        },
    };
    proof {
        lemma_numbers_len(bytes_views(left@), 16, 0xffff);
        lemma_numbers_len(bytes_views(right@), 16, 0xffff);
    }
    let mut segs: Vec<u32> = Vec::new();
    let mut i: usize = 0;
    while i < l.len()
        invariant
            i <= l@.len(),
            nat_views(segs@) == nat_views(l@).subrange(0, i as int),
            forall|j: int| 0 <= j < l@.len() ==> l@[j] <= 0xffff,
            forall|j: int| 0 <= j < segs@.len() ==> segs@[j] <= 0xffff,
        decreases l@.len() - i,
    {
        let ghost before = segs@;
        segs.push(l[i]);
        assert(nat_views(segs@) =~= nat_views(before).push(l@[i as int] as nat));
        i = i + 1;
        assert(nat_views(segs@) =~= nat_views(l@).subrange(0, i as int));
    }
    let zeros = 8 - l.len() - r.len();
    let mut z: usize = 0;
    while z < zeros
        invariant
            z <= zeros,
            nat_views(segs@) == nat_views(l@) + Seq::new(z as nat, |i: int| 0nat),
            forall|j: int| 0 <= j < segs@.len() ==> segs@[j] <= 0xffff,
        decreases zeros - z,
    {
        let ghost before = segs@;
        segs.push(0);
        assert(nat_views(segs@) =~= nat_views(before).push(0nat));
        z = z + 1;
        assert(nat_views(segs@) =~= nat_views(l@) + Seq::new(z as nat, |i: int| 0nat));
    }
    let ghost mid = nat_views(segs@);
    let mut j: usize = 0;
    while j < r.len()
        invariant
            j <= r@.len(),
            nat_views(segs@) == mid + nat_views(r@).subrange(0, j as int),
            forall|j: int| 0 <= j < r@.len() ==> r@[j] <= 0xffff,
            forall|j: int| 0 <= j < segs@.len() ==> segs@[j] <= 0xffff,
        decreases r@.len() - j,
    {
        let ghost before = segs@;
        segs.push(r[j]);
        assert(nat_views(segs@) =~= nat_views(before).push(r@[j as int] as nat));
        j = j + 1;
        assert(nat_views(segs@) =~= mid + nat_views(r@).subrange(0, j as int));
    }
    assert(nat_views(l@).subrange(0, l@.len() as int) =~= nat_views(l@));
    assert(nat_views(r@).subrange(0, r@.len() as int) =~= nat_views(r@));
    Ok(segs)
}

pub open spec fn word_ip4() -> Seq<u8> {
    seq![0x69u8, 0x70u8, 0x34u8]
}

pub open spec fn word_ip6() -> Seq<u8> {
    seq![0x69u8, 0x70u8, 0x36u8]
}

pub open spec fn word_dns4() -> Seq<u8> {
    seq![0x64u8, 0x6eu8, 0x73u8, 0x34u8]
}

pub open spec fn word_dns6() -> Seq<u8> {
    seq![0x64u8, 0x6eu8, 0x73u8, 0x36u8]
}

pub open spec fn word_dnsaddr() -> Seq<u8> {
    seq![0x64u8, 0x6eu8, 0x73u8, 0x61u8, 0x64u8, 0x64u8, 0x72u8]
}

pub open spec fn word_tcp() -> Seq<u8> {
    seq![0x74u8, 0x63u8, 0x70u8]
}

pub open spec fn word_udp() -> Seq<u8> {
    seq![0x75u8, 0x64u8, 0x70u8]
}

pub open spec fn word_ws() -> Seq<u8> {
    seq![0x77u8, 0x73u8]
}

pub open spec fn word_wss() -> Seq<u8> {
    seq![0x77u8, 0x73u8, 0x73u8]
}

pub open spec fn word_p2p() -> Seq<u8> {
    seq![0x70u8, 0x32u8, 0x70u8]
}

/// The encoding of the segment named by `parts[k]`, with its value in `parts[k + 1]` where it
/// takes one, and the index of the next name.
pub open spec fn parse_step(parts: Seq<Seq<u8>>, k: nat) -> Result<(Seq<u8>, nat), MultiaddrError> {
    let w = parts[k as int];
    let has_arg = k < parts.len() - 1;
    let arg = parts[k as int + 1];
    if w == word_ip4() {
        if !has_arg {
            Err(MultiaddrError::InvalidAddress)
        } else {
            match ip4_payload(arg) {
                None => Err(MultiaddrError::InvalidAddress),
                Some(o) => Ok((spec_encode_varint(IP4) + o, k + 2)),
            }
        }
    } else if w == word_ip6() {
        if !has_arg {
            Err(MultiaddrError::InvalidAddress)
        } else {
            match ip6_groups(arg) {
                None => Err(MultiaddrError::InvalidAddress),
                Some(g) => Ok((spec_encode_varint(IP6) + groups_bytes(g), k + 2)),
            }
        }
    } else if w == word_dns4() || w == word_dns6() || w == word_dnsaddr() {
        if !has_arg {
            Err(MultiaddrError::InvalidAddress)
        } else {
            let code = if w == word_dns4() {
                DNS4
            } else if w == word_dns6() {
                DNS6
            } else {
                DNSADDR
            };
            Ok((spec_encode_varint(code) + spec_encode_varint(arg.len() as u64) + arg, k + 2))
        }
    } else if w == word_tcp() || w == word_udp() {
        if !has_arg {
            Err(MultiaddrError::InvalidAddress)
        } else {
            match parse_uint(arg, 10, 0xffff) {
                None => Err(MultiaddrError::InvalidAddress),
                Some(v) => Ok((
                    spec_encode_varint(
                        if w == word_tcp() {
                            TCP
                        } else {
                            UDP
                        },
                    ) + seq![(v / 256) as u8, (v % 256) as u8],
                    k + 2,
                )),
            }
        }
    } else if w == word_ws() {
        Ok((spec_encode_varint(WS), k + 1))
    } else if w == word_wss() {
        Ok((spec_encode_varint(WSS), k + 1))
    } else if w == word_p2p() {
        if !has_arg {
            Err(MultiaddrError::InvalidAddress)
        } else {
            match base58_decoded(arg) {
                None => Err(MultiaddrError::InvalidAddress),
                Some(b) => Ok((spec_encode_varint(P2P) + spec_encode_varint(b.len() as u64) + b, k + 2)),
            }
        }
    } else {
        Err(MultiaddrError::InvalidProtocol)
    }
}

/// The encoding of the path whose non-empty parts are `parts`, from `parts[k]` on, after the
/// bytes `acc`; or the first error met.
pub open spec fn parse_from(parts: Seq<Seq<u8>>, k: nat, acc: Seq<u8>) -> Result<Seq<u8>, MultiaddrError>
    decreases parts.len() - k,
{
    if k >= parts.len() {
        Ok(acc)
    } else {
        match parse_step(parts, k) {
            Err(e) => Err(e),
            Ok((b, next)) => if next <= k || next > parts.len() {
                Err(MultiaddrError::InvalidProtocol)
            } else {
                parse_from(parts, next, acc + b)
            },
        }
    }
}

/// The encoding of a `/`-separated textual path, before verification.
pub open spec fn spec_path_bytes(text: Seq<u8>) -> Result<Seq<u8>, MultiaddrError> {
    parse_from(pieces(text, 0x2f, false), 0, Seq::empty())
}

fn is_word(p: &Vec<u8>, w: &[u8]) -> (r: bool)
    ensures
        r == (p@ == w@),
{
    if p.len() != w.len() {
        return false;
    }
    let mut i: usize = 0;
    while i < p.len()
        invariant
            p@.len() == w@.len(),
            i <= p@.len(),
            forall|j: int| 0 <= j < i ==> p@[j] == w@[j],
        decreases p@.len() - i,
    {
        if p[i] != w[i] {
            return false;
        }
        i = i + 1;
    }
    assert(p@ =~= w@);
    true
}

fn append_bytes(out: &mut Vec<u8>, b: &Vec<u8>)
    ensures
        final(out)@ == old(out)@ + b@,
{
    let mut i: usize = 0;
    while i < b.len()
        invariant
            i <= b@.len(),
            out@ == old(out)@ + b@.subrange(0, i as int),
        decreases b@.len() - i,
    {
        out.push(b[i]);
        i = i + 1;
        assert(out@ =~= old(out)@ + b@.subrange(0, i as int));
    }
    assert(b@.subrange(0, b@.len() as int) =~= b@);
}

/// The encoding of the segment named by `parts[k]`, with the index of the next name.
fn parse_segment(parts: &Vec<Vec<u8>>, k: usize) -> (r: Result<(Vec<u8>, usize), MultiaddrError>)
    requires
        k < parts@.len(),
    ensures
        match r {
            Ok((b, next)) => parse_step(bytes_views(parts@), k as nat) == Ok::<(Seq<u8>, nat), MultiaddrError>((b@, next as nat)),
            Err(e) => parse_step(bytes_views(parts@), k as nat) == Err::<(Seq<u8>, nat), MultiaddrError>(e),
        },
{
    let ghost ps = bytes_views(parts@);
    let w = &parts[k];
    assert(ps[k as int] == w@);
    let has_arg = k < parts.len() - 1;
    proof {
        if has_arg {
            assert(ps[k as int + 1] == parts@[k as int + 1]@);
        }
    }
    let mut out: Vec<u8> = Vec::new();
    if is_word(w, &[0x69, 0x70, 0x34]) {
        assert(w@ == word_ip4());
        if !has_arg {
            return Err(MultiaddrError::InvalidAddress);
        }
        let arg = &parts[k + 1];
        let ps4 = split_bytes(arg.as_slice(), 0x2e, true);
        let octets = match parse_numbers(&ps4, 10, 255) {
            Some(v) => v,
            None => {
                return Err(MultiaddrError::InvalidAddress);
            },
        };
        if octets.len() != 4 {
            return Err(MultiaddrError::InvalidAddress);
        }
        encode_varint(IP4, &mut out);
        let ghost head = out@;
        let mut i: usize = 0;
        while i < 4
            invariant
                octets@.len() == 4,
                i <= 4,
                forall|j: int| 0 <= j < 4 ==> octets@[j] <= 255,
                out@ == head + nat_views(octets@).map_values(|x: nat| x as u8).subrange(0, i as int),
            decreases 4 - i,
        {
            out.push(octets[i] as u8);
            i = i + 1;
            assert(out@ =~= head + nat_views(octets@).map_values(|x: nat| x as u8).subrange(0, i as int));
        }
        assert(nat_views(octets@).map_values(|x: nat| x as u8).subrange(0, 4) =~= nat_views(octets@).map_values(|x: nat| x as u8));
        Ok((out, k + 2))
    } else if is_word(w, &[0x69, 0x70, 0x36]) {
        assert(w@ == word_ip6());
        if !has_arg {
            return Err(MultiaddrError::InvalidAddress);
        }
        let groups = parse_ipv6(parts[k + 1].as_slice())?;
        encode_varint(IP6, &mut out);
        let ghost head = out@;
        let mut i: usize = 0;
        while i < groups.len()
            invariant
                i <= groups@.len(),
                forall|j: int| 0 <= j < groups@.len() ==> groups@[j] <= 0xffff,
                out@ == head + groups_bytes(nat_views(groups@).subrange(0, i as int)),
            decreases groups@.len() - i,
        {
            let g = groups[i];
            out.push((g / 256) as u8);
            out.push((g % 256) as u8);
            let ghost sub = nat_views(groups@).subrange(0, i as int + 1);
            assert(sub.drop_last() =~= nat_views(groups@).subrange(0, i as int));
            i = i + 1;
            assert(out@ =~= head + groups_bytes(nat_views(groups@).subrange(0, i as int)));
        }
        assert(nat_views(groups@).subrange(0, groups@.len() as int) =~= nat_views(groups@));
        Ok((out, k + 2))
    } else if is_word(w, &[0x64, 0x6e, 0x73, 0x34]) || is_word(w, &[0x64, 0x6e, 0x73, 0x36])
        || is_word(w, &[0x64, 0x6e, 0x73, 0x61, 0x64, 0x64, 0x72]) {
        if !has_arg {
            return Err(MultiaddrError::InvalidAddress);
        }
        let code = if is_word(w, &[0x64, 0x6e, 0x73, 0x34]) {
            DNS4
        } else if is_word(w, &[0x64, 0x6e, 0x73, 0x36]) {
            DNS6
        } else {
            DNSADDR
        };
        let name = &parts[k + 1];
        encode_varint(code, &mut out);
        encode_varint(name.len() as u64, &mut out);
        append_bytes(&mut out, name);
        assert(out@ =~= spec_encode_varint(code) + spec_encode_varint(name@.len() as u64) + name@);
        Ok((out, k + 2))
    } else if is_word(w, &[0x74, 0x63, 0x70]) || is_word(w, &[0x75, 0x64, 0x70]) {
        if !has_arg {
            return Err(MultiaddrError::InvalidAddress);
        }
        let port = match parse_number(parts[k + 1].as_slice(), 10, 0xffff) {
            Some(v) => v,
            None => {
                return Err(MultiaddrError::InvalidAddress);
            },
        };
        encode_varint(
            if is_word(w, &[0x74, 0x63, 0x70]) {
                TCP
            } else {
                UDP
            },
            &mut out,
        );
        let ghost head = out@;
        out.push((port / 256) as u8);
        out.push((port % 256) as u8);
        assert(out@ =~= head + seq![(port / 256) as u8, (port % 256) as u8]);
        Ok((out, k + 2))
    } else if is_word(w, &[0x77, 0x73]) {
        encode_varint(WS, &mut out);
        assert(w@ == word_ws());
        assert(out@ =~= spec_encode_varint(WS));
        Ok((out, k + 1))
    } else if is_word(w, &[0x77, 0x73, 0x73]) {
        encode_varint(WSS, &mut out);
        assert(w@ == word_wss());
        assert(out@ =~= spec_encode_varint(WSS));
        Ok((out, k + 1))
    } else if is_word(w, &[0x70, 0x32, 0x70]) {
        if !has_arg {
            return Err(MultiaddrError::InvalidAddress);
        }
        let peer = match base58_decode(parts[k + 1].as_slice()) {
            Ok(b) => b,
            Err(_) => {
                return Err(MultiaddrError::InvalidAddress);
            },
        };
        encode_varint(P2P, &mut out);
        encode_varint(peer.len() as u64, &mut out);
        append_bytes(&mut out, &peer);
        assert(w@ == word_p2p());
        assert(out@ =~= spec_encode_varint(P2P) + spec_encode_varint(peer@.len() as u64) + peer@);
        Ok((out, k + 2))
    } else {
        Err(MultiaddrError::InvalidProtocol)
    }
}

impl Multiaddr {
    /// Reads a `/`-separated path such as `/ip4/127.0.0.1/tcp/30303/p2p/<base-58 identity>`,
    /// then verifies the bytes it stands for, so that what parses is always a valid address.
    pub fn from_str(s: &str) -> (r: Result<Multiaddr, MultiaddrError>)
        ensures
            match spec_path_bytes(s.spec_bytes()) {
                Err(e) => r == Err::<Multiaddr, MultiaddrError>(e),
                Ok(b) => match r {
                    Ok(m) => spec_verify(b) is Ok && m@ == b,
                    Err(e) => spec_verify(b) == Err::<(), MultiaddrError>(e),
                },
            },
    {
        let text = s.as_bytes();
        let parts = split_bytes(text, 0x2f, false);
        let ghost ps = bytes_views(parts@);
        let mut bytes: Vec<u8> = Vec::new();
        let mut k: usize = 0;
        while k < parts.len()
            invariant
                ps == bytes_views(parts@),
                ps == pieces(s.spec_bytes(), 0x2f, false),
                k <= parts@.len(),
                parse_from(ps, 0, Seq::empty()) == parse_from(ps, k as nat, bytes@),
            decreases parts@.len() - k,
        {
            let (b, next) = parse_segment(&parts, k)?;
            if next <= k || next > parts.len() {
                return Err(MultiaddrError::InvalidProtocol);
            }
            append_bytes(&mut bytes, &b);
            k = next;
        }
        Multiaddr::verify(bytes.as_slice())
    }
}

} // verus!
