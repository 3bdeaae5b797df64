use vstd::prelude::*;

use crate::multiaddr::{
    fixed_width, is_length_prefixed, payload_end, rest, scan_from, segment_at,
    spec_decode_varint, spec_encode_varint, spec_verify, varint_from, MultiaddrError, P2P,
};

verus! {

proof fn lemma_low_byte_last(v: u64, sh: u64, b: u8)
    requires
        sh <= 63,
        v >> sh < 128,
        b as u64 == v >> sh,
    ensures
        b & 0x80 == 0,
        (v & !(0xffff_ffff_ffff_ffffu64 << sh)) | (((b & 0x7f) as u64) << sh) == v,
{
    assert(b & 0x80 == 0) by (bit_vector)
        requires
            (b as u64) < 128,
    ;
    assert(((b & 0x7f) as u64) == v >> sh) by (bit_vector)
        requires
            b as u64 == v >> sh,
            v >> sh < 128,
    ;
    assert((v & !(0xffff_ffff_ffff_ffffu64 << sh)) | ((v >> sh) << sh) == v) by (bit_vector)
        requires
            sh <= 63,
    ;
}

proof fn lemma_low_byte_more(v: u64, sh: u64, b: u8)
    requires
        sh <= 63,
        v >> sh >= 128,
        b as u64 == ((v >> sh) % 128) + 128,
    ensures
        sh <= 56,
        b & 0x80 != 0,
        (v & !(0xffff_ffff_ffff_ffffu64 << sh)) | (((b & 0x7f) as u64) << sh) == v & !(0xffff_ffff_ffff_ffffu64 << ((sh + 7) as u64)),
        (v >> sh) / 128 == v >> ((sh + 7) as u64),
{
    assert(sh <= 56) by (bit_vector)
        requires
            sh <= 63,
            v >> sh >= 128,
    ;
    assert(b & 0x80 != 0) by (bit_vector)
        requires
            b as u64 >= 128,
    ;
    assert(((b & 0x7f) as u64) == (v >> sh) & 0x7f) by (bit_vector)
        requires
            b as u64 == ((v >> sh) % 128) + 128,
    ;
    assert((v & !(0xffff_ffff_ffff_ffffu64 << sh)) | (((v >> sh) & 0x7f) << sh) == v & !(0xffff_ffff_ffff_ffffu64 << ((sh + 7) as u64))) by (bit_vector)
        requires
            sh <= 56,
    ;
    assert((v >> sh) / 128 == v >> ((sh + 7) as u64)) by (bit_vector)
        requires
            sh <= 56,
    ;
}

/// Decoding reads back the value that was encoded, from position `j` of the encoding on.
proof fn lemma_varint_round_trip_from(v: u64, t: Seq<u8>, j: nat)
    requires
        j <= 9,
        j <= (spec_encode_varint(v) + t).len(),
        rest(spec_encode_varint(v) + t, j as int) == spec_encode_varint(v >> ((7 * j) as u64)) + t,
    ensures
        varint_from(spec_encode_varint(v) + t, j, v & !(0xffff_ffff_ffff_ffffu64 << ((7 * j) as u64))) == Some(
            (v, j + spec_encode_varint(v >> ((7 * j) as u64)).len()),
        ),
    decreases 9 - j,
{
    let s = spec_encode_varint(v) + t;
    let sh = (7 * j) as u64;
    let w = v >> sh;
    let acc = v & !(0xffff_ffff_ffff_ffffu64 << sh);
    let e = spec_encode_varint(w);
    if w < 0x80 {
        assert(e.len() == 1);
    } else {
        assert(e.len() >= 1);
    }
    assert(rest(s, j as int).len() >= 1);
    assert(j < s.len());
    assert(rest(s, j as int)[0] == s[j as int]);
    if w < 0x80 {
        assert(e == seq![w as u8]);
        let b = w as u8;
        assert(s[j as int] == b);
        lemma_low_byte_last(v, sh, b);
    } else {
        let b = ((w % 0x80) + 0x80) as u8;
        assert(e == seq![b] + spec_encode_varint(w / 0x80));
        assert(s[j as int] == b);
        lemma_low_byte_more(v, sh, b);
        let sh2 = (7 * (j + 1)) as u64;
        assert(sh2 == (sh + 7) as u64);
        assert(rest(s, j as int + 1) =~= rest(s, j as int).drop_first());
        assert(rest(s, j as int).drop_first() =~= spec_encode_varint(w / 0x80) + t);
        lemma_varint_round_trip_from(v, t, j + 1);
    }
}

/// Decoding the encoding of `v`, whatever follows it, gives `v` and the encoding's length.
pub proof fn lemma_varint_round_trip(v: u64, t: Seq<u8>)
    ensures
        spec_decode_varint(spec_encode_varint(v) + t) == Some((v, spec_encode_varint(v).len())),
        spec_encode_varint(v).len() >= 1,
{
    assert(rest(spec_encode_varint(v) + t, 0) =~= spec_encode_varint(v) + t);
    assert(v >> 0u64 == v) by (bit_vector);
    assert(v & !(0xffff_ffff_ffff_ffffu64 << 0u64) == 0) by (bit_vector);
    lemma_varint_round_trip_from(v, t, 0);
    if v < 0x80 {
    } else {
        assert(spec_encode_varint(v) == seq![((v % 0x80) + 0x80) as u8] + spec_encode_varint(
            v / 0x80,
        ));
    }
}

/// A segment whose payload has the width its protocol asks for; a length-prefixed payload
/// may have any length.
pub open spec fn segment_well_formed(proto: u64, payload: Seq<u8>) -> bool {
    match fixed_width(proto) {
        Some(w) => payload.len() == w,
        None => is_length_prefixed(proto) && payload.len() <= u64::MAX,
    }
}

/// The bytes of one segment: its protocol code, its length when the protocol takes one,
/// then its payload.
pub open spec fn encode_segment(proto: u64, payload: Seq<u8>) -> Seq<u8> {
    if is_length_prefixed(proto) {
        spec_encode_varint(proto) + spec_encode_varint(payload.len() as u64) + payload
    } else {
        spec_encode_varint(proto) + payload
    }
}

/// The bytes of a stack of segments, first to last.
pub open spec fn encode_stack(segs: Seq<(u64, Seq<u8>)>) -> Seq<u8>
    decreases segs.len(),
{
    if segs.len() == 0 {
        Seq::empty()
    } else {
        encode_stack(segs.drop_last()) + encode_segment(segs.last().0, segs.last().1)
    }
}

pub open spec fn stack_well_formed(segs: Seq<(u64, Seq<u8>)>) -> bool {
    forall|i: int| 0 <= i < segs.len() ==> segment_well_formed(#[trigger] segs[i].0, segs[i].1)
}

/// The protocol of the last segment of a stack; zero for an empty stack.
pub open spec fn last_proto(segs: Seq<(u64, Seq<u8>)>) -> u64 {
    if segs.len() == 0 {
        0
    } else {
        segs.last().0
    }
}

/// A well-formed segment is read back whole, whatever stands before and after it.
proof fn lemma_segment_read(pre: Seq<u8>, p: u64, pay: Seq<u8>, more: Seq<u8>)
    requires
        segment_well_formed(p, pay),
    ensures
        segment_at(pre + encode_segment(p, pay) + more, pre.len()) == Ok::<(u64, nat), MultiaddrError>(
            (p, pre.len() + encode_segment(p, pay).len()),
        ),
{
    let s = pre + encode_segment(p, pay) + more;
    let a = pre.len();
    let ep = spec_encode_varint(p);
    if is_length_prefixed(p) {
        let el = spec_encode_varint(pay.len() as u64);
        assert(rest(s, a as int) =~= ep + (el + pay + more));
        lemma_varint_round_trip(p, el + pay + more);
        let j = a + ep.len();
        assert(rest(s, j as int) =~= el + (pay + more));
        lemma_varint_round_trip(pay.len() as u64, pay + more);
        assert(payload_end(s, p, j) == Ok::<nat, MultiaddrError>(j + el.len() + pay.len()));
    } else {
        assert(rest(s, a as int) =~= ep + (pay + more));
        lemma_varint_round_trip(p, pay + more);
    }
}

/// Scanning a well-formed stack, whatever follows it, reaches the stack's end with the
/// protocol of its last segment.
proof fn lemma_scan_stack(segs: Seq<(u64, Seq<u8>)>, more: Seq<u8>)
    requires
        stack_well_formed(segs),
    ensures
        scan_from(encode_stack(segs) + more, 0, 0) == scan_from(
            encode_stack(segs) + more,
            encode_stack(segs).len(),
            last_proto(segs),
        ),
    decreases segs.len(),
{
    if segs.len() > 0 {
        let init = segs.drop_last();
        let p = segs.last().0;
        let pay = segs.last().1;
        let eb = encode_segment(p, pay);
        let s = encode_stack(segs) + more;
        assert(s =~= encode_stack(init) + (eb + more));
        assert(stack_well_formed(init)) by {
            assert forall|i: int| 0 <= i < init.len() implies segment_well_formed(
                #[trigger] init[i].0,
                init[i].1,
            ) by {
                assert(init[i] == segs[i]);
            }
        }
        assert(segment_well_formed(segs[segs.len() - 1].0, segs[segs.len() - 1].1));
        lemma_scan_stack(init, eb + more);
        let a = encode_stack(init).len();
        assert(s =~= encode_stack(init) + eb + more);
        lemma_segment_read(encode_stack(init), p, pay, more);
        lemma_varint_round_trip(p, Seq::empty());
        assert(eb.len() >= 1);
        assert(a < s.len());
    }
}

/// An address built from a well-formed stack of segments that ends with a peer identity
/// passes verification.
pub proof fn lemma_stack_verifies(segs: Seq<(u64, Seq<u8>)>)
    requires
        stack_well_formed(segs),
        segs.len() > 0,
        segs.last().0 == P2P,
    ensures
        spec_verify(encode_stack(segs)) == Ok::<(), MultiaddrError>(()),
{
    lemma_scan_stack(segs, Seq::empty());
    assert(encode_stack(segs) + Seq::<u8>::empty() =~= encode_stack(segs));
}

/// An address built from a well-formed stack whose last segment is not a peer identity
/// fails verification with `InvalidProtocol`.
pub proof fn lemma_stack_without_identity_rejected(segs: Seq<(u64, Seq<u8>)>)
    requires
        stack_well_formed(segs),
        last_proto(segs) != P2P,
    ensures
        spec_verify(encode_stack(segs)) == Err::<(), MultiaddrError>(MultiaddrError::InvalidProtocol),
{
    lemma_scan_stack(segs, Seq::empty());
    assert(encode_stack(segs) + Seq::<u8>::empty() =~= encode_stack(segs));
}

/// After a well-formed stack, a length-prefixed segment that declares more bytes than remain
/// makes verification fail with `Truncated`.
pub proof fn lemma_truncated_segment_rejected(
    segs: Seq<(u64, Seq<u8>)>,
    proto: u64,
    declared: u64,
    tail: Seq<u8>,
)
    requires
        stack_well_formed(segs),
        is_length_prefixed(proto),
        tail.len() < declared,
    ensures
        spec_verify(
            encode_stack(segs) + spec_encode_varint(proto) + spec_encode_varint(declared) + tail,
        ) == Err::<(), MultiaddrError>(MultiaddrError::Truncated),
{
    let e = encode_stack(segs);
    let ep = spec_encode_varint(proto);
    let ed = spec_encode_varint(declared);
    let s = e + ep + ed + tail;
    let more = ep + ed + tail;
    assert(s =~= e + more);
    lemma_scan_stack(segs, more);
    let a = e.len();
    assert(rest(s, a as int) =~= ep + (ed + tail));
    lemma_varint_round_trip(proto, ed + tail);
    let j = a + ep.len();
    assert(rest(s, j as int) =~= ed + tail);
    lemma_varint_round_trip(declared, tail);
    assert(segment_at(s, a) == Err::<(u64, nat), MultiaddrError>(MultiaddrError::Truncated));
    assert(a < s.len());
}

} // verus!

verus! {

/// The bytes of a text made of ASCII characters.
pub open spec fn ascii_bytes(cs: Seq<char>) -> Seq<u8> {
    cs.map_values(|c: char| c as u8)
}

/// The digits that the textual form prints for a number are read back as that number by the
/// path parser's number reader: one part of the agreement between printing and parsing.
pub proof fn lemma_number_text_reads_back(n: nat, radix: nat, max: nat)
    requires
        radix == 10 || radix == 16,
        n <= max,
    ensures
        crate::multiaddr_parse::parse_uint(
            ascii_bytes(crate::multiaddr_text::radix_text(n, radix)),
            radix,
            max,
        ) == Some(n),
{
    lemma_digits_read_back(n, radix);
    let b = ascii_bytes(crate::multiaddr_text::radix_text(n, radix));
    lemma_radix_text_nonempty(n, radix);
    lemma_digit_bytes(n, radix);
    assert(b[0] != 0x2b);
}

proof fn lemma_radix_text_nonempty(n: nat, radix: nat)
    ensures
        crate::multiaddr_text::radix_text(n, radix).len() >= 1,
    decreases n,
{
    if radix == 16 {
        if n >= 16 {
            lemma_radix_text_nonempty(n / 16, radix);
        }
    } else if n >= 10 {
        lemma_radix_text_nonempty(n / 10, radix);
    }
}

/// Every character of a printed number is a digit, hence not a plus sign.
proof fn lemma_digit_bytes(n: nat, radix: nat)
    ensures
        forall|i: int|
            0 <= i < crate::multiaddr_text::radix_text(n, radix).len() ==> ascii_bytes(
                crate::multiaddr_text::radix_text(n, radix),
            )[i] != 0x2b,
    decreases n,
{
    let t = crate::multiaddr_text::radix_text(n, radix);
    if (radix == 16 && n >= 16) || (radix != 16 && n >= 10) {
        let q = if radix == 16 {
            n / 16
        } else {
            n / 10
        };
        lemma_digit_bytes(q, radix);
        let p = crate::multiaddr_text::radix_text(q, radix);
        let d = if radix == 16 {
            n % 16
        } else {
            n % 10
        };
        assert(t == p.push(crate::multiaddr_text::digit_char(d)));
        assert forall|i: int| 0 <= i < t.len() implies ascii_bytes(t)[i] != 0x2b by {
            if i < p.len() {
                assert(t[i] == p[i]);
                assert(ascii_bytes(p)[i] != 0x2b);
            } else {
                assert(t[i] == crate::multiaddr_text::digit_char(d));
            }
        }
    }
}

/// The digits of a printed number have that number as their value.
proof fn lemma_digits_read_back(n: nat, radix: nat)
    requires
        radix == 10 || radix == 16,
    ensures
        crate::multiaddr_parse::digits_value(
            ascii_bytes(crate::multiaddr_text::radix_text(n, radix)),
            radix,
        ) == Some(n),
    decreases n,
{
    let t = crate::multiaddr_text::radix_text(n, radix);
    let b = ascii_bytes(t);
    if n < radix {
        assert(t == seq![crate::multiaddr_text::digit_char(n)]);
        assert(b.drop_last() =~= Seq::<u8>::empty());
        assert(crate::multiaddr_parse::digit_value(b.last()) == n as int);
    } else {
        let q = n / radix;
        let d = n % radix;
        let p = crate::multiaddr_text::radix_text(q, radix);
        assert(t == p.push(crate::multiaddr_text::digit_char(d)));
        assert(b.drop_last() =~= ascii_bytes(p));
        lemma_digits_read_back(q, radix);
        assert(crate::multiaddr_parse::digit_value(b.last()) == d as int);
        assert(q * radix + d == n) by (nonlinear_arith)
            requires
                q == n / radix,
                d == n % radix,
                radix > 0,
        ;
    }
}

} // verus!
