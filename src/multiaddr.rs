use vstd::prelude::*;

verus! {

/// Errors of the address codec.
#[derive(Debug, Clone, Copy, PartialEq, Eq, Structural)]
pub enum MultiaddrError {
    InvalidVarint,
    InvalidProtocol,
    InvalidAddress,
    Truncated,
}

pub const IP4: u64 = 4;
pub const IP6: u64 = 41;
pub const TCP: u64 = 6;
pub const UDP: u64 = 17;
pub const DNS4: u64 = 54;
pub const DNS6: u64 = 55;
pub const DNSADDR: u64 = 56;
pub const P2P: u64 = 421;
pub const WS: u64 = 477;
pub const WSS: u64 = 478;

/// The bytes of `s` from position `i` on.
pub open spec fn rest(s: Seq<u8>, i: int) -> Seq<u8> {
    s.subrange(i, s.len() as int)
}

/// Unsigned LEB128 decoding from position `i` with `value` accumulated so far; at most ten
/// bytes are read.
pub open spec fn varint_from(s: Seq<u8>, i: nat, value: u64) -> Option<(u64, nat)>
    decreases 10 - i,
{
    if i > 9 || i >= s.len() {
        None
    } else {
        let b = s[i as int];
        let v = value | (((b & 0x7f) as u64) << ((7 * i) as u64));
        if b & 0x80 == 0 {
            Some((v, i + 1))
        } else if i >= 9 {
            None
        } else {
            varint_from(s, i + 1, v)
        }
    }
}

/// The value and the length of the varint at the start of `s`.
pub open spec fn spec_decode_varint(s: Seq<u8>) -> Option<(u64, nat)> {
    varint_from(s, 0, 0)
}

/// Unsigned LEB128 encoding of `v`.
pub open spec fn spec_encode_varint(v: u64) -> Seq<u8>
    decreases v,
{
    if v < 0x80 {
        seq![v as u8]
    } else {
        seq![((v % 0x80) + 0x80) as u8] + spec_encode_varint(v / 0x80)
    }
}

/// The payload width of a protocol with a fixed-width payload.
pub open spec fn fixed_width(proto: u64) -> Option<nat> {
    if proto == IP4 {
        Some(4)
    } else if proto == IP6 {
        Some(16)
    } else if proto == TCP || proto == UDP {
        Some(2)
    } else if proto == WS || proto == WSS {
        Some(0)
    } else {
        None
    }
}

/// A protocol whose payload is preceded by its length.
pub open spec fn is_length_prefixed(proto: u64) -> bool {
    proto == DNS4 || proto == DNS6 || proto == DNSADDR || proto == P2P
}

/// Where the payload of a segment of protocol `proto`, starting at `j`, ends.
pub open spec fn payload_end(s: Seq<u8>, proto: u64, j: nat) -> Result<nat, MultiaddrError> {
    match fixed_width(proto) {
        Some(w) => if j + w > s.len() {
            Err(MultiaddrError::Truncated)
        } else {
            Ok(j + w)
        },
        None => if is_length_prefixed(proto) {
            match spec_decode_varint(rest(s, j as int)) {
                None => Err(MultiaddrError::InvalidVarint),
                Some((len, read)) => if j + read + len > s.len() {
                    Err(MultiaddrError::Truncated)
                } else {
                    Ok((j + read + len) as nat)
                },
            }
        } else {
            Err(MultiaddrError::InvalidProtocol)
        },
    }
}

/// Where the segment starting at `i` ends, with its protocol code.
pub open spec fn segment_at(s: Seq<u8>, i: nat) -> Result<(u64, nat), MultiaddrError> {
    match spec_decode_varint(rest(s, i as int)) {
        None => Err(MultiaddrError::InvalidVarint),
        Some((proto, read)) => match payload_end(s, proto, i + read) {
            Err(e) => Err(e),
            Ok(end) => Ok((proto, end)),
        },
    }
}

/// Scans the segments from position `i` to the end; `last` is the protocol of the segment
/// before `i`. The result is the protocol of the final segment, or the first error met.
pub open spec fn scan_from(s: Seq<u8>, i: nat, last: u64) -> Result<u64, MultiaddrError>
    decreases s.len() - i,
{
    if i >= s.len() {
        Ok(last)
    } else {
        match segment_at(s, i) {
            Err(e) => Err(e),
            Ok((proto, end)) => if end <= i {
                Err(MultiaddrError::InvalidVarint)
            } else {
                scan_from(s, end, proto)
            },
        }
    }
}

/// The verdict on a byte string: it must scan cleanly and end with a peer-identity segment.
pub open spec fn spec_verify(s: Seq<u8>) -> Result<(), MultiaddrError> {
    match scan_from(s, 0, 0) {
        Err(e) => Err(e),
        Ok(last) => if last == P2P {
            Ok(())
        } else {
            Err(MultiaddrError::InvalidProtocol)
        },
    }
}

pub open spec fn is_valid_multiaddr(s: Seq<u8>) -> bool {
    spec_verify(s) is Ok
}

/// An encoded address whose bytes have passed verification.
#[derive(Debug, PartialEq, Eq)]
pub struct Multiaddr {
    bytes: Vec<u8>,
}

impl Multiaddr {
    #[verifier::type_invariant]
    spec fn inv(self) -> bool {
        is_valid_multiaddr(self.bytes@)
    }
}

/// A varint that decodes from `s` decodes the same way when more bytes follow.
proof fn lemma_varint_from_prefix(s: Seq<u8>, t: Seq<u8>, i: nat, value: u64)
    requires
        varint_from(s, i, value) is Some,
    ensures
        varint_from(s + t, i, value) == varint_from(s, i, value),
    decreases 10 - i,
{
    let u = s + t;
    assert(u[i as int] == s[i as int]);
    let b = s[i as int];
    let v = value | (((b & 0x7f) as u64) << ((7 * i) as u64));
    if b & 0x80 != 0 && i < 9 {
        lemma_varint_from_prefix(s, t, i + 1, v);
    }
}

/// Decoding looks only at the bytes it reads.
proof fn lemma_decode_prefix(s: Seq<u8>, t: Seq<u8>)
    requires
        spec_decode_varint(s) is Some,
    ensures
        spec_decode_varint(s + t) == spec_decode_varint(s),
{
    lemma_varint_from_prefix(s, t, 0, 0);
}

/// A segment that ends inside `a` reads the same in `a + b`.
proof fn lemma_segment_prefix(a: Seq<u8>, b: Seq<u8>, i: nat)
    requires
        i < a.len(),
        segment_at(a, i) is Ok,
    ensures
        segment_at(a + b, i) == segment_at(a, i),
{
    let u = a + b;
    assert(rest(u, i as int) =~= rest(a, i as int) + b);
    lemma_decode_prefix(rest(a, i as int), b);
    let (proto, read) = spec_decode_varint(rest(a, i as int)).unwrap();
    let j = i + read;
    if is_length_prefixed(proto) && fixed_width(proto) is None {
        lemma_varint_from_bounds(rest(a, i as int), 0, 0);
        assert(rest(u, j as int) =~= rest(a, j as int) + b);
        lemma_decode_prefix(rest(a, j as int), b);
    }
}

/// Scanning `a + b` from inside `a` passes through the end of `a` with the same protocol as
/// scanning `a` alone.
proof fn lemma_scan_prefix(a: Seq<u8>, b: Seq<u8>, i: nat, last: u64)
    requires
        i <= a.len(),
        scan_from(a, i, last) is Ok,
    ensures
        scan_from(a + b, i, last) == scan_from(a + b, a.len(), scan_from(a, i, last).unwrap()),
    decreases a.len() - i,
{
    if i < a.len() {
        lemma_segment_prefix(a, b, i);
        let (proto, end) = segment_at(a, i).unwrap();
        lemma_scan_prefix(a, b, end, proto);
    }
}

/// A segment of `b` reads the same at the matching place of `a + b`.
proof fn lemma_segment_shift(a: Seq<u8>, b: Seq<u8>, k: nat)
    requires
        k < b.len(),
    ensures
        segment_at(a + b, a.len() + k) == (match segment_at(b, k) {
            Ok((p, e)) => Ok::<(u64, nat), MultiaddrError>((p, a.len() + e)),
            Err(x) => Err::<(u64, nat), MultiaddrError>(x),
        }),
{
    let u = a + b;
    let i = a.len() + k;
    assert(rest(u, i as int) =~= rest(b, k as int));
    match spec_decode_varint(rest(b, k as int)) {
        None => {},
        Some((proto, read)) => {
            let j = k + read;
            lemma_varint_from_bounds(rest(b, k as int), 0, 0);
            assert(rest(u, (a.len() + j) as int) =~= rest(b, j as int));
        },
    }
}

/// Scanning `a + b` from the end of `a` on is scanning `b`.
proof fn lemma_scan_shift(a: Seq<u8>, b: Seq<u8>, k: nat, last: u64)
    requires
        k <= b.len(),
    ensures
        scan_from(a + b, a.len() + k, last) == scan_from(b, k, last),
    decreases b.len() - k,
{
    if k < b.len() {
        lemma_segment_shift(a, b, k);
        match segment_at(b, k) {
            Err(_) => {},
            Ok((proto, end)) => {
                if end > k {
                    lemma_scan_shift(a, b, end, proto);
                }
            },
        }
    }
}

/// The protocol carried in before a non-empty scan does not matter.
proof fn lemma_scan_start(b: Seq<u8>, last1: u64, last2: u64)
    requires
        b.len() > 0,
    ensures
        scan_from(b, 0, last1) == scan_from(b, 0, last2),
{
}

/// Two valid addresses, one after the other, form a valid address.
pub proof fn lemma_concat_valid(a: Seq<u8>, b: Seq<u8>)
    requires
        is_valid_multiaddr(a),
        is_valid_multiaddr(b),
    ensures
        is_valid_multiaddr(a + b),
{
    lemma_scan_prefix(a, b, 0, 0);
    let l = scan_from(a, 0, 0).unwrap();
    assert(b.len() > 0);
    lemma_scan_shift(a, b, 0, l);
    assert(a.len() + 0 == a.len());
    lemma_scan_start(b, l, 0);
}

impl View for Multiaddr {
    type V = Seq<u8>;

    closed spec fn view(&self) -> Seq<u8> {
        self.bytes@
    }
}

/// Copies a byte slice into a vector.
pub fn copy_bytes(b: &[u8]) -> (r: Vec<u8>)
    ensures
        r@ == b@,
{
    let mut r: Vec<u8> = Vec::new();
    let mut i: usize = 0;
    while i < b.len()
        invariant
            i <= b@.len(),
            r@ == b@.subrange(0, i as int),
        decreases b@.len() - i,
    {
        r.push(b[i]);
        i = i + 1;
        assert(r@ =~= b@.subrange(0, i as int));
    }
    assert(b@.subrange(0, b@.len() as int) =~= b@);
    r
}

pub(crate) proof fn lemma_varint_from_bounds(s: Seq<u8>, i: nat, value: u64)
    ensures
        varint_from(s, i, value) matches Some((v, n)) ==> i < n <= s.len() && n <= 10,
    decreases 10 - i,
{
    if i > 9 || i >= s.len() {
    } else {
        let b = s[i as int];
        let v = value | (((b & 0x7f) as u64) << ((7 * i) as u64));
        if b & 0x80 != 0 && i < 9 {
            lemma_varint_from_bounds(s, i + 1, v);
        }
    }
}

/// Decodes the varint that starts at `start`.
pub(crate) fn decode_varint_at(input: &[u8], start: usize) -> (r: Option<(u64, usize)>)
    requires
        start <= input@.len(),
    ensures
        r matches Some((v, n)) ==> spec_decode_varint(rest(input@, start as int)) == Some((v, n as nat)),
        r is None ==> spec_decode_varint(rest(input@, start as int)) is None,
        r matches Some((v, n)) ==> 0 < n <= input@.len() - start,
{
    let ghost s = rest(input@, start as int);
    let mut value: u64 = 0;
    let mut i: usize = 0;
    while i < input.len() - start
        invariant
            start <= input@.len(),
            s == rest(input@, start as int),
            i <= 9,
            varint_from(s, i as nat, value) == varint_from(s, 0, 0),
        decreases 10 - i,
    {
        let byte = input[start + i];
        assert(s[i as int] == byte);
        let shift: u64 = 7 * (i as u64);
        value = value | (((byte & 0x7F) as u64) << shift);
        if byte & 0x80 == 0 {
            proof {
                lemma_varint_from_bounds(s, 0, 0);
            }
            return Some((value, i + 1));
        }
        if i >= 9 {
            return None;
        }
        i = i + 1;
    }
    None
}

/// Decodes the varint at the start of `input`: its value and the number of bytes read.
pub fn decode_varint(input: &[u8]) -> (r: Option<(u64, usize)>)
    ensures
        r matches Some((v, n)) ==> spec_decode_varint(input@) == Some((v, n as nat)),
        r is None ==> spec_decode_varint(input@) is None,
{
    let r = decode_varint_at(input, 0);
    assert(rest(input@, 0) =~= input@);
    r
}

/// Appends the varint encoding of `value` to `out`.
pub fn encode_varint(value: u64, out: &mut Vec<u8>)
    ensures
        final(out)@ == old(out)@ + spec_encode_varint(value),
{
    let mut v = value;
    while v >= 0x80
        invariant
            old(out)@ + spec_encode_varint(value) == out@ + spec_encode_varint(v),
        decreases v,
    {
        let b: u8 = (v as u8) | 0x80;
        assert(b == ((v % 0x80) + 0x80) as u8) by (bit_vector)
            requires
                b == (v as u8) | 0x80,
        ;
        let ghost before = out@;
        out.push(b);
        assert(spec_encode_varint(v) == seq![b] + spec_encode_varint(v / 0x80));
        assert(before + spec_encode_varint(v) =~= out@ + spec_encode_varint(v / 0x80));
        let next = v >> 7;
        assert(next == v / 0x80) by (bit_vector)
            requires
                next == v >> 7,
        ;
        v = next;
    }
    out.push(v as u8);
    assert(spec_encode_varint(v) == seq![v as u8]);
}

/// Moves `i` forward by `len` when that many bytes remain, else fails with `Truncated`.
pub fn advance(bytes: &[u8], i: &mut usize, len: usize) -> (r: Result<(), MultiaddrError>)
    ensures
        (*old(i) as int + len as int > bytes@.len()) ==> r == Err::<(), MultiaddrError>(
            MultiaddrError::Truncated,
        ) && *final(i) == *old(i),
        (*old(i) as int + len as int <= bytes@.len()) ==> r == Ok::<(), MultiaddrError>(())
            && *final(i) as int == *old(i) as int + len as int,
{
    if *i > bytes.len() || len > bytes.len() - *i {
        Err(MultiaddrError::Truncated)
    } else {
        *i = *i + len;
        Ok(())
    }
}

/// The end of the payload of protocol `proto` starting at `j`.
pub(crate) fn payload_end_exec(bytes: &[u8], proto: u64, j: usize) -> (r: Result<usize, MultiaddrError>)
    requires
        j <= bytes@.len(),
    ensures
        match r {
            Ok(e) => payload_end(bytes@, proto, j as nat) == Ok::<nat, MultiaddrError>(e as nat),
            Err(e) => payload_end(bytes@, proto, j as nat) == Err::<nat, MultiaddrError>(e),
        },
{
    let mut i = j;
    if proto == IP4 {
        advance(bytes, &mut i, 4)?;
    } else if proto == IP6 {
        advance(bytes, &mut i, 16)?;
    } else if proto == TCP || proto == UDP {
        advance(bytes, &mut i, 2)?;
    } else if proto == WS || proto == WSS {
        advance(bytes, &mut i, 0)?;
    } else if proto == DNS4 || proto == DNS6 || proto == DNSADDR || proto == P2P {
        let total = bytes.len();
        let d = decode_varint_at(bytes, i);
        match d {
            Some((len, read)) => {
                i = i + read;
                if len > (bytes.len() - i) as u64 {
                    return Err(MultiaddrError::Truncated);
                }
                advance(bytes, &mut i, len as usize)?;
            },
            None => {
                return Err(MultiaddrError::InvalidVarint);
            },
        }
    } else {
        return Err(MultiaddrError::InvalidProtocol);
    }
    Ok(i)
}

impl Multiaddr {
    /// A copy of the encoded bytes.
    pub fn to_bytes(&self) -> (r: Vec<u8>)
        ensures
            r@ == self@,
            is_valid_multiaddr(r@),
    {
        proof {
            use_type_invariant(self);
        }
        crate::table::bytes_clone(&self.bytes)
    }

    /// Appends the segments of `other`.
    pub fn extend(&mut self, other: &Multiaddr)
        ensures
            final(self)@ == old(self)@ + other@,
    {
        proof {
            use_type_invariant(&*self);
            use_type_invariant(other);
            lemma_concat_valid(self.bytes@, other.bytes@);
        }
        let mut b = crate::table::bytes_clone(&self.bytes);
        let mut i: usize = 0;
        while i < other.bytes.len()
            invariant
                i <= other.bytes@.len(),
                b@ == self.bytes@ + other.bytes@.subrange(0, i as int),
            decreases other.bytes@.len() - i,
        {
            b.push(other.bytes[i]);
            i = i + 1;
            assert(b@ =~= self.bytes@ + other.bytes@.subrange(0, i as int));
        }
        assert(other.bytes@.subrange(0, i as int) =~= other.bytes@);
        *self = Multiaddr { bytes: b };
    }

    /// Scans `bytes` as a stack of segments and accepts it when every segment is well formed
    /// and the last one is a peer identity.
    pub fn verify(bytes: &[u8]) -> (r: Result<Multiaddr, MultiaddrError>)
        ensures
            match r {
                Ok(m) => spec_verify(bytes@) is Ok && m@ == bytes@,
                Err(e) => spec_verify(bytes@) == Err::<(), MultiaddrError>(e),
            },
    {
        let mut i: usize = 0;
        let mut last_proto: u64 = 0;
        while i < bytes.len()
            invariant
                i <= bytes@.len(),
                scan_from(bytes@, i as nat, last_proto) == scan_from(bytes@, 0, 0),
            decreases bytes@.len() - i,
        {
            let (proto, read) = match decode_varint_at(bytes, i) {
                Some(p) => p,
                None => {
                    return Err(MultiaddrError::InvalidVarint);
                },
            };
            let end = payload_end_exec(bytes, proto, i + read)?;
            assert(segment_at(bytes@, i as nat) == Ok::<(u64, nat), MultiaddrError>(
                (proto, end as nat),
            ));
            proof {
                if end <= i {
                    assert(false);
                }
            }
            i = end;
            last_proto = proto;
        }
        if last_proto != P2P {
            return Err(MultiaddrError::InvalidProtocol);
        }
        Ok(Multiaddr { bytes: copy_bytes(bytes) })
    }
}

} // verus!
