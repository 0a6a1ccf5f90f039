//! The binary envelope in which a response travels back to its caller.
//!
//! Layout: one version byte, then the bincode (fixed-width integers, little
//! endian) encoding of the triple `(status, headers, body)`, where the headers
//! are a sequence of `(name, value)` byte-string pairs in wire order.
use vstd::prelude::*;

verus! {

/// The version byte that opens every envelope.
pub const ENVELOPE_VERSION: u8 = 1;

/// Opaque error of the bincode serializer.
#[verifier::external_type_specification]
#[verifier::external_body]
pub struct ExBincodeErrorKind(bincode::ErrorKind);

/// Little-endian bytes of a 16-bit integer.
pub open spec fn le_u16(x: u16) -> Seq<u8> {
    seq![(x & 0xff) as u8, (x >> 8u16) as u8]
}

/// Little-endian bytes of a 64-bit integer.
pub open spec fn le_u64(x: u64) -> Seq<u8> {
    seq![
        (x & 0xff) as u8,
        ((x >> 8u64) & 0xff) as u8,
        ((x >> 16u64) & 0xff) as u8,
        ((x >> 24u64) & 0xff) as u8,
        ((x >> 32u64) & 0xff) as u8,
        ((x >> 40u64) & 0xff) as u8,
        ((x >> 48u64) & 0xff) as u8,
        ((x >> 56u64) & 0xff) as u8,
    ]
}

/// A byte string: its length as a 64-bit integer, then its bytes.
pub open spec fn field_bytes(b: Seq<u8>) -> Seq<u8> {
    le_u64(b.len() as u64) + b
}

/// The header pairs, each as name field then value field, in order.
pub open spec fn headers_bytes(h: Seq<(Seq<u8>, Seq<u8>)>) -> Seq<u8>
    decreases h.len(),
{
    if h.len() == 0 {
        seq![]
    } else {
        field_bytes(h[0].0) + field_bytes(h[0].1) + headers_bytes(h.subrange(1, h.len() as int))
    }
}

/// What bincode writes for `(status, headers, body)`.
pub open spec fn fields_bytes(status: u16, h: Seq<(Seq<u8>, Seq<u8>)>, body: Seq<u8>) -> Seq<u8> {
    le_u16(status) + le_u64(h.len() as u64) + headers_bytes(h) + field_bytes(body)
}

/// Relies on bincode::serialize (1.x free function: fixed-width integers,
/// little endian, no size limit). A tuple is its elements in order; a `u16`
/// is two bytes; a `Vec` is its length as a `u64`, then its elements; a `u8`
/// is one byte. With no size limit, a `Vec` as writer and sequences of known
/// length, nothing here makes it fail.
#[verifier::external_body]
fn bincode_fields(
    status: u16,
    headers: &Vec<(Vec<u8>, Vec<u8>)>,
    body: &Vec<u8>,
) -> (r: Result<Vec<u8>, Box<bincode::ErrorKind>>)
    ensures
        r is Ok,
        r matches Ok(b) ==> b@ == fields_bytes(status, headers.deep_view(), body@),
{
    bincode::serialize(&(status, headers, body))
}


/// Every envelope layout: the version byte, then the encoded triple.
pub open spec fn envelope_bytes(status: u16, h: Seq<(Seq<u8>, Seq<u8>)>, body: Seq<u8>) -> Seq<u8> {
    seq![ENVELOPE_VERSION] + fields_bytes(status, h, body)
}

/// A response as it travels back: status, headers in wire order (repeated
/// names kept), and the whole body.
#[derive(Clone, Debug)]
pub struct ResponseEnvelope {
    pub status_code: u16,
    pub headers: Vec<(Vec<u8>, Vec<u8>)>,
    pub body: Vec<u8>,
}

impl ResponseEnvelope {
    /// The bytes that encode this envelope.
    pub open spec fn spec_bytes(&self) -> Seq<u8> {
        envelope_bytes(self.status_code, self.headers.deep_view(), self.body@)
    }

    /// Encodes the envelope; `None` would mean that the serializer reported
    /// an error, which it does not for these types.
    pub fn encode(&self) -> (r: Option<Vec<u8>>)
        ensures
            r is Some,
            r matches Some(b) ==> b@ == self.spec_bytes(),
    {
        match bincode_fields(self.status_code, &self.headers, &self.body) {
            Ok(mut fields) => {
                let mut out: Vec<u8> = Vec::new();
                out.push(ENVELOPE_VERSION);
                out.append(&mut fields);
                Some(out)
            },
            Err(_) => None,
        }
    }
}

/// The integer whose little-endian bytes are `b[0..2]`.
pub open spec fn read_u16(b: Seq<u8>) -> u16 {
    (b[0] as u16) | ((b[1] as u16) << 8u16)
}

/// The integer whose little-endian bytes are `b[0..8]`.
pub open spec fn read_u64(b: Seq<u8>) -> u64 {
    (b[0] as u64) | ((b[1] as u64) << 8u64) | ((b[2] as u64) << 16u64) | ((b[3] as u64) << 24u64)
        | ((b[4] as u64) << 32u64) | ((b[5] as u64) << 40u64) | ((b[6] as u64) << 48u64) | ((
    b[7] as u64) << 56u64)
}

/// Reads one length-prefixed byte string off the front; gives it and the rest.
pub open spec fn parse_field(b: Seq<u8>) -> Option<(Seq<u8>, Seq<u8>)> {
    if b.len() < 8 {
        None
    } else {
        let n = read_u64(b) as int;
        let r = b.skip(8);
        if r.len() < n {
            None
        } else {
            Some((r.take(n), r.skip(n)))
        }
    }
}

/// Reads `n` header pairs off the front; gives them and the rest.
pub open spec fn parse_headers(b: Seq<u8>, n: nat) -> Option<(Seq<(Seq<u8>, Seq<u8>)>, Seq<u8>)>
    decreases n,
{
    if n == 0 {
        Some((seq![], b))
    } else {
        match parse_field(b) {
            None => None,
            Some((name, r1)) => match parse_field(r1) {
                None => None,
                Some((value, r2)) => match parse_headers(r2, (n - 1) as nat) {
                    None => None,
                    Some((t, r3)) => Some((seq![(name, value)] + t, r3)),
                },
            },
        }
    }
}

/// Reads a whole envelope: status, headers and body, with nothing left over.
pub open spec fn parse_envelope(b: Seq<u8>) -> Option<(u16, Seq<(Seq<u8>, Seq<u8>)>, Seq<u8>)> {
    if b.len() < 11 || b[0] != ENVELOPE_VERSION {
        None
    } else {
        let status = read_u16(b.subrange(1, 3));
        let n = read_u64(b.subrange(3, 11));
        match parse_headers(b.skip(11), n as nat) {
            None => None,
            Some((h, r)) => match parse_field(r) {
                None => None,
                Some((body, rest)) => if rest.len() == 0 {
                    Some((status, h, body))
                } else {
                    None
                },
            },
        }
    }
}

/// Each byte string of the headers and the body has a length that a `u64` holds.
pub open spec fn lengths_fit(h: Seq<(Seq<u8>, Seq<u8>)>, body: Seq<u8>) -> bool {
    &&& h.len() <= u64::MAX
    &&& body.len() <= u64::MAX
    &&& forall|i: int| 0 <= i < h.len() ==> #[trigger] h[i].0.len() <= u64::MAX && h[i].1.len() <= u64::MAX
}

proof fn lemma_u16_bytes(x: u16)
    ensures
        read_u16(le_u16(x)) == x,
{
    let b = le_u16(x);
    assert(b[0] == (x & 0xff) as u8 && b[1] == (x >> 8u16) as u8);
    assert((((x & 0xff) as u8) as u16) | ((((x >> 8u16) as u8) as u16) << 8u16) == x) by (bit_vector);
}

proof fn lemma_u64_bytes(x: u64)
    ensures
        read_u64(le_u64(x)) == x,
{
    assert((((x & 0xff) as u8) as u64) | ((((x >> 8u64) & 0xff) as u8) as u64) << 8u64 | ((((x
        >> 16u64) & 0xff) as u8) as u64) << 16u64 | ((((x >> 24u64) & 0xff) as u8) as u64) << 24u64
        | ((((x >> 32u64) & 0xff) as u8) as u64) << 32u64 | ((((x >> 40u64) & 0xff) as u8) as u64)
        << 40u64 | ((((x >> 48u64) & 0xff) as u8) as u64) << 48u64 | ((((x >> 56u64) & 0xff) as u8)
        as u64) << 56u64 == x) by (bit_vector);
}

proof fn lemma_parse_field(b: Seq<u8>, rest: Seq<u8>)
    requires
        b.len() <= u64::MAX,
    ensures
        parse_field(field_bytes(b) + rest) == Some((b, rest)),
{
    let s = field_bytes(b) + rest;
    lemma_u64_bytes(b.len() as u64);
    assert(read_u64(s) == read_u64(le_u64(b.len() as u64)));
    assert(s.skip(8) =~= b + rest);
    assert((b + rest).take(b.len() as int) =~= b);
    assert((b + rest).skip(b.len() as int) =~= rest);
}

proof fn lemma_parse_headers(h: Seq<(Seq<u8>, Seq<u8>)>, rest: Seq<u8>)
    requires
        forall|i: int| 0 <= i < h.len() ==> #[trigger] h[i].0.len() <= u64::MAX && h[i].1.len() <= u64::MAX,
    ensures
        parse_headers(headers_bytes(h) + rest, h.len()) == Some((h, rest)),
    decreases h.len(),
{
    if h.len() > 0 {
        let t = h.subrange(1, h.len() as int);
        let r2 = headers_bytes(t) + rest;
        let r1 = field_bytes(h[0].1) + r2;
        assert(headers_bytes(h) + rest =~= field_bytes(h[0].0) + r1);
        lemma_parse_field(h[0].0, r1);
        lemma_parse_field(h[0].1, r2);
        assert forall|i: int| 0 <= i < t.len() implies #[trigger] t[i].0.len() <= u64::MAX
            && t[i].1.len() <= u64::MAX by {
            assert(t[i] == h[i + 1]);
        }
        lemma_parse_headers(t, rest);
        assert(seq![(h[0].0, h[0].1)] + t =~= h);
    } else {
        assert(headers_bytes(h) + rest =~= rest);
    }
}

/// Decoding an envelope's bytes gives back its status, its headers (every
/// repeated name with each of its values, in their order) and its body.
pub proof fn lemma_envelope_round_trip(status: u16, h: Seq<(Seq<u8>, Seq<u8>)>, body: Seq<u8>)
    requires
        lengths_fit(h, body),
    ensures
        parse_envelope(envelope_bytes(status, h, body)) == Some((status, h, body)),
{
    let b = envelope_bytes(status, h, body);
    let tail = headers_bytes(h) + field_bytes(body);
    assert(b =~= seq![ENVELOPE_VERSION] + le_u16(status) + le_u64(h.len() as u64) + tail);
    assert(b.subrange(1, 3) =~= le_u16(status));
    assert(b.subrange(3, 11) =~= le_u64(h.len() as u64));
    assert(b.skip(11) =~= tail);
    lemma_u16_bytes(status);
    lemma_u64_bytes(h.len() as u64);
    lemma_parse_headers(h, field_bytes(body));
    lemma_parse_field(body, seq![]);
    assert(field_bytes(body) + Seq::<u8>::empty() =~= field_bytes(body));
}

} // verus!
