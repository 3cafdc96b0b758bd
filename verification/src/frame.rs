//! The frame format: a big-endian `u64` length header followed by the body.
use vstd::prelude::*;

verus! {

/// Largest body, in bytes, that a reader takes from one frame (200 MiB).
pub const MAX_MESSAGE_SZ: u64 = 200 * 1024 * 1024;

/// Number of bytes in a frame header.
pub const HEADER_LEN: usize = 8;

/// The eight header bytes that encode `n`, most significant byte first.
pub open spec fn be_bytes(n: u64) -> Seq<u8> {
    seq![
        (n >> 56u64) as u8,
        (n >> 48u64) as u8,
        (n >> 40u64) as u8,
        (n >> 32u64) as u8,
        (n >> 24u64) as u8,
        (n >> 16u64) as u8,
        (n >> 8u64) as u8,
        n as u8,
    ]
}

/// The value of the first eight bytes of `b`, read most significant byte first.
pub open spec fn be_value(b: Seq<u8>) -> u64
    recommends
        b.len() >= 8,
{
    ((b[0] as u64) << 56u64) | ((b[1] as u64) << 48u64) | ((b[2] as u64) << 40u64) | ((
    b[3] as u64) << 32u64) | ((b[4] as u64) << 24u64) | ((b[5] as u64) << 16u64) | ((
    b[6] as u64) << 8u64) | (b[7] as u64)
}

/// How many body bytes a reader asks for after a header announcing `header` bytes.
pub open spec fn spec_body_size(header: u64) -> nat {
    if header < MAX_MESSAGE_SZ {
        header as nat
    } else {
        MAX_MESSAGE_SZ as nat
    }
}

/// The frame that carries `payload`.
pub open spec fn spec_frame(payload: Seq<u8>) -> Seq<u8> {
    be_bytes(payload.len() as u64) + payload
}

/// What a reader takes from a stream whose remaining content is `stream`,
/// when every read returns as many bytes as the stream still holds, up to
/// the number asked for: `None` when the header is cut short, else the body
/// and the number of bytes consumed.
pub open spec fn spec_decode_frame(stream: Seq<u8>) -> Option<(Seq<u8>, nat)> {
    if stream.len() < 8 {
        None
    } else {
        let size = spec_body_size(be_value(stream));
        let avail = (stream.len() - 8) as nat;
        let n: nat = if size <= avail { size } else { avail };
        Some((stream.subrange(8, 8 + n as int), (8 + n) as nat))
    }
}


/// Header bytes are the base-256 digits of the length, most significant
/// first: read as such digits, the eight bytes that encode `n` give `n`.
pub proof fn lemma_header_digits(n: u64)
    ensures
        be_bytes(n).len() == 8,
        be_bytes(n)[0] * 72057594037927936 + be_bytes(n)[1] * 281474976710656 + be_bytes(n)[2]
            * 1099511627776 + be_bytes(n)[3] * 4294967296 + be_bytes(n)[4] * 16777216
            + be_bytes(n)[5] * 65536 + be_bytes(n)[6] * 256 + be_bytes(n)[7] == n,
{
    assert(((n >> 56u64) as u8) * 72057594037927936 + ((n >> 48u64) as u8) * 281474976710656 + ((
    n >> 40u64) as u8) * 1099511627776 + ((n >> 32u64) as u8) * 4294967296 + ((n >> 24u64) as u8)
        * 16777216 + ((n >> 16u64) as u8) * 65536 + ((n >> 8u64) as u8) * 256 + (n as u8) == n)
        by (bit_vector);
}

/// Reading a header takes its eight bytes as base-256 digits, most
/// significant first.
pub proof fn lemma_header_value_digits(b: Seq<u8>)
    requires
        b.len() >= 8,
    ensures
        be_value(b) == b[0] * 72057594037927936 + b[1] * 281474976710656 + b[2] * 1099511627776
            + b[3] * 4294967296 + b[4] * 16777216 + b[5] * 65536 + b[6] * 256 + b[7],
{
    let (b0, b1, b2, b3, b4, b5, b6, b7) = (b[0], b[1], b[2], b[3], b[4], b[5], b[6], b[7]);
    assert(((b0 as u64) << 56u64) | ((b1 as u64) << 48u64) | ((b2 as u64) << 40u64) | ((
    b3 as u64) << 32u64) | ((b4 as u64) << 24u64) | ((b5 as u64) << 16u64) | ((b6 as u64)
        << 8u64) | (b7 as u64) == b0 * 72057594037927936 + b1 * 281474976710656 + b2
        * 1099511627776 + b3 * 4294967296 + b4 * 16777216 + b5 * 65536 + b6 * 256 + b7)
        by (bit_vector);
}

/// Decoding a header gives back the length that was encoded.
pub proof fn lemma_header_roundtrip(n: u64)
    ensures
        be_value(be_bytes(n)) == n,
        be_bytes(n).len() == 8,
{
    let b = be_bytes(n);
    assert(b[0] == (n >> 56u64) as u8 && b[7] == n as u8);
    assert(((((n >> 56u64) as u8) as u64) << 56u64) | ((((n >> 48u64) as u8) as u64) << 48u64)
        | ((((n >> 40u64) as u8) as u64) << 40u64) | ((((n >> 32u64) as u8) as u64) << 32u64)
        | ((((n >> 24u64) as u8) as u64) << 24u64) | ((((n >> 16u64) as u8) as u64) << 16u64)
        | ((((n >> 8u64) as u8) as u64) << 8u64) | ((n as u8) as u64) == n) by (bit_vector);
}

/// Every eight header bytes are the encoding of exactly one length: the one
/// they decode to.
pub proof fn lemma_header_unique(b: Seq<u8>)
    requires
        b.len() == 8,
    ensures
        be_bytes(be_value(b)) == b,
{
    let (b0, b1, b2, b3, b4, b5, b6, b7) = (b[0], b[1], b[2], b[3], b[4], b[5], b[6], b[7]);
    let v = be_value(b);
    assert(v == ((b0 as u64) << 56u64) | ((b1 as u64) << 48u64) | ((b2 as u64) << 40u64) | ((
    b3 as u64) << 32u64) | ((b4 as u64) << 24u64) | ((b5 as u64) << 16u64) | ((b6 as u64)
        << 8u64) | (b7 as u64));
    assert({
        let w = ((b0 as u64) << 56u64) | ((b1 as u64) << 48u64) | ((b2 as u64) << 40u64) | ((
        b3 as u64) << 32u64) | ((b4 as u64) << 24u64) | ((b5 as u64) << 16u64) | ((b6 as u64)
            << 8u64) | (b7 as u64);
        &&& (w >> 56u64) as u8 == b0
        &&& (w >> 48u64) as u8 == b1
        &&& (w >> 40u64) as u8 == b2
        &&& (w >> 32u64) as u8 == b3
        &&& (w >> 24u64) as u8 == b4
        &&& (w >> 16u64) as u8 == b5
        &&& (w >> 8u64) as u8 == b6
        &&& w as u8 == b7
    }) by (bit_vector);
    assert(be_bytes(v) =~= b);
}

/// A frame read from the front of a stream gives back the body that was
/// written, and consumes exactly that frame, whatever follows it, as long as
/// the body is no longer than `MAX_MESSAGE_SZ`.
pub proof fn lemma_frame_roundtrip(payload: Seq<u8>, rest: Seq<u8>)
    requires
        payload.len() <= MAX_MESSAGE_SZ,
    ensures
        spec_decode_frame(spec_frame(payload) + rest) == Some((payload, (8 + payload.len()) as nat)),
        (spec_frame(payload) + rest).skip(8 + payload.len() as int) == rest,
{
    let s = spec_frame(payload) + rest;
    lemma_header_roundtrip(payload.len() as u64);
    assert(s.subrange(0, 8) =~= be_bytes(payload.len() as u64));
    assert(be_value(s) == be_value(be_bytes(payload.len() as u64)));
    assert(s.subrange(8, 8 + payload.len() as int) =~= payload);
    assert(s.skip(8 + payload.len() as int) =~= rest);
}

/// A frame whose body is longer than `MAX_MESSAGE_SZ` is read as the first
/// `MAX_MESSAGE_SZ` bytes of its body; the rest of the body stays in the
/// stream.
pub proof fn lemma_frame_truncated(payload: Seq<u8>, rest: Seq<u8>)
    requires
        MAX_MESSAGE_SZ < payload.len() <= u64::MAX,
    ensures
        spec_decode_frame(spec_frame(payload) + rest) == Some(
            (payload.subrange(0, MAX_MESSAGE_SZ as int), (8 + MAX_MESSAGE_SZ) as nat),
        ),
{
    let s = spec_frame(payload) + rest;
    lemma_header_roundtrip(payload.len() as u64);
    assert(be_value(s) == be_value(be_bytes(payload.len() as u64)));
    assert(s.subrange(8, 8 + MAX_MESSAGE_SZ as int) =~= payload.subrange(0, MAX_MESSAGE_SZ as int));
}

/// A reader asks for the announced length, or for `MAX_MESSAGE_SZ` bytes
/// when more is announced: never more than either, and exactly one of them.
pub proof fn lemma_body_size_caps(header: u64)
    ensures
        spec_body_size(header) <= header,
        spec_body_size(header) <= MAX_MESSAGE_SZ,
        spec_body_size(header) == header || spec_body_size(header) == MAX_MESSAGE_SZ,
        header < MAX_MESSAGE_SZ ==> spec_body_size(header) == header,
{
}

/// A frame is eight header bytes, whose base-256 digits give the payload's
/// length, followed by the payload byte for byte.
pub proof fn lemma_frame_layout(payload: Seq<u8>)
    requires
        payload.len() <= u64::MAX,
    ensures
        spec_frame(payload).len() == payload.len() + 8,
        spec_frame(payload).subrange(8, spec_frame(payload).len() as int) == payload,
        spec_frame(payload)[0] * 72057594037927936 + spec_frame(payload)[1] * 281474976710656 + spec_frame(payload)[2] * 1099511627776 + spec_frame(payload)[3] * 4294967296 + spec_frame(payload)[4] * 16777216 + spec_frame(payload)[5] * 65536 + spec_frame(payload)[6] * 256 + spec_frame(payload)[7] == payload.len(),
{
    let f = spec_frame(payload);
    lemma_header_digits(payload.len() as u64);
    assert(f.subrange(8, f.len() as int) =~= payload);
    assert(f[0] == be_bytes(payload.len() as u64)[0]);
    assert(f[1] == be_bytes(payload.len() as u64)[1]);
    assert(f[2] == be_bytes(payload.len() as u64)[2]);
    assert(f[3] == be_bytes(payload.len() as u64)[3]);
    assert(f[4] == be_bytes(payload.len() as u64)[4]);
    assert(f[5] == be_bytes(payload.len() as u64)[5]);
    assert(f[6] == be_bytes(payload.len() as u64)[6]);
    assert(f[7] == be_bytes(payload.len() as u64)[7]);
}

/// Reading a frame from a stream: a cut-short header gives nothing;
/// otherwise the body is the stream's bytes right after the header, taken
/// verbatim, as many as the header's digits announce, but no more than
/// `MAX_MESSAGE_SZ` and no more than the stream holds; and exactly the header
/// and the body are consumed.
pub proof fn lemma_decode_frame_layout(stream: Seq<u8>)
    ensures
        spec_decode_frame(stream) is None <==> stream.len() < 8,
        spec_decode_frame(stream) matches Some((body, used)) ==> {
            let announced = stream[0] * 72057594037927936 + stream[1] * 281474976710656 + stream[2] * 1099511627776 + stream[3] * 4294967296 + stream[4] * 16777216 + stream[5] * 65536 + stream[6] * 256 + stream[7];
            &&& used == 8 + body.len()
            &&& used <= stream.len()
            &&& body == stream.subrange(8, used as int)
            &&& body.len() <= announced
            &&& body.len() <= MAX_MESSAGE_SZ
            &&& (body.len() == announced || body.len() == MAX_MESSAGE_SZ || used == stream.len())
        },
{
    if stream.len() >= 8 {
        lemma_header_value_digits(stream);
        lemma_body_size_caps(be_value(stream));
    }
}

/// The header that announces a body of `len` bytes.
pub fn encode_header(len: u64) -> (r: Vec<u8>)
    ensures
        r@ == be_bytes(len),
        r@.len() == 8,
        r@[0] * 72057594037927936 + r@[1] * 281474976710656 + r@[2] * 1099511627776 + r@[3] * 4294967296 + r@[4] * 16777216 + r@[5] * 65536 + r@[6] * 256 + r@[7] == len,
{
    let mut r: Vec<u8> = Vec::with_capacity(HEADER_LEN);
    r.push((len >> 56u64) as u8);
    r.push((len >> 48u64) as u8);
    r.push((len >> 40u64) as u8);
    r.push((len >> 32u64) as u8);
    r.push((len >> 24u64) as u8);
    r.push((len >> 16u64) as u8);
    r.push((len >> 8u64) as u8);
    r.push(len as u8);
    assert(r@ =~= be_bytes(len));
    proof {
        lemma_header_digits(len);
    }
    r
}

/// The length announced by the header at the front of `bytes`, or `None`
/// when fewer than eight bytes are there.
pub fn decode_header(bytes: &[u8]) -> (r: Option<u64>)
    ensures
        r is None <==> bytes@.len() < 8,
        r matches Some(v) ==> v == be_value(bytes@),
        r matches Some(v) ==> v == bytes@[0] * 72057594037927936 + bytes@[1] * 281474976710656 + bytes@[2] * 1099511627776 + bytes@[3] * 4294967296 + bytes@[4] * 16777216 + bytes@[5] * 65536 + bytes@[6] * 256 + bytes@[7],
{
    if bytes.len() < HEADER_LEN {
        return None;
    }
    let v: u64 = ((bytes[0] as u64) << 56u64) | ((bytes[1] as u64) << 48u64) | ((bytes[2] as u64)
        << 40u64) | ((bytes[3] as u64) << 32u64) | ((bytes[4] as u64) << 24u64) | ((
    bytes[5] as u64) << 16u64) | ((bytes[6] as u64) << 8u64) | (bytes[7] as u64);
    proof {
        lemma_header_value_digits(bytes@);
    }
    Some(v)
}

/// The number of body bytes to read after a header announcing `header`
/// bytes: the announced length, capped at `MAX_MESSAGE_SZ`.
pub fn body_size(header: u64) -> (r: usize)
    ensures
        r == spec_body_size(header),
        r <= MAX_MESSAGE_SZ,
        header < MAX_MESSAGE_SZ ==> r == header,
        header >= MAX_MESSAGE_SZ ==> r == MAX_MESSAGE_SZ,
{
    if header < MAX_MESSAGE_SZ {
        header as usize
    } else {
        MAX_MESSAGE_SZ as usize
    }
}

/// The frame that carries `payload`: its length as a big-endian `u64`,
/// then the payload itself.
pub fn encode_frame(payload: &[u8]) -> (r: Vec<u8>)
    requires
        payload@.len() + 8 <= usize::MAX,
    ensures
        r@ == spec_frame(payload@),
        r@.len() == payload@.len() + 8,
        r@.subrange(8, r@.len() as int) == payload@,
        r@[0] * 72057594037927936 + r@[1] * 281474976710656 + r@[2] * 1099511627776 + r@[3] * 4294967296 + r@[4] * 16777216 + r@[5] * 65536 + r@[6] * 256 + r@[7] == payload@.len(),
{
    let mut r = encode_header(payload.len() as u64);
    let mut i: usize = 0;
    while i < payload.len()
        invariant
            i <= payload@.len(),
            payload@.len() + 8 <= usize::MAX,
            r@ == be_bytes(payload@.len() as u64) + payload@.subrange(0, i as int),
        decreases payload@.len() - i,
    {
        r.push(payload[i]);
        i = i + 1;
        assert(r@ =~= be_bytes(payload@.len() as u64) + payload@.subrange(0, i as int));
    }
    assert(payload@.subrange(0, payload@.len() as int) =~= payload@);
    proof {
        lemma_frame_layout(payload@);
    }
    r
}

/// Reads one frame from the front of `stream`, taking the whole remaining
/// content of a stream whose reads return everything available up to the
/// amount asked for.  `None` when the header is cut short; otherwise the body
/// (at most `MAX_MESSAGE_SZ` bytes, fewer when the stream ends early) and the
/// number of bytes consumed.
pub fn decode_frame(stream: &[u8]) -> (r: Option<(Vec<u8>, usize)>)
    ensures
        r is None <==> spec_decode_frame(stream@) is None,
        r matches Some((body, used)) ==> spec_decode_frame(stream@) == Some((body@, used as nat)),
        r matches Some((body, used)) ==> body@.len() <= MAX_MESSAGE_SZ && used <= stream@.len(),
        r matches Some((body, used)) ==> {
            let announced = stream@[0] * 72057594037927936 + stream@[1] * 281474976710656 + stream@[2] * 1099511627776 + stream@[3] * 4294967296 + stream@[4] * 16777216 + stream@[5] * 65536 + stream@[6] * 256 + stream@[7];
            &&& used == 8 + body@.len()
            &&& body@ == stream@.subrange(8, used as int)
            &&& body@.len() <= announced
            &&& (body@.len() == announced || body@.len() == MAX_MESSAGE_SZ || used == stream@.len())
        },
{
    let header = match decode_header(stream) {
        Some(h) => h,
        None => return None,
    };
    let size = body_size(header);
    let avail = stream.len() - HEADER_LEN;
    let n = if size <= avail {
        size
    } else {
        avail
    };
    let mut body: Vec<u8> = Vec::with_capacity(n);
    let mut i: usize = 0;
    while i < n
        invariant
            i <= n,
            n + 8 <= stream@.len(),
            stream@.len() == stream.len(),
            body@ == stream@.subrange(8, 8 + i),
        decreases n - i,
    {
        body.push(stream[HEADER_LEN + i]);
        i = i + 1;
        assert(body@ =~= stream@.subrange(8, 8 + i));
    }
    proof {
        lemma_decode_frame_layout(stream@);
    }
    Some((body, HEADER_LEN + n))
}

} // verus!
