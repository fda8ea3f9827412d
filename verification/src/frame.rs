//! Wire-frame codec: the fixed 12-byte header and the split of a frame body
//! into its metadata and payload segments.
//!
//! A frame is `magic | body_length | meta_length` — three big-endian
//! unsigned 32-bit integers — followed by `meta_length` bytes of serialized
//! metadata and `body_length - meta_length` bytes of payload.

use vstd::prelude::*;
use vstd::arithmetic::div_mod::lemma_fundamental_div_mod;
use vstd::arithmetic::div_mod::lemma_div_denominator;
use crate::MAGIC_NUMBER;
use crate::meta::Meta;
use crate::meta::MetaView;
use crate::meta::enc_meta;
use crate::meta::dec_meta;
use crate::meta::encode_meta;
use crate::meta::push_bytes;
use crate::meta::lemma_meta_round_trip;

verus! {

/// The number of bytes in a frame header.
pub const HEADER_SIZE: usize = 12;

/// The big-endian unsigned 32-bit integer that a 4-byte sequence spells.
pub open spec fn u32_from_be(s: Seq<u8>) -> u32
    recommends
        s.len() == 4,
{
    (s[0] as nat * 0x1000000 + s[1] as nat * 0x10000 + s[2] as nat * 0x100 + s[3] as nat) as u32
}

/// Relies on byteorder's `BigEndian::read_u32`: the four bytes of the slice
/// starting at `pos` read as one big-endian unsigned 32-bit integer.
#[verifier::external_body]
fn read_u32_be(b: &[u8], pos: usize) -> (r: u32)
    requires
        pos + 4 <= b@.len(),
    ensures
        r == u32_from_be(b@.subrange(pos as int, pos as int + 4)),
{
    <byteorder::BigEndian as byteorder::ByteOrder>::read_u32(&b[pos..])
}

/// The four big-endian base-256 digits of a 32-bit integer, most
/// significant first.
pub open spec fn be_bytes(x: u32) -> Seq<u8> {
    seq![
        (x / 0x1000000) as u8,
        ((x / 0x10000) % 256) as u8,
        ((x / 0x100) % 256) as u8,
        (x % 256) as u8,
    ]
}

/// Reading the four big-endian digits of an integer yields the integer
/// back.
pub proof fn lemma_be_bytes_inverse(x: u32)
    ensures
        u32_from_be(be_bytes(x)) == x,
{
    let xi = x as int;
    lemma_fundamental_div_mod(xi, 256);
    lemma_fundamental_div_mod(xi / 256, 256);
    lemma_fundamental_div_mod(xi / 256 / 256, 256);
    lemma_div_denominator(xi, 256, 256);
    lemma_div_denominator(xi, 65536, 256);
    assert(xi / 256 / 256 == xi / 65536);
    assert(xi / 65536 / 256 == xi / 16777216);
}

/// Relies on byteorder's `BigEndian::write_u32`: the four bytes written are
/// the big-endian representation of the integer.
#[verifier::external_body]
pub(crate) fn write_u32_be(x: u32) -> (r: [u8; 4])
    ensures
        r@ == be_bytes(x),
{
    let mut b = [0u8; 4];
    <byteorder::BigEndian as byteorder::ByteOrder>::write_u32(&mut b, x);
    b
}

/// The three header fields of one frame.
#[derive(Clone, Copy, PartialEq, Eq, Structural, Debug)]
pub struct FrameHeader {
    pub magic: u32,
    pub body_length: u32,
    pub meta_length: u32,
}

/// A connection-fatal framing failure: no response is sent for the
/// offending frame and the connection is torn down.
#[derive(Clone, Copy, PartialEq, Eq, Structural, Debug)]
pub enum ProtocolError {
    /// The header's magic field differs from the fixed protocol constant.
    BadMagic,
    /// A read or write ended before the announced number of bytes.
    Truncated,
    /// The announced lengths are inconsistent (metadata longer than the
    /// whole body, or a frame too large to describe in the header).
    BadLength,
    /// The metadata segment does not deserialize into a metadata record.
    MalformedMeta,
}

/// Parses a 12-byte header into its three fields, rejecting any frame whose
/// magic differs from the fixed protocol constant.
pub fn parse_header(h: &[u8]) -> (r: Result<FrameHeader, ProtocolError>)
    requires
        h@.len() == HEADER_SIZE,
    ensures
        u32_from_be(h@.subrange(0, 4)) == MAGIC_NUMBER ==> (r matches Ok(fh)
            && fh.magic == MAGIC_NUMBER
            && fh.body_length == u32_from_be(h@.subrange(4, 8))
            && fh.meta_length == u32_from_be(h@.subrange(8, 12))),
        u32_from_be(h@.subrange(0, 4)) != MAGIC_NUMBER ==> r == Err::<FrameHeader,
            ProtocolError,
        >(ProtocolError::BadMagic),
{
    let magic = read_u32_be(h, 0);
    if magic != MAGIC_NUMBER {
        return Err(ProtocolError::BadMagic);
    }
    let body_length = read_u32_be(h, 4);
    let meta_length = read_u32_be(h, 8);
    Ok(FrameHeader { magic, body_length, meta_length })
}

/// Slices a frame body into its metadata segment (the first `meta_length`
/// bytes) and payload segment (the rest). A metadata length larger than the
/// body is inconsistent and rejected; one equal to the body length yields an
/// empty payload segment.
pub fn split_body(body: Vec<u8>, meta_length: usize) -> (r: Result<
    (Vec<u8>, Vec<u8>),
    ProtocolError,
>)
    ensures
        meta_length <= body@.len() ==> (r matches Ok(p)
            && p.0@ == body@.subrange(0, meta_length as int)
            && p.1@ == body@.subrange(meta_length as int, body@.len() as int)),
        meta_length > body@.len() ==> r == Err::<(Vec<u8>, Vec<u8>), ProtocolError>(
            ProtocolError::BadLength,
        ),
{
    if meta_length > body.len() {
        return Err(ProtocolError::BadLength);
    }
    let mut meta_bytes = body;
    let payload_bytes = meta_bytes.split_off(meta_length);
    Ok((meta_bytes, payload_bytes))
}

/// The bytes of one whole frame: header with both lengths computed from the
/// actual segment sizes, then the metadata segment, then the payload.
pub open spec fn frame_bytes(magic: u32, mb: Seq<u8>, pl: Seq<u8>) -> Seq<u8>
    recommends
        mb.len() + pl.len() <= u32::MAX,
{
    be_bytes(magic) + be_bytes((mb.len() + pl.len()) as u32) + be_bytes(mb.len() as u32) + mb + pl
}

fn push_array4(out: &mut Vec<u8>, b: [u8; 4])
    ensures
        final(out)@ == old(out)@ + b@,
{
    let mut i: usize = 0;
    while i < 4
        invariant
            i <= 4,
            b@.len() == 4,
            out@ == old(out)@ + b@.subrange(0, i as int),
        decreases 4 - i,
    {
        out.push(b[i]);
        i = i + 1;
        assert(out@ =~= old(out)@ + b@.subrange(0, i as int));
    }
    assert(out@ =~= old(out)@ + b@);
}

/// Serializes a response frame: header, re-encoded metadata, payload, with
/// `meta_length` and `body_length` recomputed from the actual encoded sizes
/// and `magic` copied unchanged from the request. A frame whose body cannot
/// be described by the header's 32-bit lengths is rejected.
pub fn encode_response_frame(magic: u32, meta: &Meta, payload: &Vec<u8>) -> (r: Result<
    Vec<u8>,
    ProtocolError,
>)
    ensures
        enc_meta(meta@).len() + payload@.len() <= u32::MAX ==> (r matches Ok(out) && out@
            == frame_bytes(magic, enc_meta(meta@), payload@)),
        enc_meta(meta@).len() + payload@.len() > u32::MAX ==> r == Err::<Vec<u8>, ProtocolError>(
            ProtocolError::BadLength,
        ),
{
    let meta_bytes = encode_meta(meta);
    if meta_bytes.len() > (u32::MAX as usize) {
        return Err(ProtocolError::BadLength);
    }
    if payload.len() > (u32::MAX as usize) - meta_bytes.len() {
        return Err(ProtocolError::BadLength);
    }
    let meta_len = meta_bytes.len() as u32;
    let body_len = meta_len + (payload.len() as u32);
    let mut out = Vec::<u8>::new();
    let m = write_u32_be(magic);
    push_array4(&mut out, m);
    let bl = write_u32_be(body_len);
    push_array4(&mut out, bl);
    let ml = write_u32_be(meta_len);
    push_array4(&mut out, ml);
    push_bytes(&mut out, &meta_bytes);
    push_bytes(&mut out, payload);
    assert(out@ =~= frame_bytes(magic, enc_meta(meta@), payload@));
    Ok(out)
}

/// Frame round trip: parsing, splitting and decoding a frame built from an
/// envelope and a payload reproduces the header fields, the envelope and
/// the payload bytes exactly.
pub proof fn lemma_frame_round_trip(magic: u32, m: MetaView, payload: Seq<u8>)
    requires
        enc_meta(m).len() + payload.len() <= u32::MAX,
    ensures
        ({
            let f = frame_bytes(magic, enc_meta(m), payload);
            let mlen = enc_meta(m).len() as int;
            &&& f.len() == 12 + enc_meta(m).len() + payload.len()
            &&& u32_from_be(f.subrange(0, 4)) == magic
            &&& u32_from_be(f.subrange(4, 8)) as int == enc_meta(m).len() + payload.len()
            &&& u32_from_be(f.subrange(8, 12)) as int == mlen
            &&& f.subrange(12, 12 + mlen) == enc_meta(m)
            &&& f.subrange(12 + mlen, f.len() as int) == payload
            &&& dec_meta(f.subrange(12, 12 + mlen)) == Some(m)
        }),
{
    let f = frame_bytes(magic, enc_meta(m), payload);
    let mlen = enc_meta(m).len() as int;
    let total = (enc_meta(m).len() + payload.len()) as u32;
    lemma_be_bytes_inverse(magic);
    lemma_be_bytes_inverse(total);
    lemma_be_bytes_inverse(enc_meta(m).len() as u32);
    assert(f.subrange(0, 4) =~= be_bytes(magic));
    assert(f.subrange(4, 8) =~= be_bytes(total));
    assert(f.subrange(8, 12) =~= be_bytes(enc_meta(m).len() as u32));
    assert(f.subrange(12, 12 + mlen) =~= enc_meta(m));
    assert(f.subrange(12 + mlen, f.len() as int) =~= payload);
    lemma_meta_round_trip(m);
}

} // verus!
