//! The metadata envelope: a record with named optional fields carrying
//! routing information (request direction) or outcome information (response
//! direction), and its byte-level codec.
//!
//! The wire form is the tag-length-value layout of protocol-buffer
//! messages, restricted to the fields this core reads and writes: the
//! envelope holds an optional request submessage (field 1) and an optional
//! response submessage (field 2), each length-prefixed; the request carries
//! two length-prefixed byte strings (service name, method name), the
//! response an optional signed 32-bit error code as a base-128 varint and
//! an optional length-prefixed error text. The encoder always emits minimal
//! varints and fields in ascending field order, and the decoder accepts
//! exactly those canonical forms, so decoding inverts encoding.

use vstd::prelude::*;
use vstd::arithmetic::div_mod::lemma_fundamental_div_mod;
use crate::frame::ProtocolError;

verus! {

/// Tag of a length-delimited field number 1.
pub const TAG1_LEN: u8 = 0x0a;

/// Tag of a length-delimited field number 2.
pub const TAG2_LEN: u8 = 0x12;

/// Tag of a varint field number 1.
pub const TAG1_VARINT: u8 = 0x08;

/// Routing information of a request frame.
#[derive(Clone, Debug, PartialEq, Eq)]
pub struct RequestMeta {
    pub service_name: Vec<u8>,
    pub method_name: Vec<u8>,
}

/// Outcome information of a response frame: both fields unset on success, a
/// machine-readable code and human-readable text on failure.
#[derive(Clone, Debug, PartialEq, Eq)]
pub struct ResponseMeta {
    pub error_code: Option<i32>,
    pub error_text: Option<Vec<u8>>,
}

/// The metadata envelope. A request frame carries `request`, a response
/// frame carries `response`.
#[derive(Clone, Debug, PartialEq, Eq)]
pub struct Meta {
    pub request: Option<RequestMeta>,
    pub response: Option<ResponseMeta>,
}

#[verifier::ext_equal]
pub struct RequestMetaView {
    pub service_name: Seq<u8>,
    pub method_name: Seq<u8>,
}

#[verifier::ext_equal]
pub struct ResponseMetaView {
    pub error_code: Option<i32>,
    pub error_text: Option<Seq<u8>>,
}

#[verifier::ext_equal]
pub struct MetaView {
    pub request: Option<RequestMetaView>,
    pub response: Option<ResponseMetaView>,
}

impl View for RequestMeta {
    type V = RequestMetaView;

    open spec fn view(&self) -> RequestMetaView {
        RequestMetaView { service_name: self.service_name@, method_name: self.method_name@ }
    }
}

impl View for ResponseMeta {
    type V = ResponseMetaView;

    open spec fn view(&self) -> ResponseMetaView {
        ResponseMetaView {
            error_code: self.error_code,
            error_text: (match self.error_text {
                Some(t) => Some(t@),
                None => None,
            }),
        }
    }
}

impl View for Meta {
    type V = MetaView;

    open spec fn view(&self) -> MetaView {
        MetaView {
            request: (match self.request {
                Some(r) => Some(r@),
                None => None,
            }),
            response: (match self.response {
                Some(r) => Some(r@),
                None => None,
            }),
        }
    }
}

impl Default for Meta {
    /// The default envelope carries neither direction's record.
    fn default() -> (r: Self)
        ensures
            r@.request is None,
            r@.response is None,
    {
        Meta { request: None, response: None }
    }
}

impl Default for RequestMeta {
    /// The default request record names the empty service and method.
    fn default() -> (r: Self)
        ensures
            r@.service_name == Seq::<u8>::empty(),
            r@.method_name == Seq::<u8>::empty(),
    {
        RequestMeta { service_name: Vec::new(), method_name: Vec::new() }
    }
}

impl Default for ResponseMeta {
    /// The default response record reports no error.
    fn default() -> (r: Self)
        ensures
            r@.error_code is None,
            r@.error_text is None,
    {
        ResponseMeta { error_code: None, error_text: None }
    }
}

/// The minimal base-128 varint spelling of `n`: seven bits per byte, least
/// significant group first, the high bit marking continuation.
pub open spec fn varint(n: nat) -> Seq<u8>
    decreases n,
{
    if n < 128 {
        seq![n as u8]
    } else {
        seq![(n % 128 + 128) as u8] + varint(n / 128)
    }
}

/// A length-prefixed byte string: the minimal varint of the length, then
/// the bytes.
pub open spec fn len_prefixed(b: Seq<u8>) -> Seq<u8> {
    varint(b.len()) + b
}

/// The wire value of a signed 32-bit code: its value as a two's-complement
/// 64-bit quantity.
pub open spec fn code_as_u64(c: i32) -> u64 {
    if c >= 0 {
        c as u64
    } else {
        (c + 0x1_0000_0000_0000_0000) as u64
    }
}

/// The encoded request submessage: service name then method name, both
/// length-prefixed and always present.
pub open spec fn enc_request(r: RequestMetaView) -> Seq<u8> {
    seq![TAG1_LEN] + len_prefixed(r.service_name) + seq![TAG2_LEN] + len_prefixed(r.method_name)
}

/// The encoded response submessage: the error code then the error text,
/// each emitted only when set.
pub open spec fn enc_response(r: ResponseMetaView) -> Seq<u8> {
    (match r.error_code {
        Some(c) => seq![TAG1_VARINT] + varint(code_as_u64(c) as nat),
        None => Seq::empty(),
    }) + (match r.error_text {
        Some(t) => seq![TAG2_LEN] + len_prefixed(t),
        None => Seq::empty(),
    })
}

/// The encoded envelope: the request then the response submessage, each
/// length-prefixed and emitted only when set. An envelope with neither set
/// encodes to no bytes at all.
pub open spec fn enc_meta(m: MetaView) -> Seq<u8> {
    (match m.request {
        Some(r) => seq![TAG1_LEN] + len_prefixed(enc_request(r)),
        None => Seq::empty(),
    }) + (match m.response {
        Some(r) => seq![TAG2_LEN] + len_prefixed(enc_response(r)),
        None => Seq::empty(),
    })
}

/// Appends the minimal varint spelling of `n`.
fn encode_varint(out: &mut Vec<u8>, n: u64)
    ensures
        final(out)@ == old(out)@ + varint(n as nat),
    decreases n,
{
    if n < 128 {
        out.push(n as u8);
        assert(final(out)@ =~= old(out)@ + varint(n as nat));
    } else {
        out.push((n % 128 + 128) as u8);
        encode_varint(out, n / 128);
        assert(final(out)@ =~= old(out)@ + varint(n as nat));
    }
}

/// Appends a copy of `b`.
pub(crate) fn push_bytes(out: &mut Vec<u8>, b: &Vec<u8>)
    ensures
        final(out)@ == old(out)@ + b@,
{
    let mut i: usize = 0;
    while i < b.len()
        invariant
            i <= b@.len(),
            out@ == old(out)@ + b@.subrange(0, i as int),
        decreases b@.len() - i,
    {
        out.push(b[i]);
        i = i + 1;
        assert(out@ =~= old(out)@ + b@.subrange(0, i as int));
    }
    assert(out@ =~= old(out)@ + b@);
}

/// Appends a length-prefixed copy of `b`.
fn push_len_prefixed(out: &mut Vec<u8>, b: &Vec<u8>)
    ensures
        final(out)@ == old(out)@ + len_prefixed(b@),
{
    encode_varint(out, b.len() as u64);
    push_bytes(out, b);
    assert(final(out)@ =~= old(out)@ + len_prefixed(b@));
}

/// Encodes a request submessage.
fn encode_request(r: &RequestMeta) -> (out: Vec<u8>)
    ensures
        out@ == enc_request(r@),
{
    let mut out = Vec::<u8>::new();
    out.push(TAG1_LEN);
    push_len_prefixed(&mut out, &r.service_name);
    out.push(TAG2_LEN);
    push_len_prefixed(&mut out, &r.method_name);
    assert(out@ =~= enc_request(r@));
    out
}

/// Encodes a response submessage.
fn encode_response(r: &ResponseMeta) -> (out: Vec<u8>)
    ensures
        out@ == enc_response(r@),
{
    let mut out = Vec::<u8>::new();
    match &r.error_code {
        Some(c) => {
            out.push(TAG1_VARINT);
            let w: u64 = if *c >= 0 {
                *c as u64
            } else {
                let shifted: i64 = (*c as i64) + 0x1_0000_0000i64;
                0xFFFF_FFFF_0000_0000u64 + (shifted as u64)
            };
            assert(w == code_as_u64(*c));
            encode_varint(&mut out, w);
        },
        None => {},
    }
    match &r.error_text {
        Some(t) => {
            out.push(TAG2_LEN);
            push_len_prefixed(&mut out, t);
        },
        None => {},
    }
    assert(out@ =~= enc_response(r@));
    out
}

/// Encodes the metadata envelope into its canonical byte form.
pub fn encode_meta(m: &Meta) -> (out: Vec<u8>)
    ensures
        out@ == enc_meta(m@),
{
    let mut out = Vec::<u8>::new();
    match &m.request {
        Some(r) => {
            out.push(TAG1_LEN);
            let body = encode_request(r);
            push_len_prefixed(&mut out, &body);
        },
        None => {},
    }
    match &m.response {
        Some(r) => {
            out.push(TAG2_LEN);
            let body = encode_response(r);
            push_len_prefixed(&mut out, &body);
        },
        None => {},
    }
    assert(out@ =~= enc_meta(m@));
    out
}

/// The value and end position of a minimal varint read at `pos`, or nothing
/// where the bytes there are not one (a non-minimal spelling is rejected,
/// so every varint has exactly one reading).
pub open spec fn dec_varint(b: Seq<u8>, pos: int) -> Option<(nat, int)>
    decreases b.len() - pos,
{
    if pos < 0 || pos >= b.len() {
        None
    } else {
        let x = b[pos];
        if x < 128 {
            Some((x as nat, pos + 1))
        } else {
            match dec_varint(b, pos + 1) {
                Some((hi, p)) => if hi == 0 {
                    None
                } else {
                    Some(((x - 128) as nat + 128 * hi, p))
                },
                None => None,
            }
        }
    }
}

/// The bytes and end position of a length-prefixed byte string read at
/// `pos`, or nothing where none is there.
pub open spec fn dec_lp(b: Seq<u8>, pos: int) -> Option<(Seq<u8>, int)> {
    match dec_varint(b, pos) {
        Some((n, p)) => if p + n <= b.len() {
            Some((b.subrange(p, p + n), p + n))
        } else {
            None
        },
        None => None,
    }
}

/// The signed 32-bit code a wire value stands for.
pub open spec fn u64_as_code(v: nat) -> i32 {
    if v < 0x8000_0000 {
        v as i32
    } else {
        (v as int - 0x1_0000_0000_0000_0000) as i32
    }
}

/// Whether a wire value is the two's-complement spelling of some signed
/// 32-bit code.
pub open spec fn valid_code_wire(v: nat) -> bool {
    v < 0x8000_0000 || (0xFFFF_FFFF_8000_0000 <= v && v < 0x1_0000_0000_0000_0000)
}

/// A whole request submessage: both names, in field order, spanning the
/// body exactly.
pub open spec fn dec_request(body: Seq<u8>) -> Option<RequestMetaView> {
    if body.len() < 1 || body[0] != TAG1_LEN {
        None
    } else {
        match dec_lp(body, 1) {
            Some((svc, p1)) => if 0 <= p1 < body.len() && body[p1] == TAG2_LEN {
                match dec_lp(body, p1 + 1) {
                    Some((mth, p2)) => if p2 == body.len() {
                        Some(RequestMetaView { service_name: svc, method_name: mth })
                    } else {
                        None
                    },
                    None => None,
                }
            } else {
                None
            },
            None => None,
        }
    }
}

/// The optional error-code field at the head of a response submessage, and
/// where the rest begins.
pub open spec fn dec_code_part(body: Seq<u8>) -> Option<(Option<i32>, int)> {
    if body.len() >= 1 && body[0] == TAG1_VARINT {
        match dec_varint(body, 1) {
            Some((v, p)) => if valid_code_wire(v) {
                Some((Some(u64_as_code(v)), p))
            } else {
                None
            },
            None => None,
        }
    } else {
        Some((None, 0))
    }
}

/// The optional error-text field at `pos`, and where the rest begins.
pub open spec fn dec_text_part(body: Seq<u8>, pos: int) -> Option<(Option<Seq<u8>>, int)> {
    if 0 <= pos < body.len() && body[pos] == TAG2_LEN {
        match dec_lp(body, pos + 1) {
            Some((t, p)) => Some((Some(t), p)),
            None => None,
        }
    } else {
        Some((None, pos))
    }
}

/// A whole response submessage: the optional code then the optional text,
/// spanning the body exactly.
pub open spec fn dec_response(body: Seq<u8>) -> Option<ResponseMetaView> {
    match dec_code_part(body) {
        Some((code, p1)) => match dec_text_part(body, p1) {
            Some((text, p2)) => if p2 == body.len() {
                Some(ResponseMetaView { error_code: code, error_text: text })
            } else {
                None
            },
            None => None,
        },
        None => None,
    }
}

/// The optional request submessage at the head of an envelope, and where
/// the rest begins.
pub open spec fn dec_req_part(b: Seq<u8>) -> Option<(Option<RequestMetaView>, int)> {
    if b.len() >= 1 && b[0] == TAG1_LEN {
        match dec_lp(b, 1) {
            Some((rb, p)) => match dec_request(rb) {
                Some(r) => Some((Some(r), p)),
                None => None,
            },
            None => None,
        }
    } else {
        Some((None, 0))
    }
}

/// The optional response submessage at `pos`, and where the rest begins.
pub open spec fn dec_resp_part(b: Seq<u8>, pos: int) -> Option<(Option<ResponseMetaView>, int)> {
    if 0 <= pos < b.len() && b[pos] == TAG2_LEN {
        match dec_lp(b, pos + 1) {
            Some((rb, p)) => match dec_response(rb) {
                Some(r) => Some((Some(r), p)),
                None => None,
            },
            None => None,
        }
    } else {
        Some((None, pos))
    }
}

/// The one envelope a byte string is the canonical encoding of, or nothing
/// where it is the encoding of none.
pub open spec fn dec_meta(b: Seq<u8>) -> Option<MetaView> {
    match dec_req_part(b) {
        Some((req, p1)) => match dec_resp_part(b, p1) {
            Some((resp, p2)) => if p2 == b.len() {
                Some(MetaView { request: req, response: resp })
            } else {
                None
            },
            None => None,
        },
        None => None,
    }
}

fn decode_varint(b: &Vec<u8>, pos: usize) -> (r: Option<(u64, usize)>)
    requires
        pos <= b@.len(),
    ensures
        (match r {
            Some((v, p)) => dec_varint(b@, pos as int) == Some((v as nat, p as int)) && pos < p
                <= b@.len(),
            None => dec_varint(b@, pos as int) is None || (exists|n: nat, p: int|
                dec_varint(b@, pos as int) == Some((n, p)) && n > u64::MAX && p >= 0),
        }),
    decreases b@.len() - pos,
{
    if pos >= b.len() {
        return None;
    }
    let x = b[pos];
    if x < 128 {
        Some((x as u64, pos + 1))
    } else {
        match decode_varint(b, pos + 1) {
            None => None,
            Some((hi, p)) => {
                if hi == 0 {
                    None
                } else {
                    let lo = (x - 128) as u64;
                    if hi > (u64::MAX - lo) / 128 {
                        proof {
                            lemma_fundamental_div_mod((u64::MAX - lo) as int, 128);
                        }
                        None
                    } else {
                        proof {
                            lemma_fundamental_div_mod((u64::MAX - lo) as int, 128);
                        }
                        Some((128 * hi + lo, p))
                    }
                }
            },
        }
    }
}

fn decode_lp(b: &Vec<u8>, pos: usize) -> (r: Option<(Vec<u8>, usize)>)
    requires
        pos <= b@.len(),
    ensures
        (match r {
            Some((data, p)) => dec_lp(b@, pos as int) == Some((data@, p as int)) && pos < p
                <= b@.len(),
            None => dec_lp(b@, pos as int) is None,
        }),
{
    let blen: usize = b.len();
    match decode_varint(b, pos) {
        None => None,
        Some((n, p)) => {
            if n > (blen - p) as u64 {
                None
            } else {
                let end = p + (n as usize);
                let s = vstd::slice::slice_subrange(b.as_slice(), p, end);
                let data = vstd::slice::slice_to_vec(s);
                Some((data, end))
            }
        },
    }
}

fn decode_request(body: &Vec<u8>) -> (r: Option<RequestMeta>)
    ensures
        (match r {
            Some(m) => dec_request(body@) == Some(m@),
            None => dec_request(body@) is None,
        }),
{
    if body.len() < 1 || body[0] != TAG1_LEN {
        return None;
    }
    match decode_lp(body, 1) {
        None => None,
        Some((svc, p1)) => {
            if p1 >= body.len() || body[p1] != TAG2_LEN {
                return None;
            }
            match decode_lp(body, p1 + 1) {
                None => None,
                Some((mth, p2)) => {
                    if p2 == body.len() {
                        Some(RequestMeta { service_name: svc, method_name: mth })
                    } else {
                        None
                    }
                },
            }
        },
    }
}

fn decode_response(body: &Vec<u8>) -> (r: Option<ResponseMeta>)
    ensures
        (match r {
            Some(m) => dec_response(body@) == Some(m@),
            None => dec_response(body@) is None,
        }),
{
    let error_code: Option<i32>;
    let p1: usize;
    if body.len() >= 1 && body[0] == TAG1_VARINT {
        match decode_varint(body, 1) {
            None => {
                return None;
            },
            Some((v, p)) => {
                if v < 0x8000_0000u64 {
                    error_code = Some(v as i32);
                    p1 = p;
                } else if v >= 0xFFFF_FFFF_8000_0000u64 {
                    let w = v - 0xFFFF_FFFF_8000_0000u64;
                    let c1: i64 = (w as i64) - 0x8000_0000i64;
                    assert(c1 == v as int - 0x1_0000_0000_0000_0000);
                    error_code = Some(c1 as i32);
                    p1 = p;
                } else {
                    return None;
                }
            },
        }
    } else {
        error_code = None;
        p1 = 0;
    }
    let error_text: Option<Vec<u8>>;
    let p2: usize;
    if p1 < body.len() && body[p1] == TAG2_LEN {
        match decode_lp(body, p1 + 1) {
            None => {
                return None;
            },
            Some((t, p)) => {
                error_text = Some(t);
                p2 = p;
            },
        }
    } else {
        error_text = None;
        p2 = p1;
    }
    if p2 == body.len() {
        Some(ResponseMeta { error_code, error_text })
    } else {
        None
    }
}

/// Decodes a metadata segment, accepting exactly the canonical encodings
/// that [`encode_meta`] produces: any other byte string is
/// schema-incompatible and rejected as malformed.
pub fn decode_meta(b: &Vec<u8>) -> (r: Result<Meta, ProtocolError>)
    ensures
        (match r {
            Ok(m) => dec_meta(b@) == Some(m@),
            Err(e) => e == ProtocolError::MalformedMeta && dec_meta(b@) is None,
        }),
{
    let request: Option<RequestMeta>;
    let p1: usize;
    if b.len() >= 1 && b[0] == TAG1_LEN {
        match decode_lp(b, 0 + 1) {
            None => {
                return Err(ProtocolError::MalformedMeta);
            },
            Some((rb, p)) => {
                match decode_request(&rb) {
                    None => {
                        return Err(ProtocolError::MalformedMeta);
                    },
                    Some(r) => {
                        request = Some(r);
                        p1 = p;
                    },
                }
            },
        }
    } else {
        request = None;
        p1 = 0;
    }
    let response: Option<ResponseMeta>;
    let p2: usize;
    if p1 < b.len() && b[p1] == TAG2_LEN {
        match decode_lp(b, p1 + 1) {
            None => {
                return Err(ProtocolError::MalformedMeta);
            },
            Some((rb, p)) => {
                match decode_response(&rb) {
                    None => {
                        return Err(ProtocolError::MalformedMeta);
                    },
                    Some(r) => {
                        response = Some(r);
                        p2 = p;
                    },
                }
            },
        }
    } else {
        response = None;
        p2 = p1;
    }
    if p2 == b.len() {
        Ok(Meta { request, response })
    } else {
        Err(ProtocolError::MalformedMeta)
    }
}

proof fn lemma_varint_rt(b: Seq<u8>, pos: int, n: nat)
    requires
        0 <= pos,
        pos + varint(n).len() <= b.len(),
        b.subrange(pos, pos + varint(n).len()) == varint(n),
    ensures
        dec_varint(b, pos) == Some((n, pos + varint(n).len())),
    decreases n,
{
    if n < 128 {
        assert(b[pos] == varint(n)[0]);
    } else {
        let tail = varint(n / 128);
        assert(varint(n) == seq![(n % 128 + 128) as u8] + tail);
        assert(b[pos] == varint(n)[0]);
        assert forall|i: int| 0 <= i < tail.len() implies b.subrange(
            pos + 1,
            pos + 1 + tail.len() as int,
        )[i] == tail[i] by {
            assert(b.subrange(pos, pos + varint(n).len() as int)[i + 1] == varint(n)[i + 1]);
        }
        assert(b.subrange(pos + 1, pos + 1 + tail.len() as int) =~= tail);
        lemma_varint_rt(b, pos + 1, n / 128);
        lemma_fundamental_div_mod(n as int, 128);
        assert(n / 128 > 0);
        assert(dec_varint(b, pos) == Some((n, pos + varint(n).len())));
    }
}

proof fn lemma_lp_rt(b: Seq<u8>, pos: int, data: Seq<u8>)
    requires
        0 <= pos,
        pos + len_prefixed(data).len() <= b.len(),
        b.subrange(pos, pos + len_prefixed(data).len()) == len_prefixed(data),
    ensures
        dec_lp(b, pos) == Some((data, pos + len_prefixed(data).len())),
{
    let vl = varint(data.len());
    assert(b.subrange(pos, pos + vl.len()) =~= vl);
    lemma_varint_rt(b, pos, data.len());
    let p: int = pos + vl.len() as int;
    assert forall|i: int| 0 <= i < data.len() implies b.subrange(p, p + data.len() as int)[i]
        == data[i] by {
        assert(b.subrange(pos, pos + len_prefixed(data).len() as int)[vl.len() + i]
            == len_prefixed(data)[vl.len() + i]);
    }
    assert(b.subrange(p, p + data.len() as int) =~= data);
}

proof fn lemma_request_rt(r: RequestMetaView)
    ensures
        dec_request(enc_request(r)) == Some(r),
{
    let body = enc_request(r);
    let l1 = len_prefixed(r.service_name);
    let l2 = len_prefixed(r.method_name);
    assert(body.len() >= 1 && body[0] == TAG1_LEN);
    assert(body.subrange(1, 1 + l1.len() as int) =~= l1);
    lemma_lp_rt(body, 1, r.service_name);
    let p1: int = 1 + l1.len() as int;
    assert(body[p1] == TAG2_LEN);
    assert(body.subrange(p1 + 1, p1 + 1 + l2.len() as int) =~= l2);
    lemma_lp_rt(body, p1 + 1, r.method_name);
    assert(RequestMetaView { service_name: r.service_name, method_name: r.method_name } =~= r);
    assert(dec_request(body) == Some(r));
}

proof fn lemma_response_rt(r: ResponseMetaView)
    ensures
        dec_response(enc_response(r)) == Some(r),
{
    let body = enc_response(r);
    let code_seg: Seq<u8> = (match r.error_code {
        Some(c) => seq![TAG1_VARINT] + varint(code_as_u64(c) as nat),
        None => Seq::empty(),
    });
    let text_seg: Seq<u8> = (match r.error_text {
        Some(t) => seq![TAG2_LEN] + len_prefixed(t),
        None => Seq::empty(),
    });
    assert(body == code_seg + text_seg);
    let p1: int = code_seg.len() as int;
    match r.error_code {
        Some(c) => {
            let v = code_as_u64(c) as nat;
            assert(body[0] == TAG1_VARINT);
            assert(body.subrange(1, 1 + varint(v).len() as int) =~= varint(v));
            lemma_varint_rt(body, 1, v);
            assert(valid_code_wire(v));
            assert(u64_as_code(v) == c);
            assert(dec_code_part(body) == Some((Some(c), p1)));
        },
        None => {
            match r.error_text {
                Some(t) => {
                    assert(body[0] == TAG2_LEN);
                    assert(dec_code_part(body) == Some((None::<i32>, 0int)));
                },
                None => {
                    assert(body.len() == 0);
                },
            }
        },
    }
    match r.error_text {
        Some(t) => {
            assert(body[p1] == TAG2_LEN);
            assert(body.subrange(p1 + 1, p1 + 1 + len_prefixed(t).len() as int) =~= len_prefixed(t));
            lemma_lp_rt(body, p1 + 1, t);
            assert(dec_text_part(body, p1) == Some((Some(t), body.len() as int)));
        },
        None => {
            assert(p1 == body.len());
        },
    }
    assert(ResponseMetaView { error_code: r.error_code, error_text: r.error_text } =~= r);
    assert(dec_response(body) == Some(r));
}

/// Round trip of the metadata envelope: decoding the canonical encoding of
/// any record reproduces the record, every field exactly.
pub proof fn lemma_meta_round_trip(m: MetaView)
    ensures
        dec_meta(enc_meta(m)) == Some(m),
{
    let b = enc_meta(m);
    let req_seg: Seq<u8> = (match m.request {
        Some(r) => seq![TAG1_LEN] + len_prefixed(enc_request(r)),
        None => Seq::empty(),
    });
    let resp_seg: Seq<u8> = (match m.response {
        Some(r) => seq![TAG2_LEN] + len_prefixed(enc_response(r)),
        None => Seq::empty(),
    });
    assert(b == req_seg + resp_seg);
    let p1: int = req_seg.len() as int;
    match m.request {
        Some(r) => {
            assert(b[0] == TAG1_LEN);
            assert(b.subrange(1, 1 + len_prefixed(enc_request(r)).len() as int) =~= len_prefixed(
                enc_request(r),
            ));
            lemma_lp_rt(b, 1, enc_request(r));
            lemma_request_rt(r);
            assert(dec_req_part(b) == Some((Some(r), p1)));
        },
        None => {
            match m.response {
                Some(r) => {
                    assert(b[0] == TAG2_LEN);
                    assert(dec_req_part(b) == Some((None::<RequestMetaView>, 0int)));
                },
                None => {
                    assert(b.len() == 0);
                },
            }
        },
    }
    match m.response {
        Some(r) => {
            assert(b[p1] == TAG2_LEN);
            assert(b.subrange(p1 + 1, p1 + 1 + len_prefixed(enc_response(r)).len() as int)
                =~= len_prefixed(enc_response(r)));
            lemma_lp_rt(b, p1 + 1, enc_response(r));
            lemma_response_rt(r);
            assert(dec_resp_part(b, p1) == Some((Some(r), b.len() as int)));
        },
        None => {
            assert(p1 == b.len());
        },
    }
    assert(MetaView { request: m.request, response: m.response } =~= m);
    assert(dec_meta(b) == Some(m));
}

} // verus!
