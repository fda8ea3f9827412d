//! The per-connection decisions: what one request frame's body becomes.
//!
//! A connection loop reads a 12-byte header (`parse_header` decides whether
//! the frame may be trusted), reads the announced body, and hands the body
//! here; what comes back is either the complete response frame to write, or
//! a connection-fatal protocol failure after which nothing is written and
//! the connection is torn down. The reads, the write and the shared request
//! counter live with the caller that owns the socket.

use vstd::prelude::*;
use crate::dispatch::Dispatcher;
use crate::dispatch::HandlerError;
use crate::dispatch::Service;
use crate::dispatch::build_path;
use crate::dispatch::build_response_meta;
use crate::dispatch::request_path;
use crate::dispatch::response_meta_of;
use crate::dispatch::valid_outcome;
use crate::frame::FrameHeader;
use crate::frame::ProtocolError;
use crate::frame::encode_response_frame;
use crate::frame::frame_bytes;
use crate::frame::split_body;
use crate::meta::MetaView;
use crate::meta::dec_meta;
use crate::meta::decode_meta;
use crate::meta::enc_meta;

verus! {

/// The response envelope owed for a handler outcome, as a whole record:
/// request cleared, response populated.
pub open spec fn response_envelope_of(outcome: Result<Vec<u8>, HandlerError>) -> MetaView {
    MetaView { request: None, response: Some(response_meta_of(outcome)) }
}

/// The response frame's payload for a handler outcome: the handler's bytes
/// on success, nothing on failure.
pub open spec fn response_payload_of(outcome: Result<Vec<u8>, HandlerError>) -> Seq<u8> {
    match outcome {
        Ok(b) => b@,
        Err(_) => Seq::empty(),
    }
}

/// What the dispatch step owes for a request frame carrying metadata
/// segment `mb` and payload segment `pl`: a metadata segment that does not
/// decode, or decodes without a request field, is connection-fatal; any
/// other outcome is a complete response frame for some outcome the routing
/// table `table` admits — or, for a response too large for the header's
/// 32-bit lengths, the length failure.
pub open spec fn dispatch_post(
    table: Seq<Seq<u8>>,
    magic: u32,
    mb: Seq<u8>,
    pl: Seq<u8>,
    r: Result<Vec<u8>, ProtocolError>,
) -> bool {
    match dec_meta(mb) {
        None => r == Err::<Vec<u8>, ProtocolError>(ProtocolError::MalformedMeta),
        Some(mv) => match mv.request {
            None => r == Err::<Vec<u8>, ProtocolError>(ProtocolError::MalformedMeta),
            Some(req) => match r {
                Ok(out) => exists|outcome: Result<Vec<u8>, HandlerError>|
                    #[trigger] valid_outcome(table, request_path(req), outcome) && out@
                        == frame_bytes(
                        magic,
                        enc_meta(response_envelope_of(outcome)),
                        response_payload_of(outcome),
                    ),
                Err(e) => e == ProtocolError::BadLength && exists|
                    outcome: Result<Vec<u8>, HandlerError>,
                |
                    #[trigger] valid_outcome(table, request_path(req), outcome) && enc_meta(
                        response_envelope_of(outcome),
                    ).len() + response_payload_of(outcome).len() > u32::MAX,
            },
        },
    }
}

/// One whole dispatch step of the connection loop: splits the body of one
/// request frame into its metadata and payload segments, decodes the
/// envelope, routes the request, and builds the complete response frame. An
/// error here is connection-fatal and nothing is written back; a handler
/// failure is not an error here — it comes back as a populated error
/// response frame, and the connection continues.
pub fn handle_body<S: Service>(d: &Dispatcher<S>, header: &FrameHeader, body: Vec<u8>) -> (r:
    Result<Vec<u8>, ProtocolError>)
    ensures
        header.meta_length > body@.len() ==> r == Err::<Vec<u8>, ProtocolError>(
            ProtocolError::BadLength,
        ),
        header.meta_length <= body@.len() ==> dispatch_post(
            d@,
            header.magic,
            body@.subrange(0, header.meta_length as int),
            body@.subrange(header.meta_length as int, body@.len() as int),
            r,
        ),
{
    let ml = header.meta_length as usize;
    let (meta_bytes, payload) = match split_body(body, ml) {
        Ok(p) => p,
        Err(e) => {
            return Err(e);
        },
    };
    let meta = match decode_meta(&meta_bytes) {
        Ok(m) => m,
        Err(e) => {
            return Err(e);
        },
    };
    let req = match meta.request {
        Some(rq) => rq,
        None => {
            return Err(ProtocolError::MalformedMeta);
        },
    };
    let path = build_path(&req);
    let outcome = d.route(&path, &payload);
    let resp_meta = build_response_meta(&outcome);
    let ghost oc = outcome;
    let resp_payload: Vec<u8> = match outcome {
        Ok(b) => b,
        Err(_) => Vec::new(),
    };
    proof {
        assert(resp_meta@ =~= response_envelope_of(oc));
    }
    match encode_response_frame(header.magic, &resp_meta, &resp_payload) {
        Ok(out) => {
            proof {
                assert(valid_outcome(d@, request_path(req@), oc) && out@ == frame_bytes(
                    header.magic,
                    enc_meta(response_envelope_of(oc)),
                    response_payload_of(oc),
                ));
            }
            Ok(out)
        },
        Err(e) => {
            proof {
                assert(valid_outcome(d@, request_path(req@), oc) && enc_meta(
                    response_envelope_of(oc),
                ).len() + response_payload_of(oc).len() > u32::MAX);
            }
            Err(e)
        },
    }
}

} // verus!
