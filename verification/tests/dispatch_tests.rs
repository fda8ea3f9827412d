use rurpc::dispatch::build_response_meta;
use rurpc::dispatch::FAILURE_ERROR_CODE;
use rurpc::frame::parse_header;
use rurpc::frame::split_body;
use rurpc::frame::HEADER_SIZE;
use rurpc::handle_body;
use rurpc::meta::decode_meta;
use rurpc::meta::encode_meta;
use rurpc::Dispatcher;
use rurpc::FrameHeader;
use rurpc::HandlerError;
use rurpc::Meta;
use rurpc::ProtocolError;
use rurpc::RequestMeta;
use rurpc::Service;
use rurpc::MAGIC_NUMBER;

struct Echo;

impl Service for Echo {
    fn handle(&self, _path: &Vec<u8>, payload: &Vec<u8>) -> Result<Vec<u8>, Vec<u8>> {
        Ok(payload.clone())
    }
}

fn echo_dispatcher() -> Dispatcher<Echo> {
    let mut d = Dispatcher::new(Echo);
    d.register(b"/svc.Echo/echo".to_vec());
    d
}

fn request_frame(service: &[u8], method: &[u8], payload: &[u8]) -> (FrameHeader, Vec<u8>) {
    let meta = Meta {
        request: Some(RequestMeta {
            service_name: service.to_vec(),
            method_name: method.to_vec(),
        }),
        response: None,
    };
    let meta_bytes = encode_meta(&meta);
    let header = FrameHeader {
        magic: MAGIC_NUMBER,
        body_length: (meta_bytes.len() + payload.len()) as u32,
        meta_length: meta_bytes.len() as u32,
    };
    let mut body = meta_bytes;
    body.extend_from_slice(payload);
    (header, body)
}

#[test]
fn route_unknown_path_is_unimplemented() {
    let d = echo_dispatcher();
    let r = d.route(&b"/svc.Echo/missing".to_vec(), &Vec::new());
    assert_eq!(
        r,
        Err(HandlerError::Unimplemented(b"/svc.Echo/missing".to_vec()))
    );
}

#[test]
fn route_known_path_invokes_handler() {
    let d = echo_dispatcher();
    let r = d.route(&b"/svc.Echo/echo".to_vec(), &b"hi".to_vec());
    assert_eq!(r, Ok(b"hi".to_vec()));
}

#[test]
fn response_meta_on_success_has_no_error() {
    let meta = build_response_meta(&Ok(b"data".to_vec()));
    assert_eq!(meta.request, None);
    let resp = meta.response.unwrap();
    assert_eq!(resp.error_code, None);
    assert_eq!(resp.error_text, None);
}

#[test]
fn response_meta_on_failure_carries_code_and_text() {
    let meta = build_response_meta(&Err(HandlerError::Failed(b"oops".to_vec())));
    assert_eq!(meta.request, None);
    let resp = meta.response.unwrap();
    assert_eq!(resp.error_code, Some(FAILURE_ERROR_CODE));
    assert_eq!(resp.error_text, Some(b"oops".to_vec()));
}

#[test]
fn echo_request_round_trip() {
    let d = echo_dispatcher();
    let payload = vec![0x0au8, 0x02, b'h', b'i'];
    let (header, body) = request_frame(b"svc.Echo", b"echo", &payload);

    let frame = handle_body(&d, &header, body).unwrap();

    let out_header = parse_header(&frame[..HEADER_SIZE]).unwrap();
    assert_eq!(out_header.magic, MAGIC_NUMBER);
    let out_body = frame[HEADER_SIZE..].to_vec();
    let (meta_bytes, payload_bytes) =
        split_body(out_body, out_header.meta_length as usize).unwrap();
    let out_meta = decode_meta(&meta_bytes).unwrap();
    assert_eq!(out_meta.request, None);
    let resp = out_meta.response.unwrap();
    assert_eq!(resp.error_code, None);
    assert_eq!(resp.error_text, None);
    assert_eq!(payload_bytes, payload);
}

#[test]
fn unregistered_path_gets_error_response() {
    let d = echo_dispatcher();
    let (header, body) = request_frame(b"svc.Echo", b"missing", b"ignored");

    let frame = handle_body(&d, &header, body).unwrap();

    let out_header = parse_header(&frame[..HEADER_SIZE]).unwrap();
    let out_body = frame[HEADER_SIZE..].to_vec();
    let (meta_bytes, payload_bytes) =
        split_body(out_body, out_header.meta_length as usize).unwrap();
    let out_meta = decode_meta(&meta_bytes).unwrap();
    let resp = out_meta.response.unwrap();
    assert_eq!(resp.error_code, Some(FAILURE_ERROR_CODE));
    let text = resp.error_text.unwrap();
    let path = b"/svc.Echo/missing";
    assert!(text
        .windows(path.len())
        .any(|w| w == &path[..]));
    assert!(payload_bytes.is_empty());
}

#[test]
fn meta_longer_than_body_is_fatal() {
    let d = echo_dispatcher();
    let header = FrameHeader {
        magic: MAGIC_NUMBER,
        body_length: 2,
        meta_length: 3,
    };
    let r = handle_body(&d, &header, vec![0u8, 0]);
    assert_eq!(r, Err(ProtocolError::BadLength));
}

#[test]
fn garbage_meta_is_fatal() {
    let d = echo_dispatcher();
    let body = vec![0xffu8, 0xff, 0xff];
    let header = FrameHeader {
        magic: MAGIC_NUMBER,
        body_length: body.len() as u32,
        meta_length: body.len() as u32,
    };
    let r = handle_body(&d, &header, body);
    assert_eq!(r, Err(ProtocolError::MalformedMeta));
}

#[test]
fn envelope_without_request_is_fatal() {
    let d = echo_dispatcher();
    let meta = Meta::default();
    let body = encode_meta(&meta);
    let header = FrameHeader {
        magic: MAGIC_NUMBER,
        body_length: body.len() as u32,
        meta_length: body.len() as u32,
    };
    let r = handle_body(&d, &header, body);
    assert_eq!(r, Err(ProtocolError::MalformedMeta));
}
