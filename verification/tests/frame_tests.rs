use rurpc::frame::encode_response_frame;
use rurpc::frame::parse_header;
use rurpc::frame::split_body;
use rurpc::frame::HEADER_SIZE;
use rurpc::meta::decode_meta;
use rurpc::meta::encode_meta;
use rurpc::Meta;
use rurpc::ProtocolError;
use rurpc::RequestMeta;
use rurpc::MAGIC_NUMBER;

const MAGIC_BYTES: [u8; 4] = [0x50, 0x52, 0x50, 0x43];

#[test]
fn parse_header_reads_fields() {
    let mut h = Vec::new();
    h.extend_from_slice(&MAGIC_BYTES);
    h.extend_from_slice(&[0, 0, 0, 20]);
    h.extend_from_slice(&[0, 0, 0, 5]);
    let fh = parse_header(&h).unwrap();
    assert_eq!(fh.magic, MAGIC_NUMBER);
    assert_eq!(fh.body_length, 20);
    assert_eq!(fh.meta_length, 5);
}

#[test]
fn mismatched_magic_is_fatal() {
    let mut h = vec![0x50u8, 0x52, 0x50, 0x44];
    h.extend_from_slice(&[0, 0, 0, 20]);
    h.extend_from_slice(&[0, 0, 0, 5]);
    assert_eq!(parse_header(&h), Err(ProtocolError::BadMagic));
}

#[test]
fn split_with_meta_equal_to_body_gives_empty_payload() {
    let body = vec![1u8, 2, 3, 4];
    let (meta, payload) = split_body(body, 4).unwrap();
    assert_eq!(meta, vec![1u8, 2, 3, 4]);
    assert!(payload.is_empty());
}

#[test]
fn split_with_meta_longer_than_body_is_bad_length() {
    let body = vec![1u8, 2, 3, 4];
    assert_eq!(split_body(body, 5), Err(ProtocolError::BadLength));
}

#[test]
fn split_partitions_the_body() {
    let body = vec![9u8, 8, 7, 6, 5];
    let (meta, payload) = split_body(body, 2).unwrap();
    assert_eq!(meta, vec![9u8, 8]);
    assert_eq!(payload, vec![7u8, 6, 5]);
}

#[test]
fn encode_frame_exact_bytes() {
    let meta = Meta::default();
    let payload = vec![1u8, 2, 3];
    let frame = encode_response_frame(MAGIC_NUMBER, &meta, &payload).unwrap();
    let mut expected = Vec::new();
    expected.extend_from_slice(&MAGIC_BYTES);
    expected.extend_from_slice(&[0, 0, 0, 3]);
    expected.extend_from_slice(&[0, 0, 0, 0]);
    expected.extend_from_slice(&[1, 2, 3]);
    assert_eq!(frame, expected);
}

#[test]
fn frame_round_trip() {
    let meta = Meta {
        request: Some(RequestMeta {
            service_name: b"svc.Echo".to_vec(),
            method_name: b"echo".to_vec(),
        }),
        response: None,
    };
    let payload = b"pay".to_vec();
    let frame = encode_response_frame(MAGIC_NUMBER, &meta, &payload).unwrap();

    let header = parse_header(&frame[..HEADER_SIZE]).unwrap();
    assert_eq!(header.magic, MAGIC_NUMBER);
    assert_eq!(
        header.body_length as usize,
        encode_meta(&meta).len() + payload.len()
    );
    assert_eq!(header.meta_length as usize, encode_meta(&meta).len());

    let body = frame[HEADER_SIZE..].to_vec();
    let (meta_bytes, payload_bytes) = split_body(body, header.meta_length as usize).unwrap();
    assert_eq!(decode_meta(&meta_bytes).unwrap(), meta);
    assert_eq!(payload_bytes, payload);
}
