use rurpc::meta::decode_meta;
use rurpc::meta::encode_meta;
use rurpc::Meta;
use rurpc::RequestMeta;
use rurpc::ResponseMeta;

#[test]
fn encode_and_decode() {
    let mut rpc_meta = Meta::default();
    assert_eq!(encode_meta(&rpc_meta).len(), 0);

    let mut request_meta = RequestMeta::default();
    request_meta.service_name = b"test.service".to_vec();
    request_meta.method_name = b"test_method".to_vec();
    rpc_meta.request = Some(request_meta);
    assert_ne!(encode_meta(&rpc_meta).len(), 0);

    let buf = encode_meta(&rpc_meta);
    assert_eq!(buf.len(), 29);

    let decode_result = decode_meta(&buf);
    if let Some(request_meta) = decode_result.ok().and_then(|rpc_meta| rpc_meta.request) {
        assert_eq!(request_meta.service_name, b"test.service".to_vec());
    } else {
        assert!(false);
    }
}

#[test]
fn request_meta_exact_bytes() {
    let meta = Meta {
        request: Some(RequestMeta {
            service_name: b"ab".to_vec(),
            method_name: b"c".to_vec(),
        }),
        response: None,
    };
    let mut expected = vec![0x0au8, 7];
    expected.extend_from_slice(&[0x0a, 2, b'a', b'b', 0x12, 1, b'c']);
    assert_eq!(encode_meta(&meta), expected);
}

#[test]
fn empty_meta_round_trip() {
    let decoded = decode_meta(&Vec::new()).unwrap();
    assert_eq!(decoded.request, None);
    assert_eq!(decoded.response, None);
}

#[test]
fn response_meta_round_trip() {
    let meta = Meta {
        request: None,
        response: Some(ResponseMeta {
            error_code: Some(-1),
            error_text: Some(b"boom".to_vec()),
        }),
    };
    let buf = encode_meta(&meta);
    let decoded = decode_meta(&buf).unwrap();
    assert_eq!(decoded, meta);
}

#[test]
fn negative_code_wire_form() {
    let meta = Meta {
        request: None,
        response: Some(ResponseMeta {
            error_code: Some(-1),
            error_text: None,
        }),
    };
    let buf = encode_meta(&meta);
    // submessage: tag 0x08 then the ten-byte varint of 2^64 - 1
    let inner = vec![
        0x08u8, 0xff, 0xff, 0xff, 0xff, 0xff, 0xff, 0xff, 0xff, 0xff, 0x01,
    ];
    let mut expected = vec![0x12u8, inner.len() as u8];
    expected.extend_from_slice(&inner);
    assert_eq!(buf, expected);
    assert_eq!(decode_meta(&buf).unwrap(), meta);
}

#[test]
fn positive_code_round_trip() {
    let meta = Meta {
        request: None,
        response: Some(ResponseMeta {
            error_code: Some(2047),
            error_text: Some(Vec::new()),
        }),
    };
    let decoded = decode_meta(&encode_meta(&meta)).unwrap();
    assert_eq!(decoded, meta);
}

#[test]
fn full_meta_round_trip() {
    let meta = Meta {
        request: Some(RequestMeta {
            service_name: b"svc.Echo".to_vec(),
            method_name: b"echo".to_vec(),
        }),
        response: Some(ResponseMeta {
            error_code: Some(-2147483648),
            error_text: Some(b"t".to_vec()),
        }),
    };
    let decoded = decode_meta(&encode_meta(&meta)).unwrap();
    assert_eq!(decoded, meta);
}

#[test]
fn malformed_meta_rejected() {
    assert!(decode_meta(&vec![0xffu8]).is_err());
    assert!(decode_meta(&vec![0x0au8]).is_err());
    assert!(decode_meta(&vec![0x0au8, 0x05, 0x0a]).is_err());
    // trailing garbage after a complete envelope
    assert!(decode_meta(&vec![0x12u8, 0x00, 0x00]).is_err());
    // non-minimal varint length
    assert!(decode_meta(&vec![0x12u8, 0x80, 0x00]).is_err());
}
