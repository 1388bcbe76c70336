use carapace::rpc::{
    accept_bytes, decode_frame, encode_frame, response_matches, Method, Params, Request, Response,
    ResultValue,
};
use carapace::rpc_models::ClientEncryptionPackage;
use carapace::wire::{
    decode_inner_request, decode_inner_response, encode_inner_request, encode_inner_response,
    method_from_name, method_name,
};
use carapace::rpc::{RpcError, RpcErrorCode};

#[test]
fn test_frame_round_trip() {
    let payload = b"some payload".to_vec();
    let framed = encode_frame(&payload);
    assert_eq!(framed.len(), payload.len() + 4);
    let (p, rest) = decode_frame(&framed).unwrap();
    assert_eq!(p, payload);
    assert!(rest.is_empty());
}

#[test]
fn test_frame_incomplete_then_complete() {
    let payload = b"0123456789".to_vec();
    let framed = encode_frame(&payload);
    let mut buf: Vec<u8> = Vec::new();
    // First half: no complete frame yet, bytes accumulate.
    let r = accept_bytes(&mut buf, &framed[..7]);
    assert!(r.is_none());
    assert_eq!(buf, framed[..7].to_vec());
    // Second half plus the start of a second message: the first frame comes
    // out, the remainder stays buffered.
    let mut wire = framed[7..].to_vec();
    wire.extend_from_slice(&[9, 9, 9]);
    let r = accept_bytes(&mut buf, &wire);
    assert_eq!(r, Some(payload));
    assert_eq!(buf, vec![9, 9, 9]);
}

#[test]
fn test_empty_frame() {
    let framed = encode_frame(b"");
    assert_eq!(framed, vec![0, 0, 0, 0]);
    let (p, rest) = decode_frame(&framed).unwrap();
    assert!(p.is_empty());
    assert!(rest.is_empty());
}

#[test]
fn test_response_correlation() {
    let resp = Response::new(ResultValue::Null, None, "abc".to_string());
    assert!(response_matches(&resp, &"abc".to_string()));
    // A response correlated to an unrelated id is kept out of the way.
    assert!(!response_matches(&resp, &"def".to_string()));
}

#[test]
fn test_request_ids_are_unique_tokens() {
    let r1 = Request::new(Method::Ping, Params::Null);
    let r2 = Request::new(Method::Ping, Params::Null);
    assert_eq!(r1.id.len(), 36);
    assert_eq!(r2.id.len(), 36);
    assert_ne!(r1.id, r2.id);
}

#[test]
fn test_method_names_round_trip() {
    for name in [
        "start_server_handshake",
        "client_challenge_response",
        "encrypted_request",
        "request_encryption_package",
        "ping",
        "forward_message",
    ] {
        let m = method_from_name(name.to_string());
        assert_eq!(method_name(&m), name);
    }
    assert!(matches!(method_from_name("ping".to_string()), Method::Ping));
    assert!(matches!(method_from_name("forward_message".to_string()), Method::Other(_)));
}

#[test]
fn test_inner_request_round_trip() {
    let req = Request::new(Method::RequestEncryptionPackage, Params::Null);
    let id = req.id.clone();
    let bytes = encode_inner_request(&req).unwrap();
    let back = decode_inner_request(&bytes).unwrap();
    assert!(matches!(back.method, Method::RequestEncryptionPackage));
    assert_eq!(back.id, id);
}

#[test]
fn test_inner_request_params_round_trip() {
    // A free-form application method can carry parameters through the
    // encrypted envelope.
    let req = Request::new(
        Method::Other("forward_message".to_string()),
        Params::Raw(vec![1, 2, 3, 250]),
    );
    let id = req.id.clone();
    let bytes = encode_inner_request(&req).unwrap();
    let back = decode_inner_request(&bytes).unwrap();
    assert!(matches!(back.method, Method::Other(_)));
    assert_eq!(back.id, id);
    match back.params {
        Params::Raw(b) => assert_eq!(b, vec![1, 2, 3, 250]),
        _ => panic!("wrong params shape"),
    }
}

#[test]
fn test_inner_request_rejects_trailing_garbage() {
    let req = Request::new(Method::Ping, Params::Null);
    let mut bytes = encode_inner_request(&req).unwrap();
    assert!(decode_inner_request(&bytes).is_ok());
    bytes.push(0);
    assert!(decode_inner_request(&bytes).is_err());
}

#[test]
fn test_inner_response_round_trip_text() {
    let resp = Response::new(ResultValue::Text("pong".to_string()), None, "id-1".to_string());
    let bytes = encode_inner_response(&resp).unwrap();
    let back = decode_inner_response(&bytes).unwrap();
    assert_eq!(back.id, "id-1");
    assert!(back.error.is_none());
    match back.result {
        ResultValue::Text(t) => assert_eq!(t, "pong"),
        _ => panic!("wrong result shape"),
    }
}

#[test]
fn test_inner_response_round_trip_error() {
    let resp = Response::new(
        ResultValue::Null,
        Some(RpcError { message: "Invalid rpc method".to_string(), code: RpcErrorCode::MethodNotFound }),
        "id-2".to_string(),
    );
    let bytes = encode_inner_response(&resp).unwrap();
    let back = decode_inner_response(&bytes).unwrap();
    assert_eq!(back.id, "id-2");
    let err = back.error.unwrap();
    assert_eq!(err.message, "Invalid rpc method");
    assert!(matches!(err.code, RpcErrorCode::MethodNotFound));
    assert!(matches!(back.result, ResultValue::Null));
}

#[test]
fn test_inner_response_round_trip_package() {
    let package = ClientEncryptionPackage::new(vec![1; 12], vec![7; 32]);
    let resp = Response::new(ResultValue::Package(package), None, "id-3".to_string());
    let bytes = encode_inner_response(&resp).unwrap();
    let back = decode_inner_response(&bytes).unwrap();
    match back.result {
        ResultValue::Package(p) => {
            assert_eq!(p.nonce(), vec![1; 12]);
            assert_eq!(p.shared_key(), vec![7; 32]);
        },
        _ => panic!("wrong result shape"),
    }
}

#[test]
fn test_package_text_is_base64() {
    let package = ClientEncryptionPackage::new(vec![0; 12], vec![255; 32]);
    let (nonce_text, key_text) = package.encoded();
    // A test that would fail if the encoder handed its input back unchanged.
    assert_ne!(nonce_text.as_bytes(), &[0u8; 12][..]);
    assert_eq!(nonce_text, "AAAAAAAAAAAAAAAA");
    assert_eq!(key_text, "//////////////////////////////////////////8=");
    let rebuilt =
        ClientEncryptionPackage::from_encoded(nonce_text, key_text).unwrap();
    assert_eq!(rebuilt.nonce(), vec![0; 12]);
    assert_eq!(rebuilt.shared_key(), vec![255; 32]);
    assert!(ClientEncryptionPackage::from_encoded("!!".to_string(), "AA==".to_string()).is_err());
}
