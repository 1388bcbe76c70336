use carapace::client::Client;
use carapace::db::EntryDb;
use carapace::handler::ServerHandler;
use carapace::pki::{gen_key_of_size, sign_message, to_public_key};
use carapace::rpc::{Handler, Method, Params, Request, Response, ResultValue, RpcErrorCode};
use carapace::rpc_models::RespondClientChallenge;
use carapace::wire::{decode_inner_request, decode_inner_response, encode_inner_request};
use carapace::CryptoError;

fn text_of(resp: &Response) -> String {
    match &resp.result {
        ResultValue::Text(t) => t.clone(),
        _ => panic!("expected a text result"),
    }
}

#[test]
fn test_default_handler() {
    let server_private_key = gen_key_of_size(1024).unwrap();
    let mut handler = ServerHandler::new(server_private_key);

    let private_key = gen_key_of_size(1024).unwrap();
    let mut client = Client::new(private_key);

    let request = client.start_request();
    let response = handler.handle(request);
    assert!(response.error.is_none());
    let challenge = text_of(&response);
    assert!(challenge.len() == 36);

    let request = client.respond_challenge(&challenge).unwrap();
    let response = handler.handle(request);
    assert!(response.error.is_none());
    let server_challenge = match response.result {
        ResultValue::ServerChallenge(sc) => sc,
        _ => panic!("expected the server's counter-signature"),
    };
    client.verify_server(server_challenge).unwrap();

    // Fetch the encryption package through an asymmetric envelope.
    let inner = client.session_key_request();
    let inner_id = inner.id.clone();
    let inner_bytes = encode_inner_request(&inner).unwrap();
    let request = client.seal_for_server(&inner_bytes, inner_id).unwrap();
    let response = handler.handle(request);
    assert!(response.error.is_none());
    let ct = match response.result {
        ResultValue::Bytes(b) => b,
        _ => panic!("expected an encrypted reply"),
    };
    let pt = client.open_rsa_response(&ct).unwrap();
    let inner_resp = decode_inner_response(&pt).unwrap();
    let package = match inner_resp.result {
        ResultValue::Package(p) => p,
        _ => panic!("expected the encryption package"),
    };
    assert_eq!(package.shared_key(), handler.encryption.as_ref().unwrap().shared_key);
}

#[test]
fn test_client() {
    // The client's local table of known servers.
    let db = sled::Config::new().temporary(true).open().unwrap();
    let mut server_db = EntryDb::new(b"example key1", db);
    let server_id = server_db.save_entry(b"test_server").expect("Failed to save server");

    let server_private_key = gen_key_of_size(1024).unwrap();
    let mut handler = ServerHandler::new(server_private_key);
    let mut client = Client::new(gen_key_of_size(1024).unwrap());

    // Steps one to four: mutual authentication.
    let response = handler.handle(client.start_request());
    let challenge = text_of(&response);
    let request = client.respond_challenge(&challenge).unwrap();
    let response = handler.handle(request);
    let sc = match response.result {
        ResultValue::ServerChallenge(sc) => sc,
        _ => panic!("expected the server's counter-signature"),
    };
    client.verify_server(sc).unwrap();

    // Steps five and six: fetch and adopt the session material.
    let inner = client.session_key_request();
    let inner_id = inner.id.clone();
    let request = client
        .seal_for_server(&encode_inner_request(&inner).unwrap(), inner_id)
        .unwrap();
    let response = handler.handle(request);
    let ct = match response.result {
        ResultValue::Bytes(b) => b,
        _ => panic!("expected an encrypted reply"),
    };
    let inner_resp = decode_inner_response(&client.open_rsa_response(&ct).unwrap()).unwrap();
    let package = match inner_resp.result {
        ResultValue::Package(p) => p,
        _ => panic!("expected the encryption package"),
    };
    client.accept_package(&package).unwrap();

    // Both ends hold identical session key and nonce.
    let server_side = handler.encryption.as_ref().unwrap();
    let client_side = client.session.as_ref().unwrap();
    assert_eq!(server_side.shared_key, client_side.shared_key);
    assert_eq!(server_side.nonce, client_side.nonce);

    // The connected server's record is still readable.
    let updated = server_db.get_entry(&server_id).expect("Failed to get server");
    assert_eq!(updated, b"test_server".to_vec());

    // Ping through the symmetric envelope.
    let ping = Request::new(Method::Ping, Params::Null);
    let ping_id = ping.id.clone();
    let request = client
        .seal_symmetric(&encode_inner_request(&ping).unwrap(), ping_id)
        .unwrap();
    let response = handler.handle(request);
    let ct = match response.result {
        ResultValue::Bytes(b) => b,
        _ => panic!("expected an encrypted reply"),
    };
    let inner_resp = decode_inner_response(&client.open_symmetric(&ct).unwrap()).unwrap();
    assert_eq!(text_of(&inner_resp), "pong");
}

#[test]
fn test_tampered_client_signature_aborts() {
    let mut handler = ServerHandler::new(gen_key_of_size(1024).unwrap());
    let mut client = Client::new(gen_key_of_size(1024).unwrap());

    let response = handler.handle(client.start_request());
    let challenge = text_of(&response);
    let mut request = client.respond_challenge(&challenge).unwrap();
    if let Params::ChallengeResponse(p) = &mut request.params {
        p.signiture[0] ^= 0x01;
    } else {
        panic!("expected challenge-response params");
    }
    let response = handler.handle(request);
    let err = response.error.expect("a tampered signature must be rejected");
    assert!(matches!(err.code, RpcErrorCode::InvalidRequest));
    // No session material was created.
    assert!(handler.encryption.is_none());
    assert!(handler.client_pub_key.is_none());
}

#[test]
fn test_tampered_server_signature_rejected() {
    let mut handler = ServerHandler::new(gen_key_of_size(1024).unwrap());
    let mut client = Client::new(gen_key_of_size(1024).unwrap());

    let response = handler.handle(client.start_request());
    let challenge = text_of(&response);
    let request = client.respond_challenge(&challenge).unwrap();
    let response = handler.handle(request);
    let mut sc = match response.result {
        ResultValue::ServerChallenge(sc) => sc,
        _ => panic!("expected the server's counter-signature"),
    };
    sc.signiture[0] ^= 0x01;
    assert_eq!(client.verify_server(sc), Err(CryptoError::AuthenticationFailure));
    // The server's identity is not trusted and no session exists.
    assert!(client.server_pub_key.is_none());
    assert!(client.session.is_none());
}

/// Runs steps one to six so a test can start from an established session.
fn establish_session(handler: &mut ServerHandler, client: &mut Client) {
    let response = handler.handle(client.start_request());
    let challenge = text_of(&response);
    let request = client.respond_challenge(&challenge).unwrap();
    let response = handler.handle(request);
    let sc = match response.result {
        ResultValue::ServerChallenge(sc) => sc,
        _ => panic!("expected the server's counter-signature"),
    };
    client.verify_server(sc).unwrap();
    let inner = client.session_key_request();
    let inner_id = inner.id.clone();
    let request = client
        .seal_for_server(&encode_inner_request(&inner).unwrap(), inner_id)
        .unwrap();
    let response = handler.handle(request);
    let ct = match response.result {
        ResultValue::Bytes(b) => b,
        _ => panic!("expected an encrypted reply"),
    };
    let inner_resp = decode_inner_response(&client.open_rsa_response(&ct).unwrap()).unwrap();
    let package = match inner_resp.result {
        ResultValue::Package(p) => p,
        _ => panic!("expected the encryption package"),
    };
    client.accept_package(&package).unwrap();
}

#[test]
fn test_garbage_inner_request_is_parse_error() {
    let mut handler = ServerHandler::new(gen_key_of_size(1024).unwrap());
    let mut client = Client::new(gen_key_of_size(1024).unwrap());
    establish_session(&mut handler, &mut client);
    let request = client.seal_symmetric(b"not an inner request", "some-id".to_string()).unwrap();
    let response = handler.handle(request);
    let err = response.error.expect("garbage inside the envelope must be rejected");
    assert!(matches!(err.code, RpcErrorCode::ParseError));
}

#[test]
fn test_wrong_params_shape_is_invalid_params() {
    let mut handler = ServerHandler::new(gen_key_of_size(512).unwrap());
    let request = Request::new(Method::ClientChallengeResponse, Params::Null);
    let response = handler.handle(request);
    let err = response.error.expect("a challenge response needs its payload");
    assert!(matches!(err.code, RpcErrorCode::InvalidParams));
}

#[test]
fn test_unknown_method_is_method_not_found() {
    let mut handler = ServerHandler::new(gen_key_of_size(512).unwrap());
    let request = Request::new(Method::Other("no_such_method".to_string()), Params::Null);
    let id = request.id.clone();
    let response = handler.handle(request);
    assert_eq!(response.id, id);
    let err = response.error.expect("an unknown method must be answered with an error");
    assert!(matches!(err.code, RpcErrorCode::MethodNotFound));
}

#[test]
fn test_encrypted_request_before_handshake_is_rejected() {
    let mut handler = ServerHandler::new(gen_key_of_size(512).unwrap());
    let request = Request::new(
        Method::EncryptedRequest,
        Params::Encrypted(carapace::rpc_models::EncryptedRequestParams {
            enc_type: carapace::rpc_models::EncryptionType::AesGcm,
            data: vec![1, 2, 3],
        }),
    );
    let response = handler.handle(request);
    let err = response.error.expect("an encrypted request needs an authenticated session");
    assert!(matches!(err.code, RpcErrorCode::InvalidRequest));
    assert_eq!(err.message, "Encryption not initialized");
}

#[test]
fn test_challenge_replay_rejected() {
    let client_key = gen_key_of_size(1024).unwrap();
    let mut handler = ServerHandler::new(gen_key_of_size(1024).unwrap());
    let mut client = Client::new(client_key.clone());

    let response = handler.handle(client.start_request());
    let challenge = text_of(&response);
    let request = client.respond_challenge(&challenge).unwrap();
    let response = handler.handle(request);
    assert!(response.error.is_none());
    assert!(handler.encryption.is_some());

    // Replaying the same (even correctly signed) challenge response after the
    // handshake completed must fail: the pending challenge was consumed.
    let replay = RespondClientChallenge {
        pub_key: to_public_key(&client_key),
        signiture: sign_message(&client_key, challenge.as_bytes()).unwrap(),
        server_challenge: "another-counter-challenge".to_string(),
    };
    let request = Request::new(Method::ClientChallengeResponse, Params::ChallengeResponse(replay));
    let response = handler.handle(request);
    let err = response.error.expect("a stale challenge must be rejected");
    assert!(matches!(err.code, RpcErrorCode::InvalidRequest));
    assert_eq!(err.message, "No pending challenge");
}
