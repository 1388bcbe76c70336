use std::sync::{Arc, Mutex};

use carapace::rpc::{
    accept_bytes, encode_frame, response_matches, Handler, Method, Params, Request, Response,
    ResultValue,
};
use carapace::wire::{decode_inner_request, decode_inner_response, encode_inner_request,
    encode_inner_response};

struct TestHandler {
    test: Arc<Mutex<bool>>,
}

impl Handler for TestHandler {
    fn handle(&mut self, request: Request) -> Response {
        *self.test.lock().unwrap() = true;
        Response::new(ResultValue::Text("test".to_string()), None, request.id)
    }
}

/// One end of a connection: bytes written by the peer, read a few at a time
/// as a stream delivers them.
struct Channel {
    wire: Vec<u8>,
    buf: Vec<u8>,
}

impl Channel {
    fn new() -> Channel {
        Channel { wire: Vec::new(), buf: Vec::new() }
    }

    fn deliver(&mut self, bytes: &[u8]) {
        self.wire.extend_from_slice(bytes);
    }

    /// Reads in 5-byte chunks until one whole message is buffered, as a
    /// stream that lazily delivers bytes would.
    fn read_message(&mut self) -> Option<Vec<u8>> {
        if let Some(p) = accept_bytes(&mut self.buf, &[]) {
            return Some(p);
        }
        while !self.wire.is_empty() {
            let n = self.wire.len().min(5);
            let chunk: Vec<u8> = self.wire.drain(..n).collect();
            if let Some(p) = accept_bytes(&mut self.buf, &chunk) {
                return Some(p);
            }
        }
        None
    }
}

#[test]
fn test_server() {
    let test = Arc::new(Mutex::new(false));
    let mut handler = TestHandler { test: test.clone() };
    let mut to_server = Channel::new();
    let mut to_client = Channel::new();

    let request = Request::new(Method::Other("test".to_string()), Params::Null);
    let id = request.id.clone();
    to_server.deliver(&encode_frame(&encode_inner_request(&request).unwrap()));

    // The server's read-dispatch-write loop, one message at a time.
    while let Some(payload) = to_server.read_message() {
        let request = decode_inner_request(&payload).unwrap();
        let response = handler.handle(request);
        to_client.deliver(&encode_frame(&encode_inner_response(&response).unwrap()));
    }

    let payload = to_client.read_message().unwrap();
    let response = decode_inner_response(&payload).unwrap();
    assert!(response_matches(&response, &id));
    match response.result {
        ResultValue::Text(t) => assert_eq!(t, "test"),
        _ => panic!("wrong result shape"),
    }
    assert!(*test.lock().unwrap());
}

#[test]
fn test_unrelated_response_is_discarded() {
    // Half-duplex correlation: a response to some other id is kept out and
    // the caller goes on reading.
    let resp = Response::new(ResultValue::Text("late".to_string()), None, "old-id".to_string());
    let mut chan = Channel::new();
    chan.deliver(&encode_frame(&encode_inner_response(&resp).unwrap()));
    let expected = Response::new(ResultValue::Text("now".to_string()), None, "new-id".to_string());
    chan.deliver(&encode_frame(&encode_inner_response(&expected).unwrap()));

    let want = "new-id".to_string();
    let mut seen_late = false;
    loop {
        let payload = chan.read_message().expect("the matching response must arrive");
        let response = decode_inner_response(&payload).unwrap();
        if !response_matches(&response, &want) {
            seen_late = true;
            continue;
        }
        match response.result {
            ResultValue::Text(t) => assert_eq!(t, "now"),
            _ => panic!("wrong result shape"),
        }
        break;
    }
    assert!(seen_late);
}
