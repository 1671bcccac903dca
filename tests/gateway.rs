use microvm::gateway::{message_from_fields, parse_request, reply_response, RequestError};
use microvm::http::{content_length, HttpResponse};
use microvm::message::{Message, MessageType, PAYLOAD_SIZE};
use microvm::route::{GatewayLookupTable, PeerAddr, RouteError};

fn addr(port: u16) -> PeerAddr {
    PeerAddr { ip: 0x7f00_0001, port }
}

#[test]
fn registered_pid_routes_to_its_client() {
    let mut t: GatewayLookupTable<u32> = GatewayLookupTable::new();
    t.register_addr(addr(1), 100);
    t.register_addr(addr(2), 200);
    t.register_pid(7, addr(1)).unwrap();
    assert_eq!(t.lookup_pid(7), Ok(&100));
    t.register_pid(8, addr(2)).unwrap();
    t.register_addr(addr(3), 300);
    t.remove(addr(2));
    assert_eq!(t.lookup_pid(7), Ok(&100));
    assert_eq!(t.lookup_pid(8), Err(RouteError::NotFound));
}

#[test]
fn last_registration_of_a_pid_wins() {
    let mut t: GatewayLookupTable<u32> = GatewayLookupTable::new();
    t.register_addr(addr(1), 100);
    t.register_addr(addr(2), 200);
    t.register_pid(7, addr(1)).unwrap();
    t.register_pid(7, addr(2)).unwrap();
    assert_eq!(t.lookup_pid(7), Ok(&200));
}

#[test]
fn pid_on_unknown_address_is_refused() {
    let mut t: GatewayLookupTable<u32> = GatewayLookupTable::new();
    assert_eq!(t.register_pid(7, addr(1)), Err(RouteError::NotFound));
    assert_eq!(t.lookup_pid(7), Err(RouteError::NotFound));
    assert_eq!(t.lookup_addr(addr(1)), Err(RouteError::NotFound));
}

#[test]
fn disconnect_cleanup() {
    let mut t: GatewayLookupTable<u32> = GatewayLookupTable::new();
    t.register_addr(addr(9), 1);
    t.register_pid(42, addr(9)).unwrap();
    assert_eq!(t.lookup_pid(42), Ok(&1));
    t.remove(addr(9));
    assert_eq!(t.lookup_pid(42), Err(RouteError::NotFound));
    assert_eq!(t.lookup_addr(addr(9)), Err(RouteError::NotFound));
}

#[test]
fn remove_of_absent_address_is_noop() {
    let mut t: GatewayLookupTable<u32> = GatewayLookupTable::new();
    t.register_addr(addr(1), 5);
    t.register_pid(3, addr(1)).unwrap();
    t.remove(addr(2));
    t.remove(addr(2));
    assert_eq!(t.lookup_pid(3), Ok(&5));
    assert_eq!(t.lookup_addr(addr(1)), Ok(&5));
}

#[test]
fn reconnect_replaces_client() {
    let mut t: GatewayLookupTable<u32> = GatewayLookupTable::new();
    t.register_addr(addr(1), 5);
    t.register_pid(3, addr(1)).unwrap();
    t.register_addr(addr(1), 6);
    assert_eq!(t.lookup_pid(3), Ok(&6));
}

#[test]
fn long_payload_is_truncated() {
    let items: Vec<Option<u64>> = (0..(PAYLOAD_SIZE as u64 + 10)).map(Some).collect();
    let m = message_from_fields(Some(1), Some(2), Some(items)).unwrap();
    let expected: Vec<u8> = (0..PAYLOAD_SIZE as u8).collect();
    assert_eq!(m.payload, expected);
}

#[test]
fn short_payload_is_zero_filled() {
    let m = message_from_fields(Some(1), Some(2), Some(vec![Some(1), Some(2), Some(0x1ff)])).unwrap();
    let mut expected = vec![0u8; PAYLOAD_SIZE];
    expected[..3].copy_from_slice(&[1, 2, 0xff]);
    assert_eq!(m.payload, expected);
    assert_eq!(m.message_type, MessageType::Ikc);
    let m = message_from_fields(Some(1), Some(2), None).unwrap();
    assert_eq!(m.payload, vec![0u8; PAYLOAD_SIZE]);
}

#[test]
fn malformed_requests_are_refused() {
    assert_eq!(message_from_fields(None, Some(2), None), Err(RequestError::InvalidSource));
    assert_eq!(
        message_from_fields(Some(1u64 << 32), Some(2), None),
        Err(RequestError::InvalidSource)
    );
    assert_eq!(message_from_fields(Some(1), None, None), Err(RequestError::InvalidDestination));
    assert_eq!(
        message_from_fields(Some(1), Some(2), Some(vec![Some(1), None])),
        Err(RequestError::InvalidPayload)
    );
    assert_eq!(parse_request("not json"), Err(RequestError::InvalidSource));
    assert_eq!(
        parse_request(r#"{"source":1,"destination":2,"payload":[1,"x"]}"#),
        Err(RequestError::InvalidPayload)
    );
}

#[test]
fn http_round_trip() {
    let request = parse_request(r#"{"source":7,"destination":1,"payload":[1,2,3]}"#).unwrap();
    assert_eq!(request.source, 7);
    assert_eq!(request.destination, 1);
    // The guest echoes with source and destination swapped.
    let reply = Message::ikc(request.destination, request.source, &request.payload);
    let response = reply_response(&reply);
    let bytes = response.to_bytes();
    let text = String::from_utf8(bytes).unwrap();
    assert!(text.starts_with("HTTP/1.1 200 OK\r\nContent-Type: application/json\r\nContent-Length: "));
    let body = &text[text.find("\r\n\r\n").unwrap() + 4..];
    let json: serde_json::Value = serde_json::from_str(body).unwrap();
    assert_eq!(json["source"], 1);
    assert_eq!(json["destination"], 7);
    assert_eq!(json["message_type"], "Ikc");
    let payload = json["payload"].as_array().unwrap();
    assert_eq!(payload.len(), PAYLOAD_SIZE);
    assert_eq!(payload[0], 1);
    assert_eq!(payload[1], 2);
    assert_eq!(payload[2], 3);
    assert!(payload[3..].iter().all(|v| v == 0));
    let length = format!("Content-Length: {}\r\n", body.len());
    assert!(text.contains(&length));
}

#[test]
fn response_bytes() {
    let mut r = HttpResponse::new(404, "Not Found");
    r.add_header("X-A", "b");
    r.set_body(b"hi".to_vec());
    assert_eq!(r.to_bytes(), b"HTTP/1.1 404 Not Found\r\nX-A: b\r\n\r\nhi".to_vec());
    let mut r = HttpResponse::new(200, "OK");
    r.set_content("text/plain", b"hello".to_vec());
    assert_eq!(
        r.to_bytes(),
        b"HTTP/1.1 200 OK\r\nContent-Type: text/plain\r\nContent-Length: 5\r\n\r\nhello".to_vec()
    );
}

#[test]
fn content_length_header() {
    assert_eq!(content_length("Content-Length: 42"), Some(42));
    assert_eq!(content_length("content-length:7"), Some(7));
    assert_eq!(content_length("CONTENT-LENGTH: \t 12 \r"), Some(12));
    assert_eq!(content_length("Content-Length: 5:6"), Some(5));
    assert_eq!(content_length("Content-Length: x"), Some(0));
    assert_eq!(content_length("Content-Length:"), Some(0));
    assert_eq!(content_length("Content-Length: 99999999999999999999999"), Some(0));
    assert_eq!(content_length("Content-Type: text/plain"), None);
    assert_eq!(content_length("Content"), None);
}
