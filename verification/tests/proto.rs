use peek::close_codes::is_permanent;
use peek::proto::{
    decode_frame, deserialize_request, deserialize_response, encode_frame, json_error_message,
    parse_headers, serialize_request, serialize_response, split_head_body, strip_cr, ProtoError, MAX_HEADERS,
};

#[test]
fn frame_roundtrip() {
    let data = b"hello world";
    let frame = encode_frame(42, data);
    let (id, payload) = decode_frame(&frame).unwrap();
    assert_eq!(id, 42);
    assert_eq!(payload, data);
}

#[test]
fn frame_max_id() {
    let frame = encode_frame(u32::MAX, b"x");
    let (id, payload) = decode_frame(&frame).unwrap();
    assert_eq!(id, u32::MAX);
    assert_eq!(payload, b"x");
}

#[test]
fn frame_too_short() {
    assert!(decode_frame(&[0, 1, 2]).is_err());
    assert!(decode_frame(&[]).is_err());
}

#[test]
fn frame_empty_payload() {
    let frame = encode_frame(1, b"");
    let (id, payload) = decode_frame(&frame).unwrap();
    assert_eq!(id, 1);
    assert!(payload.is_empty());
}

#[test]
fn request_roundtrip() {
    let headers = vec![
        ("Content-Type".into(), "text/plain".into()),
        ("X-Custom".into(), "value".into()),
    ];
    let body = b"request body";
    let serialized = serialize_request("POST", "/api/data", &headers, body);
    let req = deserialize_request(&serialized).unwrap_or_else(|_| panic!("no request"));
    assert_eq!(req.method, "POST");
    assert_eq!(req.uri, "/api/data");
    assert_eq!(req.headers.len(), 2);
    assert_eq!(req.headers[0], ("Content-Type".into(), "text/plain".into()));
    assert_eq!(req.headers[1], ("X-Custom".into(), "value".into()));
    assert_eq!(req.body, body);
}

#[test]
fn request_no_body() {
    let serialized = serialize_request("GET", "/", &[], b"");
    let req = deserialize_request(&serialized).unwrap_or_else(|_| panic!("no request"));
    assert_eq!(req.method, "GET");
    assert_eq!(req.uri, "/");
    assert!(req.headers.is_empty());
    assert!(req.body.is_empty());
}

#[test]
fn response_roundtrip() {
    let headers = vec![("Content-Type".into(), "application/json".into())];
    let body = b"{\"ok\":true}";
    let serialized = serialize_response(200, &headers, body);
    let resp = deserialize_response(&serialized).unwrap_or_else(|_| panic!("no response"));
    assert_eq!(resp.status, 200);
    assert_eq!(resp.headers.len(), 1);
    assert_eq!(
        resp.headers[0],
        ("Content-Type".into(), "application/json".into())
    );
    assert_eq!(resp.body, body);
}

#[test]
fn response_no_body() {
    let serialized = serialize_response(204, &[], b"");
    let resp = deserialize_response(&serialized).unwrap_or_else(|_| panic!("no response"));
    assert_eq!(resp.status, 204);
    assert!(resp.headers.is_empty());
    assert!(resp.body.is_empty());
}

#[test]
fn close_codes_permanent() {
    assert!(is_permanent(4000));
    assert!(is_permanent(4001));
    assert!(is_permanent(4002));
    assert!(is_permanent(4003));
    assert!(!is_permanent(1000));
    assert!(!is_permanent(1001));
}

#[test]
fn frame_layout_is_big_endian() {
    assert_eq!(
        encode_frame(0x0102_0304, b"ab"),
        vec![1, 2, 3, 4, b'a', b'b']
    );
    let (id, payload) = decode_frame(&[0xff, 0, 0x80, 1, 9]).unwrap();
    assert_eq!(id, 0xff00_8001);
    assert_eq!(payload, [9]);
}

#[test]
fn decoded_frame_encodes_to_itself() {
    let frame = [7, 0, 255, 1, 1, 2, 3];
    let (id, payload) = decode_frame(&frame).unwrap();
    assert_eq!(encode_frame(id, payload), frame);
}

#[test]
fn short_frame_error_has_its_length() {
    match decode_frame(&[0, 1, 2]) {
        Err(ProtoError::FrameTooShort(length)) => assert_eq!(length, 3),
        _ => panic!("expected a short frame"),
    }
}

#[test]
fn errors_tell_what_is_wrong() {
    assert_eq!(
        ProtoError::FrameTooShort(3).message(),
        "frame too short: need at least 4 bytes, got 3"
    );
    assert_eq!(
        ProtoError::InvalidHttp("no space in request line".to_string()).message(),
        "invalid HTTP data: no space in request line"
    );
    let error = serde_json::from_str::<bool>("x").unwrap_err();
    let detail = error.to_string();
    assert_eq!(
        ProtoError::Json(error).message(),
        format!("JSON error: {detail}")
    );
    assert_eq!(json_error_message("no"), "JSON error: no");
}

#[test]
fn status_that_is_not_utf8_is_refused() {
    match deserialize_response(b"2\xff00\r\n\r\n") {
        Err(ProtoError::InvalidHttp(message)) => {
            assert_eq!(message, "invalid status code: 2\u{fffd}00");
        }
        _ => panic!("expected invalid HTTP"),
    }
}

#[test]
fn request_bytes_on_the_wire() {
    let headers = vec![("A".to_string(), "b".to_string())];
    assert_eq!(
        serialize_request("PUT", "/x", &headers, b"yz"),
        b"PUT /x\r\nA: b\r\n\r\nyz"
    );
}

#[test]
fn response_bytes_on_the_wire() {
    let headers = vec![("A".to_string(), "b".to_string())];
    assert_eq!(
        serialize_response(65535, &headers, b""),
        b"65535\r\nA: b\r\n\r\n"
    );
}

#[test]
fn body_keeps_empty_lines() {
    let serialized = serialize_response(200, &[], b"a\r\n\r\nb\n\n");
    let resp = deserialize_response(&serialized).unwrap_or_else(|_| panic!("no response"));
    assert_eq!(resp.body, b"a\r\n\r\nb\n\n");
}

#[test]
fn request_without_space_is_refused() {
    match deserialize_request(b"GET\r\n\r\n") {
        Err(ProtoError::InvalidHttp(message)) => {
            assert_eq!(message, "no space in request line");
        }
        _ => panic!("expected invalid HTTP"),
    }
}

#[test]
fn response_without_status_is_refused() {
    match deserialize_response(b"abc\r\n\r\n") {
        Err(ProtoError::InvalidHttp(message)) => assert_eq!(message, "invalid status code: abc"),
        _ => panic!("expected invalid HTTP"),
    }
    match deserialize_response(b"65536\r\n\r\n") {
        Err(ProtoError::InvalidHttp(message)) => assert_eq!(message, "invalid status code: 65536"),
        _ => panic!("expected invalid HTTP"),
    }
    match deserialize_response(b"") {
        Err(ProtoError::InvalidHttp(message)) => assert_eq!(message, "invalid status code: "),
        _ => panic!("expected invalid HTTP"),
    }
}

#[test]
fn status_may_have_white_space_around_it() {
    let resp = deserialize_response(b"  204\t\r\n\r\n").unwrap_or_else(|_| panic!("no response"));
    assert_eq!(resp.status, 204);
}

#[test]
fn bytes_that_are_not_utf8_are_repaired() {
    let req = deserialize_request(b"GET /\xff\r\n\r\n").unwrap_or_else(|_| panic!("no request"));
    assert_eq!(req.uri, "/\u{fffd}");
    let req = deserialize_request("GET /ü€\r\n\r\n".as_bytes())
        .unwrap_or_else(|_| panic!("no request"));
    assert_eq!(req.uri, "/ü€");
}

#[test]
fn header_lines_are_trimmed_and_split_at_the_first_colon() {
    let lines: Vec<&[u8]> = vec![b"Host :  a:b \r", b"no header", b":", b"\xc2\xa0x\xe3\x80\x80: y"];
    let headers = parse_headers(&lines);
    assert_eq!(
        headers,
        vec![
            ("Host".to_string(), "a:b".to_string()),
            (String::new(), String::new()),
            ("x".to_string(), "y".to_string()),
        ]
    );
}

#[test]
fn no_more_than_the_most_headers_are_read() {
    let lines: Vec<&[u8]> = vec![b"a: b"; MAX_HEADERS + 1];
    assert_eq!(parse_headers(&lines).len(), 100);
    assert_eq!(parse_headers(&lines[..99]).len(), 99);
}

#[test]
fn head_and_body_part_at_the_first_empty_line() {
    let (head, body) = split_head_body(b"a\r\n\r\nb\r\n\r\nc");
    assert_eq!(head, b"a");
    assert_eq!(body, b"b\r\n\r\nc");
    let (head, body) = split_head_body(b"a\n\nb");
    assert_eq!(head, b"a\n\nb");
    assert!(body.is_empty());
}

#[test]
fn one_carriage_return_is_stripped() {
    assert_eq!(strip_cr(b"a\r\r"), b"a\r");
    assert_eq!(strip_cr(b"a"), b"a");
    assert_eq!(strip_cr(b""), b"");
}
