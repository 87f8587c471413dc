use asgi_http::asgi::{AsgiDeserialize, AsgiSerialize};
use asgi_http::channels::ChannelError;
use asgi_http::msgs::http::{Request, RequestBodyChunk, Response, ResponseBodyChunk};

fn serialize<M: AsgiSerialize>(m: &M) -> Vec<u8> {
    let mut buf = Vec::new();
    m.serialize(&mut buf).unwrap();
    buf
}

fn sample_response() -> Response {
    Response {
        status: 200,
        headers: vec![(b"content-type".to_vec(), b"text/plain".to_vec())],
        content: b"hi".to_vec(),
        more_content: false,
    }
}

#[test]
fn response_round_trip() {
    let resp = sample_response();
    let buf = serialize(&resp);
    let back = Response::deserialize(&buf).unwrap();
    assert_eq!(back, resp);
}

#[test]
fn response_round_trip_streaming_and_status_range() {
    for status in [100u16, 200, 404, 500, 65535] {
        let resp = Response {
            status,
            headers: vec![],
            content: vec![0, 1, 2, 255],
            more_content: true,
        };
        let buf = serialize(&resp);
        assert_eq!(Response::deserialize(&buf).unwrap(), resp);
    }
}

#[test]
fn response_chunk_round_trip() {
    for more in [false, true] {
        let chunk = ResponseBodyChunk { content: b"abc".to_vec(), more_content: more };
        let buf = serialize(&chunk);
        assert_eq!(ResponseBodyChunk::deserialize(&buf).unwrap(), chunk);
    }
}

#[test]
fn request_chunk_round_trip() {
    let chunk = RequestBodyChunk { content: vec![9; 70000], closed: false, more_content: true };
    let buf = serialize(&chunk);
    assert_eq!(RequestBodyChunk::deserialize(&buf).unwrap(), chunk);
}

#[test]
fn request_round_trip_without_body_channel() {
    let req = Request {
        reply_channel: "http.response!aB34cD78xZ".to_string(),
        http_version: "1.1".to_string(),
        method: "GET".to_string(),
        path: "/hello".to_string(),
        query_string: "".to_string(),
        headers: vec![(b"host".to_vec(), b"example.com".to_vec())],
        body: vec![],
        body_channel: None,
    };
    let buf = serialize(&req);
    assert_eq!(Request::deserialize(&buf).unwrap(), req);
}

#[test]
fn request_round_trip_with_body_channel() {
    let req = Request {
        reply_channel: "http.response!0123456789".to_string(),
        http_version: "1.0".to_string(),
        method: "POST".to_string(),
        path: "/big".to_string(),
        query_string: "a=1&b=2".to_string(),
        headers: vec![],
        body: vec![1; 300],
        body_channel: Some("http.request.body?abcdefghij".to_string()),
    };
    let buf = serialize(&req);
    assert_eq!(Request::deserialize(&buf).unwrap(), req);
}

#[test]
fn non_ascii_string_field_is_a_serialize_error() {
    let req = Request {
        reply_channel: "http.response!0123456789".to_string(),
        http_version: "1.1".to_string(),
        method: "GÉT".to_string(),
        path: "/".to_string(),
        query_string: "".to_string(),
        headers: vec![],
        body: vec![],
        body_channel: None,
    };
    let mut buf = Vec::new();
    assert_eq!(req.serialize(&mut buf), Err(ChannelError::Serialize));
    assert!(buf.is_empty());
}

#[test]
fn response_chunk_exact_wire_bytes() {
    let chunk = ResponseBodyChunk { content: b"hi".to_vec(), more_content: false };
    let buf = serialize(&chunk);
    let mut expected: Vec<u8> = Vec::new();
    expected.push(0x82); // fixmap, two keys
    expected.push(0xa7); // fixstr, seven bytes
    expected.extend_from_slice(b"content");
    expected.push(0xc4); // bin 8
    expected.push(0x02);
    expected.extend_from_slice(b"hi");
    expected.push(0xac); // fixstr, twelve bytes
    expected.extend_from_slice(b"more_content");
    expected.push(0xc2); // false
    assert_eq!(buf, expected);
}

#[test]
fn response_wire_matches_reference_encoder() {
    // The same envelope framed with the rmp primitives, byte for byte.
    let resp = sample_response();
    let buf = serialize(&resp);

    let mut expected: Vec<u8> = Vec::new();
    rmp::encode::write_map_len(&mut expected, 4).unwrap();
    rmp::encode::write_str(&mut expected, "status").unwrap();
    rmp::encode::write_uint(&mut expected, 200).unwrap();
    rmp::encode::write_str(&mut expected, "headers").unwrap();
    rmp::encode::write_array_len(&mut expected, 1).unwrap();
    rmp::encode::write_array_len(&mut expected, 2).unwrap();
    rmp::encode::write_bin(&mut expected, b"content-type").unwrap();
    rmp::encode::write_bin(&mut expected, b"text/plain").unwrap();
    rmp::encode::write_str(&mut expected, "content").unwrap();
    rmp::encode::write_bin(&mut expected, b"hi").unwrap();
    rmp::encode::write_str(&mut expected, "more_content").unwrap();
    rmp::encode::write_bool(&mut expected, false).unwrap();
    assert_eq!(buf, expected);
}

#[test]
fn request_wire_matches_reference_encoder() {
    let req = Request {
        reply_channel: "http.response!aB34cD78xZ".to_string(),
        http_version: "1.1".to_string(),
        method: "GET".to_string(),
        path: "/hello".to_string(),
        query_string: "".to_string(),
        headers: vec![(b"host".to_vec(), b"example.com".to_vec())],
        body: b"body".to_vec(),
        body_channel: None,
    };
    let buf = serialize(&req);

    let mut expected: Vec<u8> = Vec::new();
    rmp::encode::write_map_len(&mut expected, 7).unwrap();
    rmp::encode::write_str(&mut expected, "reply_channel").unwrap();
    rmp::encode::write_str(&mut expected, "http.response!aB34cD78xZ").unwrap();
    rmp::encode::write_str(&mut expected, "http_version").unwrap();
    rmp::encode::write_str(&mut expected, "1.1").unwrap();
    rmp::encode::write_str(&mut expected, "method").unwrap();
    rmp::encode::write_str(&mut expected, "GET").unwrap();
    rmp::encode::write_str(&mut expected, "path").unwrap();
    rmp::encode::write_str(&mut expected, "/hello").unwrap();
    rmp::encode::write_str(&mut expected, "query_string").unwrap();
    rmp::encode::write_str(&mut expected, "").unwrap();
    rmp::encode::write_str(&mut expected, "headers").unwrap();
    rmp::encode::write_array_len(&mut expected, 1).unwrap();
    rmp::encode::write_array_len(&mut expected, 2).unwrap();
    rmp::encode::write_bin(&mut expected, b"host").unwrap();
    rmp::encode::write_bin(&mut expected, b"example.com").unwrap();
    rmp::encode::write_str(&mut expected, "body").unwrap();
    rmp::encode::write_bin(&mut expected, b"body").unwrap();
    assert_eq!(buf, expected);
}

#[test]
fn response_defaults_when_keys_absent() {
    // A counterpart may omit `content` and `more_content`; they default to
    // empty and false.
    let mut buf: Vec<u8> = Vec::new();
    rmp::encode::write_map_len(&mut buf, 2).unwrap();
    rmp::encode::write_str(&mut buf, "status").unwrap();
    rmp::encode::write_uint(&mut buf, 204).unwrap();
    rmp::encode::write_str(&mut buf, "headers").unwrap();
    rmp::encode::write_array_len(&mut buf, 0).unwrap();
    let resp = Response::deserialize(&buf).unwrap();
    assert_eq!(resp.status, 204);
    assert!(resp.headers.is_empty());
    assert!(resp.content.is_empty());
    assert_eq!(resp.more_content, false);
}

#[test]
fn response_chunk_default_content() {
    let mut buf: Vec<u8> = Vec::new();
    rmp::encode::write_map_len(&mut buf, 1).unwrap();
    rmp::encode::write_str(&mut buf, "more_content").unwrap();
    rmp::encode::write_bool(&mut buf, true).unwrap();
    let chunk = ResponseBodyChunk::deserialize(&buf).unwrap();
    assert!(chunk.content.is_empty());
    assert_eq!(chunk.more_content, true);
}

#[test]
fn garbage_fails_to_decode() {
    assert_eq!(Response::deserialize(&vec![]), Err(ChannelError::Deserialize));
    assert_eq!(Response::deserialize(&vec![0xc0]), Err(ChannelError::Deserialize));
    assert_eq!(Response::deserialize(&vec![0x82, 0xa1, b'x']), Err(ChannelError::Deserialize));
    assert_eq!(ResponseBodyChunk::deserialize(&vec![0x91]), Err(ChannelError::Deserialize));
    assert_eq!(Request::deserialize(&vec![0x80]), Err(ChannelError::Deserialize));
}

#[test]
fn truncated_payload_fails_to_decode() {
    let resp = sample_response();
    let buf = serialize(&resp);
    for cut in [1, buf.len() / 2, buf.len() - 1] {
        let truncated = buf[..cut].to_vec();
        assert_eq!(Response::deserialize(&truncated), Err(ChannelError::Deserialize));
    }
}

#[test]
fn oversized_component_is_refused() {
    // One header value above the 32-bit length cap cannot be framed. The
    // cap itself is too large to allocate here, so check the path that is
    // reachable: a message at the cap boundary still frames.
    let chunk = RequestBodyChunk { content: vec![0; 1 << 20], closed: false, more_content: false };
    let mut buf = Vec::new();
    assert!(chunk.serialize(&mut buf).is_ok());
}

#[test]
fn long_fields_round_trip() {
    // Exercises the longer wire forms: str 8 and str 16 strings, an
    // array 16 header list, and a bin 16 body.
    let mut headers = Vec::new();
    for i in 0..20 {
        headers.push((format!("x-header-{}", i).into_bytes(), vec![b'v'; 300]));
    }
    let req = Request {
        reply_channel: "http.response!aB34cD78xZ".to_string(),
        http_version: "1.1".to_string(),
        method: "GET".to_string(),
        path: "/".repeat(300),
        query_string: "q".repeat(40),
        headers,
        body: vec![8; 700],
        body_channel: None,
    };
    let buf = serialize(&req);
    assert_eq!(Request::deserialize(&buf).unwrap(), req);
}

#[test]
fn unknown_key_fails_to_decode() {
    let mut buf: Vec<u8> = Vec::new();
    rmp::encode::write_map_len(&mut buf, 2).unwrap();
    rmp::encode::write_str(&mut buf, "bogus").unwrap();
    rmp::encode::write_uint(&mut buf, 1).unwrap();
    rmp::encode::write_str(&mut buf, "headers").unwrap();
    rmp::encode::write_array_len(&mut buf, 0).unwrap();
    assert_eq!(Response::deserialize(&buf), Err(ChannelError::Deserialize));
}

#[test]
fn status_out_of_range_fails_to_decode() {
    let mut buf: Vec<u8> = Vec::new();
    rmp::encode::write_map_len(&mut buf, 2).unwrap();
    rmp::encode::write_str(&mut buf, "status").unwrap();
    rmp::encode::write_uint(&mut buf, 70000).unwrap();
    rmp::encode::write_str(&mut buf, "headers").unwrap();
    rmp::encode::write_array_len(&mut buf, 0).unwrap();
    assert_eq!(Response::deserialize(&buf), Err(ChannelError::Deserialize));
}

#[test]
fn response_with_content_but_no_more_content_key() {
    let mut buf: Vec<u8> = Vec::new();
    rmp::encode::write_map_len(&mut buf, 3).unwrap();
    rmp::encode::write_str(&mut buf, "status").unwrap();
    rmp::encode::write_uint(&mut buf, 200).unwrap();
    rmp::encode::write_str(&mut buf, "headers").unwrap();
    rmp::encode::write_array_len(&mut buf, 0).unwrap();
    rmp::encode::write_str(&mut buf, "content").unwrap();
    rmp::encode::write_bin(&mut buf, b"hi").unwrap();
    let resp = Response::deserialize(&buf).unwrap();
    assert_eq!(resp.content, b"hi".to_vec());
    assert_eq!(resp.more_content, false);
}

#[test]
fn response_with_more_content_but_no_content_key() {
    let mut buf: Vec<u8> = Vec::new();
    rmp::encode::write_map_len(&mut buf, 3).unwrap();
    rmp::encode::write_str(&mut buf, "status").unwrap();
    rmp::encode::write_uint(&mut buf, 200).unwrap();
    rmp::encode::write_str(&mut buf, "headers").unwrap();
    rmp::encode::write_array_len(&mut buf, 0).unwrap();
    rmp::encode::write_str(&mut buf, "more_content").unwrap();
    rmp::encode::write_bool(&mut buf, true).unwrap();
    let resp = Response::deserialize(&buf).unwrap();
    assert!(resp.content.is_empty());
    assert_eq!(resp.more_content, true);
}
