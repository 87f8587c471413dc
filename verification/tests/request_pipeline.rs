use asgi_http::asgi::AsgiDeserialize;
use asgi_http::body::{BodyStream, StreamStep};
use asgi_http::http::{build_request, error_page, error_response, lower_header_names, split_body, start_response};
use asgi_http::msgs::http::Response;

#[test]
fn header_names_are_lowercased_in_order() {
    let headers = vec![
        (b"Content-Type".to_vec(), b"text/Plain".to_vec()),
        (b"X-MIXED-1".to_vec(), b"Value".to_vec()),
        (b"already".to_vec(), b"x".to_vec()),
    ];
    let lowered = lower_header_names(headers);
    assert_eq!(
        lowered,
        vec![
            (b"content-type".to_vec(), b"text/Plain".to_vec()),
            (b"x-mixed-1".to_vec(), b"Value".to_vec()),
            (b"already".to_vec(), b"x".to_vec()),
        ]
    );
}

#[test]
fn small_body_travels_inline() {
    let body = b"tiny".to_vec();
    let (initial, chunks) = split_body(&body, 8);
    assert_eq!(initial, body);
    assert!(chunks.is_empty());
}

#[test]
fn body_at_the_cap_travels_inline() {
    let body = vec![7u8; 8];
    let (initial, chunks) = split_body(&body, 8);
    assert_eq!(initial, body);
    assert!(chunks.is_empty());
}

#[test]
fn two_cap_body_sends_one_closing_chunk() {
    // Twice the inline cap: the first half inline, the second half as a
    // single chunk that closes the body channel.
    let mut body = vec![1u8; 8];
    body.extend_from_slice(&[2u8; 8]);
    let (initial, chunks) = split_body(&body, 8);
    assert_eq!(initial, vec![1u8; 8]);
    assert_eq!(chunks.len(), 1);
    assert_eq!(chunks[0].content, vec![2u8; 8]);
    assert_eq!(chunks[0].more_content, false);
    assert_eq!(chunks[0].closed, false);
}

#[test]
fn three_cap_body_sends_two_chunks() {
    // Three times the inline cap: one inline part and exactly two chunks,
    // the first promising more, the second closing.
    let body = vec![5u8; 24];
    let (initial, chunks) = split_body(&body, 8);
    assert_eq!(initial.len(), 8);
    assert_eq!(chunks.len(), 2);
    assert_eq!(chunks[0].content.len(), 8);
    assert_eq!(chunks[0].more_content, true);
    assert_eq!(chunks[1].content.len(), 8);
    assert_eq!(chunks[1].more_content, false);
}

#[test]
fn ragged_tail_chunking() {
    let body: Vec<u8> = (0..21u8).collect();
    let (initial, chunks) = split_body(&body, 8);
    assert_eq!(initial, (0..8u8).collect::<Vec<u8>>());
    assert_eq!(chunks.len(), 2);
    assert_eq!(chunks[0].content, (8..16u8).collect::<Vec<u8>>());
    assert_eq!(chunks[0].more_content, true);
    assert_eq!(chunks[1].content, (16..21u8).collect::<Vec<u8>>());
    assert_eq!(chunks[1].more_content, false);
    let mut rejoined = initial.clone();
    for chunk in &chunks {
        rejoined.extend_from_slice(&chunk.content);
    }
    assert_eq!(rejoined, body);
}

#[test]
fn two_mebibyte_body_at_real_cap() {
    let body = vec![3u8; 2 * 1024 * 1024];
    let (initial, chunks) = split_body(&body, asgi_http::http::CHUNK_SIZE);
    assert_eq!(initial.len(), 1024 * 1024);
    assert_eq!(chunks.len(), 1);
    assert_eq!(chunks[0].content.len(), 1024 * 1024);
    assert_eq!(chunks[0].more_content, false);
}

#[test]
fn worker_reply_starts_the_client_response() {
    // A worker's reply, observed through the pipeline: status and header
    // set pass through, and the body yields the content.
    let reply = Response {
        status: 200,
        headers: vec![(b"content-type".to_vec(), b"text/plain".to_vec())],
        content: b"hi".to_vec(),
        more_content: false,
    };
    let (head, stream) = start_response("http.response!aB34cD78xZ".to_string(), reply);
    assert_eq!(head.status, 200);
    assert_eq!(head.headers, vec![(b"content-type".to_vec(), b"text/plain".to_vec())]);
    let mut stream = match stream {
        BodyStream::Response(s) => s,
        BodyStream::Error(_) => panic!("a response stream was expected"),
    };
    match stream.poll_step() {
        StreamStep::Yield(bytes, more) => {
            assert_eq!(bytes, b"hi".to_vec());
            assert!(!more);
        },
        _ => panic!("the reply's content should be yielded"),
    }
    assert!(matches!(stream.poll_step(), StreamStep::End));
}

#[test]
fn worker_error_reply_gives_empty_body() {
    // A worker answering 500 with no headers and no content: the client
    // observes the 500 with an empty body.
    let mut buf: Vec<u8> = Vec::new();
    rmp::encode::write_map_len(&mut buf, 4).unwrap();
    rmp::encode::write_str(&mut buf, "status").unwrap();
    rmp::encode::write_uint(&mut buf, 500).unwrap();
    rmp::encode::write_str(&mut buf, "headers").unwrap();
    rmp::encode::write_array_len(&mut buf, 0).unwrap();
    rmp::encode::write_str(&mut buf, "content").unwrap();
    rmp::encode::write_bin(&mut buf, b"").unwrap();
    rmp::encode::write_str(&mut buf, "more_content").unwrap();
    rmp::encode::write_bool(&mut buf, false).unwrap();
    let reply = Response::deserialize(&buf).unwrap();

    let (head, stream) = start_response("http.response!0123456789".to_string(), reply);
    assert_eq!(head.status, 500);
    assert!(head.headers.is_empty());
    let mut stream = match stream {
        BodyStream::Response(s) => s,
        BodyStream::Error(_) => panic!("a response stream was expected"),
    };
    match stream.poll_step() {
        StreamStep::Yield(bytes, more) => {
            assert!(bytes.is_empty());
            assert!(!more);
        },
        _ => panic!("the empty content should still be yielded"),
    }
    assert!(matches!(stream.poll_step(), StreamStep::End));
}

#[test]
fn error_page_text() {
    let page = error_page("500 Internal Server Error", "Unknown server error");
    let expected = format!(
        "<html><head><title>{0}</title></head><body><h1>{0}</h1><p>{1}</p></body></html>",
        "500 Internal Server Error", "Unknown server error"
    );
    assert_eq!(page, expected);
}

#[test]
fn error_response_is_html_with_the_page() {
    let (head, stream) = error_response(500, "500 Internal Server Error", "Unknown server error");
    assert_eq!(head.status, 500);
    assert_eq!(
        head.headers,
        vec![(b"content-type".to_vec(), b"text/html; charset=utf-8".to_vec())]
    );
    let mut stream = match stream {
        BodyStream::Error(e) => e,
        BodyStream::Response(_) => panic!("an error stream was expected"),
    };
    let bytes = stream.poll().unwrap();
    let page = String::from_utf8(bytes).unwrap();
    assert!(page.starts_with("<html><head><title>500 Internal Server Error</title>"));
    assert!(page.contains("<p>Unknown server error</p>"));
    assert_eq!(stream.poll(), None);
}

#[test]
fn hello_request_envelope() {
    // The envelope a GET of /hello with an empty body produces: every
    // field carried through, headers lower-cased, no body channel.
    let req = build_request(
        "http.response!aB34cD78xZ".to_string(),
        "1.1".to_string(),
        "GET".to_string(),
        "/hello".to_string(),
        "".to_string(),
        vec![(b"Host".to_vec(), b"example.com".to_vec())],
        vec![],
        None,
    );
    assert_eq!(req.reply_channel, "http.response!aB34cD78xZ");
    assert_eq!(req.http_version, "1.1");
    assert_eq!(req.method, "GET");
    assert_eq!(req.path, "/hello");
    assert_eq!(req.query_string, "");
    assert_eq!(req.headers, vec![(b"host".to_vec(), b"example.com".to_vec())]);
    assert!(req.body.is_empty());
    assert_eq!(req.body_channel, None);
}

#[test]
fn big_request_names_a_body_channel() {
    let req = build_request(
        "http.response!aB34cD78xZ".to_string(),
        "1.1".to_string(),
        "POST".to_string(),
        "/big".to_string(),
        "".to_string(),
        vec![],
        vec![0; 16],
        Some("http.request.body?0123456789".to_string()),
    );
    assert_eq!(req.body_channel, Some("http.request.body?0123456789".to_string()));
}
