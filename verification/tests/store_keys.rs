use asgi_http::channels::redis::{make_channel_key, make_message_key, receive_step, ReceiveStep};

#[test]
fn channel_key_is_prefix_plus_name() {
    assert_eq!(make_channel_key("asgi:", "http.request"), "asgi:http.request");
    assert_eq!(make_channel_key("asgi:", "http.response!aB34cD78xZ"), "asgi:http.response!aB34cD78xZ");
}

#[test]
fn message_key_shape() {
    let key = make_message_key("asgi:");
    assert_eq!(key.len(), "asgi:".len() + "msg:".len() + 10);
    assert!(key.starts_with("asgi:msg:"));
    let suffix = &key["asgi:msg:".len()..];
    assert!(suffix.chars().all(|c| c.is_ascii_alphanumeric()));
}

#[test]
fn message_keys_are_practically_unique() {
    assert_ne!(make_message_key("asgi:"), make_message_key("asgi:"));
}

#[test]
fn popped_payload_is_delivered_under_the_requested_name() {
    let channels = vec![
        "http.response!aaaaaaaaaa".to_string(),
        "http.response!bbbbbbbbbb".to_string(),
    ];
    let popped_key = "asgi:http.response!bbbbbbbbbb".to_string();
    match receive_step("asgi:", &channels, &popped_key, Some(b"payload".to_vec())) {
        ReceiveStep::Deliver(name, reply) => {
            assert_eq!(name, "http.response!bbbbbbbbbb");
            assert_eq!(reply.buf, b"payload".to_vec());
        },
        _ => panic!("the payload belongs to a requested channel"),
    }
}

#[test]
fn expired_payload_is_skipped() {
    let channels = vec!["http.response!aaaaaaaaaa".to_string()];
    let popped_key = "asgi:http.response!aaaaaaaaaa".to_string();
    assert!(matches!(
        receive_step("asgi:", &channels, &popped_key, None),
        ReceiveStep::Skip
    ));
}

#[test]
fn unknown_popped_key_is_a_fault() {
    let channels = vec!["http.response!aaaaaaaaaa".to_string()];
    let popped_key = "asgi:http.response!zzzzzzzzzz".to_string();
    assert!(matches!(
        receive_step("asgi:", &channels, &popped_key, Some(vec![])),
        ReceiveStep::Fault
    ));
    // A key missing the namespace prefix is no requested channel either.
    let bare = "http.response!aaaaaaaaaa".to_string();
    assert!(matches!(
        receive_step("asgi:", &channels, &bare, Some(vec![])),
        ReceiveStep::Fault
    ));
}
