use asgi_http::channels::{is_valid_channel_name, new_channel_name, validate_channel_name, ChannelError};

#[test]
fn test_is_valid_channel_name() {
    assert_eq!(is_valid_channel_name("http.request"), true);
    assert_eq!(is_valid_channel_name("http.request!aS45543"), true);
    assert_eq!(is_valid_channel_name("http.response.body?aS45543"), true);
    assert_eq!(is_valid_channel_name("aA1!?-_."), true);

    assert_eq!(is_valid_channel_name("@"), false);
    assert_eq!(is_valid_channel_name("☃"), false);
}

#[test]
fn test_validate_channel_name() {
    assert!(validate_channel_name("http.request").is_ok());
    assert!(validate_channel_name("@").is_err());
}

#[test]
fn validate_same_name_twice_agrees() {
    for name in ["http.request", "@", "", "a", "http.response!aB34cD78xZ"] {
        let first = is_valid_channel_name(name);
        let second = is_valid_channel_name(name);
        assert_eq!(first, second);
        assert_eq!(validate_channel_name(name).is_ok(), first);
        assert_eq!(validate_channel_name(name).is_ok(), second);
    }
}

#[test]
fn name_of_one_hundred_chars_is_valid() {
    let name = "a".repeat(100);
    assert!(is_valid_channel_name(&name));
}

#[test]
fn name_of_one_hundred_one_chars_is_rejected() {
    let name = "a".repeat(101);
    assert_eq!(is_valid_channel_name(&name), false);
    assert_eq!(validate_channel_name(&name), Err(ChannelError::InvalidChannelName));
}

#[test]
fn empty_name_is_rejected() {
    assert_eq!(is_valid_channel_name(""), false);
}

#[test]
fn new_channel_appends_ten_alphanumerics() {
    let pattern = "http.response!";
    let name = new_channel_name(pattern).unwrap();
    assert_eq!(name.len(), pattern.len() + 10);
    assert!(name.starts_with(pattern));
    let suffix = &name[pattern.len()..];
    assert_eq!(suffix.len(), 10);
    assert!(suffix.chars().all(|c| c.is_ascii_alphanumeric()));
    assert!(is_valid_channel_name(&name));
}

#[test]
fn new_channel_of_valid_prefix_plus_bang_is_valid() {
    // A valid name with `!` appended gives a fresh name of the pattern's
    // length plus eleven that validates.
    let base = "http.response";
    let pattern = format!("{}!", base);
    let name = new_channel_name(&pattern).unwrap();
    assert_eq!(name.len(), base.len() + 1 + 10);
    assert!(is_valid_channel_name(&name));
}

#[test]
fn new_channel_question_pattern_ok() {
    let name = new_channel_name("http.request.body?").unwrap();
    assert!(name.starts_with("http.request.body?"));
    assert!(is_valid_channel_name(&name));
}

#[test]
fn new_channel_without_marker_suffix_is_rejected() {
    assert_eq!(new_channel_name("http.request"), Err(ChannelError::InvalidChannelName));
    assert_eq!(new_channel_name("plain"), Err(ChannelError::InvalidChannelName));
}

#[test]
fn new_channel_bad_name_is_rejected() {
    assert_eq!(new_channel_name("bad name!"), Err(ChannelError::InvalidChannelName));
}

#[test]
fn new_channel_names_are_practically_unique() {
    let a = new_channel_name("http.response!").unwrap();
    let b = new_channel_name("http.response!").unwrap();
    // Ten alphanumeric characters of entropy: a collision here means the
    // suffix generator is broken.
    assert_ne!(a, b);
}

#[test]
fn error_kind_messages() {
    assert_eq!(ChannelError::ChannelFull.message(), "Channel full");
    assert_eq!(ChannelError::MessageTooLarge.message(), "Message too large");
    assert_eq!(ChannelError::InvalidChannelName.message(), "Invalid channel name");
    assert_eq!(ChannelError::Transport.message(), "Error in channel transport");
    assert_eq!(ChannelError::Serialize.message(), "Error serializing message");
    assert_eq!(ChannelError::Deserialize.message(), "Error deserializing message");
    assert_eq!(ChannelError::Cancelled.message(), "Reply cancelled");
}
