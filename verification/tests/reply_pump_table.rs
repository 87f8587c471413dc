use asgi_http::channels::reply_pump::{PumpAction, ReplyPump};
use asgi_http::channels::ChannelReply;

#[test]
fn deliver_goes_to_the_registered_waiter() {
    let mut pump: ReplyPump<u32> = ReplyPump::new();
    assert!(pump.is_empty());
    assert!(pump.listen("http.response!aaaaaaaaaa".to_string(), 1).is_none());
    assert!(pump.listen("http.response!bbbbbbbbbb".to_string(), 2).is_none());
    assert!(!pump.is_empty());

    let popped = Some((
        "http.response!bbbbbbbbbb".to_string(),
        ChannelReply { buf: b"payload".to_vec() },
    ));
    match pump.dispatch(popped) {
        PumpAction::Deliver(waiter, reply) => {
            assert_eq!(waiter, 2);
            assert_eq!(reply.buf, b"payload".to_vec());
        },
        _ => panic!("expected a delivery"),
    }
    // The registration was consumed: the same channel is now unregistered.
    let again = Some((
        "http.response!bbbbbbbbbb".to_string(),
        ChannelReply { buf: b"again".to_vec() },
    ));
    match pump.dispatch(again) {
        PumpAction::Fatal(channel) => assert_eq!(channel, "http.response!bbbbbbbbbb"),
        _ => panic!("expected a fatal violation"),
    }
}

#[test]
fn reply_for_unregistered_channel_is_fatal() {
    let mut pump: ReplyPump<u32> = ReplyPump::new();
    pump.listen("http.response!aaaaaaaaaa".to_string(), 7);
    let popped = Some((
        "http.response!zzzzzzzzzz".to_string(),
        ChannelReply { buf: vec![] },
    ));
    match pump.dispatch(popped) {
        PumpAction::Fatal(channel) => assert_eq!(channel, "http.response!zzzzzzzzzz"),
        _ => panic!("a reply nobody registered must be fatal"),
    }
}

#[test]
fn no_reply_means_idle() {
    let mut pump: ReplyPump<u32> = ReplyPump::new();
    pump.listen("http.response!aaaaaaaaaa".to_string(), 7);
    match pump.dispatch(None) {
        PumpAction::Idle => (),
        _ => panic!("nothing popped: the pump should idle"),
    }
}

#[test]
fn duplicate_registration_displaces_the_first_waiter() {
    let mut pump: ReplyPump<u32> = ReplyPump::new();
    assert_eq!(pump.listen("http.response!aaaaaaaaaa".to_string(), 1), None);
    assert_eq!(pump.listen("http.response!aaaaaaaaaa".to_string(), 2), Some(1));
    match pump.dispatch(Some(("http.response!aaaaaaaaaa".to_string(), ChannelReply { buf: vec![] }))) {
        PumpAction::Deliver(waiter, _) => assert_eq!(waiter, 2),
        _ => panic!("expected a delivery"),
    }
}

#[test]
fn drain_hands_back_all_waiters_for_cancellation() {
    let mut pump: ReplyPump<u32> = ReplyPump::new();
    pump.listen("http.response!aaaaaaaaaa".to_string(), 1);
    pump.listen("http.response!bbbbbbbbbb".to_string(), 2);
    pump.listen("http.response!cccccccccc".to_string(), 3);
    let waiters = pump.drain();
    assert_eq!(waiters, vec![1, 2, 3]);
    assert!(pump.is_empty());
}

#[test]
fn channel_names_cover_all_registrations() {
    let mut pump: ReplyPump<u32> = ReplyPump::new();
    pump.listen("http.response!aaaaaaaaaa".to_string(), 1);
    pump.listen("http.response!bbbbbbbbbb".to_string(), 2);
    let names = pump.channel_names();
    assert_eq!(names.len(), 2);
    assert!(names.contains(&"http.response!aaaaaaaaaa".to_string()));
    assert!(names.contains(&"http.response!bbbbbbbbbb".to_string()));
}
