use asgi_http::body::{BodyStream, StreamStep};
use asgi_http::msgs::http::ResponseBodyChunk;

fn drive(stream: &mut asgi_http::body::ResponseBodyStream, feeds: Vec<ResponseBodyChunk>) -> Vec<Vec<u8>> {
    let mut yielded = Vec::new();
    let mut feeds = feeds.into_iter();
    loop {
        match stream.poll_step() {
            StreamStep::Yield(bytes, _more) => yielded.push(bytes),
            StreamStep::AwaitReply(_channel) => match feeds.next() {
                Some(chunk) => stream.resolve(chunk),
                None => panic!("the stream asked for more chunks than were fed"),
            },
            StreamStep::End => return yielded,
        }
    }
}

fn response_stream(initial: ResponseBodyChunk) -> asgi_http::body::ResponseBodyStream {
    match BodyStream::response("http.response!aB34cD78xZ".to_string(), initial) {
        BodyStream::Response(s) => s,
        BodyStream::Error(_) => panic!("a response stream was requested"),
    }
}

#[test]
fn single_shot_response_yields_once() {
    let mut stream = response_stream(ResponseBodyChunk {
        content: b"hi".to_vec(),
        more_content: false,
    });
    let yielded = drive(&mut stream, vec![]);
    assert_eq!(yielded, vec![b"hi".to_vec()]);
}

#[test]
fn streamed_response_yields_every_chunk_in_order() {
    // An envelope chunk that promises more, followed by three chunks of
    // which the last closes the stream: four chunks reach the client, in
    // order.
    let mut stream = response_stream(ResponseBodyChunk {
        content: b"one".to_vec(),
        more_content: true,
    });
    let feeds = vec![
        ResponseBodyChunk { content: b"two".to_vec(), more_content: true },
        ResponseBodyChunk { content: b"three".to_vec(), more_content: true },
        ResponseBodyChunk { content: b"four".to_vec(), more_content: false },
    ];
    let yielded = drive(&mut stream, feeds);
    assert_eq!(
        yielded,
        vec![b"one".to_vec(), b"two".to_vec(), b"three".to_vec(), b"four".to_vec()]
    );
}

#[test]
fn stream_asks_on_its_own_reply_channel() {
    let mut stream = response_stream(ResponseBodyChunk {
        content: vec![],
        more_content: true,
    });
    match stream.poll_step() {
        StreamStep::Yield(bytes, more) => {
            assert!(bytes.is_empty());
            assert!(more);
        },
        _ => panic!("the held chunk should be yielded first"),
    }
    match stream.poll_step() {
        StreamStep::AwaitReply(channel) => assert_eq!(channel, "http.response!aB34cD78xZ"),
        _ => panic!("the stream should wait on its reply channel"),
    }
}

#[test]
fn finished_stream_stays_ended() {
    let mut stream = response_stream(ResponseBodyChunk {
        content: b"only".to_vec(),
        more_content: false,
    });
    assert!(matches!(stream.poll_step(), StreamStep::Yield(_, false)));
    assert!(matches!(stream.poll_step(), StreamStep::End));
    assert!(matches!(stream.poll_step(), StreamStep::End));
}

#[test]
fn error_stream_yields_the_page_once() {
    let mut stream = match BodyStream::error("<html>oops</html>".to_string()) {
        BodyStream::Error(e) => e,
        BodyStream::Response(_) => panic!("an error stream was requested"),
    };
    assert_eq!(stream.poll(), Some(b"<html>oops</html>".to_vec()));
    assert_eq!(stream.poll(), None);
    assert_eq!(stream.poll(), None);
}
