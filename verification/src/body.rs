//! Response body streams.
//!
//! A response body is yielded to the HTTP client lazily, chunk by chunk.
//! The stream starts out holding the chunk that came with the response
//! envelope, so single-shot and streaming responses run through the same
//! machine: yield the held chunk, and either wait on the reply channel for
//! the next one (`more_content`) or end. The futures that resolve the next
//! chunk live with the driving loop; the machine here decides, and is
//! verified against a small model.

use crate::msgs::http::{ResponseBodyChunk, ResponseBodyChunkModel};
use vstd::prelude::*;
use vstd::string::StrSliceExecFns;

verus! {

/// The state of a response body stream, as the contracts see it.
pub ghost enum StreamModel {
    /// A chunk is in hand, ready to be yielded.
    Ready(ResponseBodyChunkModel),
    /// The last yielded chunk promised more: the next one must be awaited
    /// on the reply channel.
    Awaiting,
    /// End of stream.
    Done,
}

/// What the driving loop should do next with a stream.
pub enum StreamStep {
    /// Hand these bytes to the client; when the flag is set more content
    /// follows, otherwise the stream is finished after this chunk.
    Yield(Vec<u8>, bool),
    /// Await the next chunk on this reply channel, then hand it back with
    /// `resolve`.
    AwaitReply(String),
    /// End of stream.
    End,
}

/// The body of an HTTP response handed to the client: either a canned
/// error page or a streamed ASGI response body.
pub enum BodyStream {
    Error(ErrorBodyStream),
    Response(ResponseBodyStream),
}

/// The model of a body stream.
pub ghost enum BodyStreamModel {
    /// An error page not yet yielded (`Some`) or already yielded (`None`).
    Error(Option<Seq<char>>),
    /// A streamed response: the reply channel and the stream state.
    Stream(Seq<char>, StreamModel),
}

/// A one-shot stream that yields a canned error page and ends.
pub struct ErrorBodyStream(Option<String>);

impl View for ErrorBodyStream {
    type V = Option<Seq<char>>;

    closed spec fn view(&self) -> Option<Seq<char>> {
        match self.0 {
            Some(s) => Some(s@),
            None => None,
        }
    }
}

impl ErrorBodyStream {
    /// Yields the page's bytes on the first call and ends on every later
    /// one.
    pub fn poll(&mut self) -> (r: Option<Vec<u8>>)
        ensures
            final(self)@ is None,
            match old(self)@ {
                Some(s) => r matches Some(bytes) && bytes@ == vstd::utf8::encode_utf8(s),
                None => r is None,
            },
    {
        let held = self.0.take();
        match held {
            Some(body) => Some(body.as_str().as_bytes_vec()),
            None => None,
        }
    }
}

/// A lazily streamed response body: yields the chunk in hand, then waits
/// on the reply channel for the next.
pub struct ResponseBodyStream {
    channel: String,
    pending: Option<ResponseBodyChunk>,
    done: bool,
}

impl View for ResponseBodyStream {
    type V = BodyStreamModel;

    closed spec fn view(&self) -> BodyStreamModel {
        BodyStreamModel::Stream(
            self.channel@,
            if self.done {
                StreamModel::Done
            } else {
                match self.pending {
                    Some(c) => StreamModel::Ready(c@),
                    None => StreamModel::Awaiting,
                }
            },
        )
    }
}

impl View for BodyStream {
    type V = BodyStreamModel;

    open spec fn view(&self) -> BodyStreamModel {
        match self {
            BodyStream::Error(e) => BodyStreamModel::Error(e@),
            BodyStream::Response(s) => s@,
        }
    }
}

impl ResponseBodyStream {
    /// One transition of the stream machine: yield the chunk in hand and
    /// either keep going or end, or ask the driving loop to await the next
    /// chunk.
    pub fn poll_step(&mut self) -> (r: StreamStep)
        ensures
            match old(self)@ {
                BodyStreamModel::Stream(ch, s) => match s {
                    StreamModel::Ready(c) => r matches StreamStep::Yield(bytes, more) && bytes@
                        == c.content && more == c.more_content && final(self)@
                        == BodyStreamModel::Stream(
                        ch,
                        if c.more_content {
                            StreamModel::Awaiting
                        } else {
                            StreamModel::Done
                        },
                    ),
                    StreamModel::Awaiting => r matches StreamStep::AwaitReply(c) && c@ == ch
                        && final(self)@ == old(self)@,
                    StreamModel::Done => r is End && final(self)@ == old(self)@,
                },
                BodyStreamModel::Error(_) => true,
            },
    {
        if self.done {
            return StreamStep::End;
        }
        let held = self.pending.take();
        match held {
            Some(chunk) => {
                if !chunk.more_content {
                    self.done = true;
                }
                StreamStep::Yield(chunk.content, chunk.more_content)
            },
            None => StreamStep::AwaitReply(self.channel.clone()),
        }
    }

    /// Hands the stream the chunk that arrived on the reply channel.
    pub fn resolve(&mut self, chunk: ResponseBodyChunk)
        requires
            old(self)@ matches BodyStreamModel::Stream(_, s) && s is Awaiting,
        ensures
            match old(self)@ {
                BodyStreamModel::Stream(ch, _) => final(self)@ == BodyStreamModel::Stream(
                    ch,
                    StreamModel::Ready(chunk@),
                ),
                BodyStreamModel::Error(_) => false,
            },
    {
        self.pending = Some(chunk);
    }
}

impl BodyStream {
    /// A streamed response body, pre-resolved with the chunk that came
    /// with the response envelope.
    pub fn response(channel: String, initial_chunk: ResponseBodyChunk) -> (r: BodyStream)
        ensures
            r@ == BodyStreamModel::Stream(channel@, StreamModel::Ready(initial_chunk@)),
    {
        BodyStream::Response(
            ResponseBodyStream { channel, pending: Some(initial_chunk), done: false },
        )
    }

    /// A canned error page body.
    pub fn error(body: String) -> (r: BodyStream)
        ensures
            r@ == BodyStreamModel::Error(Some(body@)),
    {
        BodyStream::Error(ErrorBodyStream(Some(body)))
    }
}

impl BodyStream {
    /// One transition of whichever stream this is: an error page is
    /// yielded once and then ends; a response stream steps its machine.
    pub fn poll_step(&mut self) -> (r: StreamStep)
        ensures
            match old(self)@ {
                BodyStreamModel::Error(held) => match held {
                    Some(page) => r matches StreamStep::Yield(bytes, more) && bytes@
                        == vstd::utf8::encode_utf8(page) && !more && final(self)@
                        == BodyStreamModel::Error(None),
                    None => r is End && final(self)@ == old(self)@,
                },
                BodyStreamModel::Stream(ch, s) => match s {
                    StreamModel::Ready(c) => r matches StreamStep::Yield(bytes, more) && bytes@
                        == c.content && more == c.more_content && final(self)@
                        == BodyStreamModel::Stream(
                        ch,
                        if c.more_content {
                            StreamModel::Awaiting
                        } else {
                            StreamModel::Done
                        },
                    ),
                    StreamModel::Awaiting => r matches StreamStep::AwaitReply(c) && c@ == ch
                        && final(self)@ == old(self)@,
                    StreamModel::Done => r is End && final(self)@ == old(self)@,
                },
            },
    {
        match self {
            BodyStream::Error(error_stream) => match error_stream.poll() {
                Some(bytes) => StreamStep::Yield(bytes, false),
                None => StreamStep::End,
            },
            BodyStream::Response(response_stream) => response_stream.poll_step(),
        }
    }
}

/// The bytes a run of the stream machine yields: starting with a chunk in
/// hand, each `Ready` chunk is yielded and, if it promises more, the next
/// feed is consumed.
pub open spec fn stream_run(s: StreamModel, feeds: Seq<ResponseBodyChunkModel>) -> Seq<Seq<u8>>
    decreases feeds.len(), stream_rank(s),
{
    match s {
        StreamModel::Done => Seq::empty(),
        StreamModel::Ready(c) => seq![c.content] + stream_run(
            if c.more_content {
                StreamModel::Awaiting
            } else {
                StreamModel::Done
            },
            feeds,
        ),
        StreamModel::Awaiting => if feeds.len() == 0 {
            Seq::empty()
        } else {
            stream_run(StreamModel::Ready(feeds[0]), feeds.drop_first())
        },
    }
}

/// A rank that makes `stream_run` terminate: `Ready` steps to `Awaiting`
/// without consuming a feed.
pub open spec fn stream_rank(s: StreamModel) -> nat {
    match s {
        StreamModel::Ready(_) => 2,
        StreamModel::Awaiting => 1,
        StreamModel::Done => 0,
    }
}

/// Every chunk of a well-formed stream is yielded to the client, in order,
/// exactly once: an initial chunk followed by feeds of which each but the
/// last promises more content yields the contents of all of them.
pub proof fn lemma_stream_yields_all(c0: ResponseBodyChunkModel, feeds: Seq<ResponseBodyChunkModel>)
    requires
        c0.more_content <==> feeds.len() > 0,
        forall|i: int|
            0 <= i < feeds.len() ==> ((#[trigger] feeds[i].more_content) <==> i < feeds.len() - 1),
    ensures
        stream_run(StreamModel::Ready(c0), feeds) == seq![c0.content] + feeds.map_values(
            |c: ResponseBodyChunkModel| c.content,
        ),
    decreases feeds.len(),
{
    reveal_with_fuel(stream_run, 3);
    let tail = feeds.map_values(|c: ResponseBodyChunkModel| c.content);
    if feeds.len() == 0 {
        assert(stream_run(StreamModel::Ready(c0), feeds) =~= seq![c0.content] + tail);
    } else {
        let c1 = feeds[0];
        let rest = feeds.drop_first();
        assert(forall|i: int|
            0 <= i < rest.len() ==> ((#[trigger] rest[i].more_content) <==> i < rest.len() - 1));
        assert(c1.more_content <==> rest.len() > 0);
        lemma_stream_yields_all(c1, rest);
        assert(stream_run(StreamModel::Ready(c0), feeds) == seq![c0.content] + stream_run(
            StreamModel::Ready(c1),
            rest,
        ));
        assert(rest.map_values(|c: ResponseBodyChunkModel| c.content) =~= tail.drop_first());
        assert(seq![c0.content] + (seq![c1.content] + tail.drop_first()) =~= seq![c0.content]
            + tail);
    }
}

} // verus!
