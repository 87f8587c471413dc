//! The per-request pipeline.
//!
//! A buffered HTTP request is turned into an ASGI request envelope on the
//! fixed `http.request` channel: the first megabyte of body travels inline,
//! the rest as chunks on a fresh per-request body channel; a fresh reply
//! channel is allocated and returned for the response. An arriving response
//! envelope is turned into a response head and a lazy body stream; a failed
//! request is answered with a canned HTML error page.

use crate::body::{BodyStream, BodyStreamModel, StreamModel};
use crate::channels::redis::RedisChannelLayer;
use crate::channels::{
    lemma_new_channel_name_valid, lemma_valid_name_is_ascii, valid_channel_name, ChannelError,
};
use crate::codec::{header_views, headers_encodable};
use crate::msgs::http::{str_encodable, Request, RequestBodyChunk, Response, ResponseBodyChunk};
use vstd::prelude::*;
use vstd::string::StrSliceExecFns;
use vstd::string::StringExecFns;

verus! {

/// How much request body travels inline in the request envelope; anything
/// beyond rides the per-request body channel in chunks of the same size.
pub const CHUNK_SIZE: usize = 1024 * 1024;

/// The HTTP versions the bridge accepts.
pub open spec fn version_supported(v: Seq<char>) -> bool {
    v == "1.0"@ || v == "1.1"@
}

/// ASCII lowercasing of one byte.
pub open spec fn lower_byte(b: u8) -> u8 {
    if 65 <= b <= 90 {
        (b + 32) as u8
    } else {
        b
    }
}

/// ASCII-safe lowercasing of a byte string.
pub open spec fn lower_bytes(v: Seq<u8>) -> Seq<u8> {
    v.map_values(|b: u8| lower_byte(b))
}

/// Lower-cases one header name.
fn lower_name(v: &Vec<u8>) -> (r: Vec<u8>)
    ensures
        r@ == lower_bytes(v@),
{
    let mut out: Vec<u8> = Vec::new();
    let mut i: usize = 0;
    while i < v.len()
        invariant
            i <= v@.len(),
            out@.len() == i,
            forall|j: int| 0 <= j < i ==> #[trigger] out@[j] == lower_byte(v@[j]),
        decreases v@.len() - i,
    {
        let b = v[i];
        if 65 <= b && b <= 90 {
            out.push(b + 32);
        } else {
            out.push(b);
        }
        i += 1;
    }
    assert(out@ =~= lower_bytes(v@));
    out
}

/// Lower-cases every header name, keeping the parser's order and the raw
/// value bytes.
pub fn lower_header_names(headers: Vec<(Vec<u8>, Vec<u8>)>) -> (r: Vec<(Vec<u8>, Vec<u8>)>)
    ensures
        r@.len() == headers@.len(),
        forall|i: int|
            0 <= i < headers@.len() ==> (#[trigger] r@[i]).0@ == lower_bytes(headers@[i].0@)
                && r@[i].1@ == headers@[i].1@,
{
    let mut out: Vec<(Vec<u8>, Vec<u8>)> = Vec::new();
    let mut i: usize = 0;
    while i < headers.len()
        invariant
            i <= headers@.len(),
            out@.len() == i,
            forall|j: int|
                0 <= j < i ==> (#[trigger] out@[j]).0@ == lower_bytes(headers@[j].0@)
                    && out@[j].1@ == headers@[j].1@,
        decreases headers@.len() - i,
    {
        let name = lower_name(&headers[i].0);
        let value = headers[i].1.clone();
        out.push((name, value));
        i += 1;
    }
    out
}

/// The concatenated contents of a chunk list.
pub open spec fn chunks_concat(s: Seq<RequestBodyChunk>) -> Seq<u8>
    decreases s.len(),
{
    if s.len() == 0 {
        Seq::empty()
    } else {
        s.first().content@ + chunks_concat(s.drop_first())
    }
}

proof fn lemma_chunks_concat_push(s: Seq<RequestBodyChunk>, c: RequestBodyChunk)
    ensures
        chunks_concat(s.push(c)) == chunks_concat(s) + c.content@,
    decreases s.len(),
{
    reveal_with_fuel(chunks_concat, 3);
    if s.len() == 0 {
        assert(s.push(c).first() == c);
        assert(s.push(c).drop_first() =~= Seq::<RequestBodyChunk>::empty());
        assert(chunks_concat(s.push(c)) =~= chunks_concat(s) + c.content@);
    } else {
        assert(s.push(c).first() == s.first());
        assert(s.push(c).drop_first() =~= s.drop_first().push(c));
        lemma_chunks_concat_push(s.drop_first(), c);
        assert(chunks_concat(s.push(c)) =~= chunks_concat(s) + c.content@);
    }
}

/// Copies `body[start..end]`.
fn copy_range(body: &Vec<u8>, start: usize, end: usize) -> (r: Vec<u8>)
    requires
        start <= end <= body@.len(),
    ensures
        r@ == body@.subrange(start as int, end as int),
{
    let mut out: Vec<u8> = Vec::new();
    let mut i: usize = start;
    while i < end
        invariant
            start <= i <= end <= body@.len(),
            out@ == body@.subrange(start as int, i as int),
        decreases end - i,
    {
        out.push(body[i]);
        assert(out@ =~= body@.subrange(start as int, i as int + 1));
        i += 1;
    }
    out
}

/// Splits a buffered request body for sending: the first `chunk_size` bytes
/// travel inline, the rest as body-channel chunks. Every chunk but the last
/// is exactly `chunk_size` bytes and marks `more_content`; the last is
/// non-empty, at most `chunk_size` bytes, and marks the end. Together the
/// chunks carry exactly the bytes after the inline part, in order.
pub fn split_body(body: &Vec<u8>, chunk_size: usize) -> (r: (Vec<u8>, Vec<RequestBodyChunk>))
    requires
        1 <= chunk_size,
    ensures
        body@.len() <= chunk_size ==> r.0@ == body@ && r.1@.len() == 0,
        body@.len() > chunk_size ==> {
            &&& r.0@ == body@.subrange(0, chunk_size as int)
            &&& r.1@.len() >= 1
            &&& chunks_concat(r.1@) == body@.subrange(chunk_size as int, body@.len() as int)
            &&& forall|i: int|
                0 <= i < r.1@.len() ==> ((#[trigger] r.1@[i]).more_content <==> i < r.1@.len()
                    - 1)
            &&& forall|i: int| 0 <= i < r.1@.len() ==> !(#[trigger] r.1@[i]).closed
            &&& forall|i: int|
                0 <= i < r.1@.len() - 1 ==> (#[trigger] r.1@[i]).content@.len() == chunk_size
            &&& 1 <= r.1@.last().content@.len() <= chunk_size
        },
{
    let len = body.len();
    if len <= chunk_size {
        let initial = copy_range(body, 0, len);
        assert(initial@ =~= body@);
        return (initial, Vec::new());
    }
    let initial = copy_range(body, 0, chunk_size);
    let mut chunks: Vec<RequestBodyChunk> = Vec::new();
    let mut pos: usize = chunk_size;
    while pos < len
        invariant
            chunk_size <= pos < len,
            chunk_size < len,
            len == body@.len(),
            1 <= chunk_size,
            initial@ == body@.subrange(0, chunk_size as int),
            pos > chunk_size ==> chunks@.len() >= 1,
            pos == chunk_size ==> chunks@.len() == 0,
            chunks_concat(chunks@) == body@.subrange(chunk_size as int, pos as int),
            forall|i: int| 0 <= i < chunks@.len() ==> (#[trigger] chunks@[i]).more_content,
            forall|i: int| 0 <= i < chunks@.len() ==> !(#[trigger] chunks@[i]).closed,
            forall|i: int|
                0 <= i < chunks@.len() ==> (#[trigger] chunks@[i]).content@.len() == chunk_size,
        decreases len - pos,
    {
        let take = if len - pos < chunk_size {
            len - pos
        } else {
            chunk_size
        };
        let content = copy_range(body, pos, pos + take);
        let more = pos + take < len;
        let chunk = RequestBodyChunk { content, closed: false, more_content: more };
        proof {
            lemma_chunks_concat_push(chunks@, chunk);
        }
        chunks.push(chunk);
        proof {
            assert(chunks_concat(chunks@) =~= body@.subrange(
                chunk_size as int,
                pos as int + take as int,
            ));
        }
        if !more {
            // The last chunk: close the loop with the final flags in place.
            pos = pos + take;
            proof {
                assert(pos == len);
                assert forall|i: int|
                    0 <= i < chunks@.len() implies ((#[trigger] chunks@[i]).more_content <==> i
                    < chunks@.len() - 1) by {}
                assert(chunks@.last().content@.len() == take);
            }
            return (initial, chunks);
        }
        pos = pos + take;
    }
    proof {
        // The loop only exits through the last-chunk return above.
        assert(false);
    }
    (initial, chunks)
}

/// Builds the request envelope for one buffered HTTP request: every field
/// passes through unchanged except the header names, which are lower-cased
/// ASCII-safely with their order and raw value bytes kept; the body channel
/// is named exactly when one was allocated.
pub fn build_request(
    reply_channel: String,
    http_version: String,
    method: String,
    path: String,
    query_string: String,
    headers: Vec<(Vec<u8>, Vec<u8>)>,
    body_inline: Vec<u8>,
    body_channel: Option<String>,
) -> (r: Request)
    ensures
        r@.reply_channel == reply_channel@,
        r@.http_version == http_version@,
        r@.method == method@,
        r@.path == path@,
        r@.query_string == query_string@,
        r@.headers.len() == headers@.len(),
        forall|i: int|
            0 <= i < headers@.len() ==> (#[trigger] r@.headers[i]).0 == lower_bytes(
                headers@[i].0@,
            ) && r@.headers[i].1 == headers@[i].1@,
        r@.body == body_inline@,
        (r@.body_channel is Some <==> body_channel is Some),
        body_channel matches Some(c) ==> r@.body_channel == Some(c@),
{
    let headers = lower_header_names(headers);
    let r = Request {
        reply_channel,
        http_version,
        method,
        path,
        query_string,
        headers,
        body: body_inline,
        body_channel,
    };
    r
}

/// Whether the caller-supplied components of a request fit the wire
/// format: ASCII strings within the length caps and headers within the
/// count and length caps. The generated channel names and the inline body
/// part always fit, so this decides the envelope's encodability.
pub open spec fn request_components_encodable(
    method: Seq<char>,
    path: Seq<char>,
    query_string: Seq<char>,
    headers: Seq<(Seq<u8>, Seq<u8>)>,
) -> bool {
    &&& str_encodable(method)
    &&& str_encodable(path)
    &&& str_encodable(query_string)
    &&& headers_encodable(headers)
}

/// The caller-supplied components decide a built request's encodability:
/// lower-casing keeps every header length, and the remaining fields — the
/// generated channel names, the version literal, the inline body — always
/// fit the caps.
proof fn lemma_request_encodability(
    m: crate::msgs::http::RequestModel,
    method: Seq<char>,
    path: Seq<char>,
    query_string: Seq<char>,
    headers: Seq<(Seq<u8>, Seq<u8>)>,
)
    requires
        m.method == method,
        m.path == path,
        m.query_string == query_string,
        m.headers.len() == headers.len(),
        forall|i: int|
            0 <= i < headers.len() ==> (#[trigger] m.headers[i]).0 == lower_bytes(headers[i].0)
                && m.headers[i].1 == headers[i].1,
        str_encodable(m.reply_channel),
        str_encodable(m.http_version),
        m.body.len() <= 0xFFFF_FFFF,
        match m.body_channel {
            Some(c) => str_encodable(c),
            None => true,
        },
    ensures
        crate::msgs::http::request_encodable(m) <==> request_components_encodable(
            method,
            path,
            query_string,
            headers,
        ),
{
    assert forall|i: int|
        0 <= i < headers.len() implies (#[trigger] m.headers[i]).0.len() == headers[i].0.len()
        && m.headers[i].1.len() == headers[i].1.len() by {
        assert(m.headers[i].0 == lower_bytes(headers[i].0));
    }
    if headers_encodable(headers) {
        assert forall|k: int|
            0 <= k < m.headers.len() implies (#[trigger] m.headers[k]).0.len() <= 0xFFFF_FFFF
            && m.headers[k].1.len() <= 0xFFFF_FFFF by {
            assert(headers[k].0.len() <= 0xFFFF_FFFF && headers[k].1.len() <= 0xFFFF_FFFF);
        }
    }
    if headers_encodable(m.headers) {
        assert forall|k: int|
            0 <= k < headers.len() implies (#[trigger] headers[k]).0.len() <= 0xFFFF_FFFF
            && headers[k].1.len() <= 0xFFFF_FFFF by {
            assert(m.headers[k].0.len() <= 0xFFFF_FFFF && m.headers[k].1.len() <= 0xFFFF_FFFF);
        }
    }
}

/// Sends one buffered HTTP request into the channel layer: allocates the
/// reply channel (and, for a large body, the body channel), emits the
/// request envelope on `http.request` with the first chunk of body inline
/// and lower-cased header names, then emits the remaining body chunks, and
/// returns the reply channel to await the response on. Only HTTP/1.0 and
/// HTTP/1.1 are bridged; any other version is refused without any store
/// traffic.
pub fn send_request_sync(
    channels: &mut RedisChannelLayer,
    method: String,
    path: String,
    query_string: String,
    http_version: String,
    headers: Vec<(Vec<u8>, Vec<u8>)>,
    body: Vec<u8>,
) -> (r: Result<String, ChannelError>)
    ensures
        !version_supported(http_version@) ==> r == Result::<String, ChannelError>::Err(
            ChannelError::Serialize,
        ),
        r == Result::<String, ChannelError>::Err(ChannelError::Serialize) || r == Result::<
            String,
            ChannelError,
        >::Err(ChannelError::MessageTooLarge) ==> !version_supported(http_version@)
            || !request_components_encodable(
            method@,
            path@,
            query_string@,
            header_views(headers@),
        ),
        version_supported(http_version@) && !request_components_encodable(
            method@,
            path@,
            query_string@,
            header_views(headers@),
        ) ==> (r == Result::<String, ChannelError>::Err(ChannelError::Serialize) || r
            == Result::<String, ChannelError>::Err(ChannelError::MessageTooLarge)),
        r matches Err(e) ==> (e == ChannelError::Serialize || e == ChannelError::MessageTooLarge
            || e == ChannelError::ChannelFull || e == ChannelError::Transport),
        r != Result::<String, ChannelError>::Err(ChannelError::InvalidChannelName),
        r matches Ok(rc) ==> {
            &&& rc@.len() == "http.response!"@.len() + 10
            &&& rc@.subrange(0, "http.response!"@.len() as int) == "http.response!"@
            &&& valid_channel_name(rc@)
        },
{
    proof {
        reveal_strlit("1.0");
        reveal_strlit("1.1");
        reveal_strlit("http.request");
        reveal_strlit("http.request.body?");
        reveal_strlit("http.response!");
    }
    let v10 = String::from_str("1.0");
    let v11 = String::from_str("1.1");
    if !(http_version == v10 || http_version == v11) {
        // An unsupported version cannot be put on the wire.
        return Err(ChannelError::Serialize);
    }
    let (initial, chunks) = split_body(&body, CHUNK_SIZE);

    let body_channel: Option<String> = if chunks.len() > 0 {
        match channels.new_channel("http.request.body?") {
            Ok(c) => {
                proof {
                    lemma_new_channel_name_valid("http.request.body?"@, c@);
                }
                Some(c)
            },
            Err(_) => {
                proof {
                    assert(valid_channel_name("http.request.body?"@));
                }
                assert(false);
                return Err(ChannelError::Serialize);
            },
        }
    } else {
        None
    };
    proof {
        assert(match body_channel {
            Some(c) => valid_channel_name(c@),
            None => true,
        });
    }

    let reply_channel = match channels.new_channel("http.response!") {
        Ok(c) => {
            proof {
                lemma_new_channel_name_valid("http.response!"@, c@);
            }
            c
        },
        Err(_) => {
            proof {
                assert(valid_channel_name("http.response!"@));
            }
            assert(false);
            return Err(ChannelError::Serialize);
        },
    };

    let request = build_request(
        reply_channel.clone(),
        http_version,
        method,
        path,
        query_string,
        headers,
        initial,
        match &body_channel {
            Some(c) => Some(c.clone()),
            None => None,
        },
    );
    proof {
        lemma_valid_name_is_ascii(reply_channel@);
        assert(str_encodable(request@.reply_channel));
        assert(str_encodable(request@.http_version));
        assert(match request@.body_channel {
            Some(c) => str_encodable(c),
            None => true,
        }) by {
            match body_channel {
                Some(c) => {
                    lemma_valid_name_is_ascii(c@);
                },
                None => {},
            }
        }
        assert(request@.body.len() <= 0xFFFF_FFFF);
        assert forall|i: int|
            0 <= i < header_views(headers@).len() implies (#[trigger] request@.headers[i]).0
            == lower_bytes(header_views(headers@)[i].0) && request@.headers[i].1 == header_views(
            headers@,
        )[i].1 by {
            assert(header_views(headers@)[i] == (headers@[i].0@, headers@[i].1@));
        }
        lemma_request_encodability(
            request@,
            method@,
            path@,
            query_string@,
            header_views(headers@),
        );
    }
    match channels.send("http.request", &request) {
        Ok(()) => (),
        Err(e) => {
            assert(valid_channel_name("http.request"@));
            return Err(e);
        },
    }

    if let Some(bc) = body_channel {
        proof {
            assert forall|j: int|
                0 <= j < chunks@.len() implies crate::msgs::http::request_chunk_encodable(
                #[trigger] chunks@[j]@,
            ) by {
                assert(chunks@[j].content@.len() <= CHUNK_SIZE);
            }
        }
        let mut i: usize = 0;
        while i < chunks.len()
            invariant
                i <= chunks@.len(),
                valid_channel_name(bc@),
                version_supported(http_version@),
                request_components_encodable(
                    method@,
                    path@,
                    query_string@,
                    header_views(headers@),
                ),
                forall|j: int|
                    0 <= j < chunks@.len() ==> crate::msgs::http::request_chunk_encodable(
                        #[trigger] chunks@[j]@,
                    ),
            decreases chunks@.len() - i,
        {
            match channels.send(bc.as_str(), &chunks[i]) {
                Ok(()) => (),
                Err(e) => {
                    return Err(e);
                },
            }
            i += 1;
        }
    }
    Ok(reply_channel)
}

/// How many chunks a split produces: the tail's length divided by the
/// chunk size, rounded up. Together with `split_body`'s contract this pins
/// the chunk count of any body: a body of three megabytes, for instance,
/// splits into one inline megabyte and exactly two chunks.
pub proof fn lemma_chunk_count(chunks: Seq<RequestBodyChunk>, chunk_size: int)
    requires
        chunk_size >= 1,
        chunks.len() >= 1,
        forall|i: int|
            0 <= i < chunks.len() - 1 ==> (#[trigger] chunks[i]).content@.len() == chunk_size,
        1 <= chunks.last().content@.len() <= chunk_size,
    ensures
        chunks.len() == (chunks_concat(chunks).len() + chunk_size - 1) / chunk_size,
    decreases chunks.len(),
{
    reveal_with_fuel(chunks_concat, 2);
    if chunks.len() == 1 {
        let l = chunks.last().content@.len() as int;
        assert(chunks.drop_first() =~= Seq::<RequestBodyChunk>::empty());
        assert(chunks_concat(chunks) =~= chunks.first().content@);
        assert(chunks.first() == chunks.last());
        vstd::arithmetic::div_mod::lemma_fundamental_div_mod_converse(
            l + chunk_size - 1,
            chunk_size,
            1,
            l - 1,
        );
    } else {
        let rest = chunks.drop_first();
        assert(rest.last() == chunks.last());
        assert(forall|i: int|
            0 <= i < rest.len() - 1 ==> (#[trigger] rest[i]).content@.len() == chunk_size);
        lemma_chunk_count(rest, chunk_size);
        let t = chunks_concat(rest).len() as int;
        let n1 = rest.len() as int;
        assert(chunks.first().content@.len() == chunk_size);
        assert(chunks_concat(chunks).len() == chunk_size + t);
        vstd::arithmetic::div_mod::lemma_fundamental_div_mod(t + chunk_size - 1, chunk_size);
        let r = (t + chunk_size - 1) % chunk_size;
        vstd::arithmetic::div_mod::lemma_mod_bound(t + chunk_size - 1, chunk_size);
        assert(t + chunk_size - 1 == chunk_size * n1 + r);
        assert(chunk_size + t + chunk_size - 1 == (n1 + 1) * chunk_size + r) by (nonlinear_arith)
            requires
                t + chunk_size - 1 == chunk_size * n1 + r,
        ;
        vstd::arithmetic::div_mod::lemma_fundamental_div_mod_converse(
            chunk_size + t + chunk_size - 1,
            chunk_size,
            n1 + 1,
            r,
        );
    }
}

/// The status and headers of the HTTP response handed back to the client.
pub struct ResponseHead {
    pub status: u16,
    pub headers: Vec<(Vec<u8>, Vec<u8>)>,
}

/// Starts the client's response from an arriving response envelope: the
/// status and headers pass through unchanged, order preserved, and the
/// envelope's first chunk of content seeds the lazy body stream on the
/// request's reply channel.
pub fn start_response(reply_channel: String, resp: Response) -> (r: (ResponseHead, BodyStream))
    ensures
        r.0.status == resp.status,
        r.0.headers@ == resp.headers@,
        r.1@ == BodyStreamModel::Stream(
            reply_channel@,
            StreamModel::Ready(
                crate::msgs::http::ResponseBodyChunkModel {
                    content: resp.content@,
                    more_content: resp.more_content,
                },
            ),
        ),
{
    let initial_chunk = ResponseBodyChunk { content: resp.content, more_content: resp.more_content };
    let head = ResponseHead { status: resp.status, headers: resp.headers };
    let stream = BodyStream::response(reply_channel, initial_chunk);
    (head, stream)
}

/// The canned HTML page for a failed request.
pub fn error_page(status_line: &str, message: &str) -> (r: String)
    ensures
        r@ == "<html><head><title>"@ + status_line@ + "</title></head><body><h1>"@ + status_line@
            + "</h1><p>"@ + message@ + "</p></body></html>"@,
{
    let mut page = String::from_str("<html><head><title>");
    page.append(status_line);
    page.append("</title></head><body><h1>");
    page.append(status_line);
    page.append("</h1><p>");
    page.append(message);
    page.append("</p></body></html>");
    page
}

/// Synthesizes the error response a failed request is answered with: the
/// given status, a `text/html` content type, and a one-shot body holding
/// the canned page. The error is not propagated to the HTTP framework —
/// the request is served, with this response.
pub fn error_response(status: u16, status_line: &str, message: &str) -> (r: (
    ResponseHead,
    BodyStream,
))
    ensures
        r.0.status == status,
        r.0.headers@.len() == 1,
        r.0.headers@[0].0@ == crate::codec::ascii_bytes("content-type"@),
        r.0.headers@[0].1@ == crate::codec::ascii_bytes("text/html; charset=utf-8"@),
        r.1@ == BodyStreamModel::Error(
            Some(
                "<html><head><title>"@ + status_line@ + "</title></head><body><h1>"@ + status_line@
                    + "</h1><p>"@ + message@ + "</p></body></html>"@,
            ),
        ),
{
    proof {
        reveal_strlit("content-type");
        reveal_strlit("text/html; charset=utf-8");
    }
    let name = "content-type".as_bytes_vec();
    let value = "text/html; charset=utf-8".as_bytes_vec();
    proof {
        broadcast use vstd::string::is_ascii_spec_bytes;

        assert(vstd::string::is_ascii("content-type"));
        assert(vstd::string::is_ascii("text/html; charset=utf-8"));
        assert(name@ =~= crate::codec::ascii_bytes("content-type"@));
        assert(value@ =~= crate::codec::ascii_bytes("text/html; charset=utf-8"@));
    }
    let mut headers: Vec<(Vec<u8>, Vec<u8>)> = Vec::new();
    headers.push((name, value));
    let page = error_page(status_line, message);
    let head = ResponseHead { status, headers };
    (head, BodyStream::error(page))
}

} // verus!
