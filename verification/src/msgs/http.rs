//! The HTTP message envelopes and their verified wire codec.
//!
//! Each envelope is a fixed MessagePack map with string keys in a fixed
//! order; byte strings use the binary type. The encoders and decoders are
//! held to spec-level wire functions, and decoding is proved to invert
//! encoding for every encodable value.

use crate::asgi::{AsgiDeserialize, AsgiSerialize};
use crate::channels::ChannelError;
use crate::codec::lemma_ascii_chars_bytes_id;
use crate::codec::{
    all_ascii_bytes, ascii_bytes, chars_of_bytes, enc_bin, enc_bool, enc_headers, enc_map_header,
    enc_str, enc_uint, header_views, headers_encodable, p_bin, p_bool, p_headers, p_key,
    p_map_header, p_str_raw, p_uint, ascii_string_from_bytes, rd_bin, rd_bool, rd_headers, rd_key,
    kv_bin, kv_bool, kv_headers, kv_str, p_bin_field, p_bool_field, p_headers_field, p_str_field,
    rd_bin_field, rd_bool_field, rd_headers_field, rd_map_header, rd_str_field, rd_uint, write_bin,
    write_bool, write_headers, write_kv_bin, write_kv_bool, write_kv_headers, write_kv_str,
    write_map_header, write_str, write_uint, MAX_COMPONENT_LEN,
};
use vstd::prelude::*;
use vstd::string::StringSliceAdditionalSpecFns;

verus! {

/// Caps every header entry must meet, checked before anything is written.
pub fn check_headers(hs: &Vec<(Vec<u8>, Vec<u8>)>) -> (r: bool)
    ensures
        r == headers_encodable(header_views(hs@)),
{
    if hs.len() > MAX_COMPONENT_LEN {
        return false;
    }
    let mut i: usize = 0;
    while i < hs.len()
        invariant
            i <= hs@.len(),
            hs@.len() <= 0xFFFF_FFFF,
            forall|k: int|
                0 <= k < i ==> #[trigger] hs@[k].0@.len() <= 0xFFFF_FFFF && hs@[k].1@.len()
                    <= 0xFFFF_FFFF,
        decreases hs@.len() - i,
    {
        if hs[i].0.len() > MAX_COMPONENT_LEN || hs[i].1.len() > MAX_COMPONENT_LEN {
            proof {
                let k = i as int;
                assert(header_views(hs@)[k] == (hs@[k].0@, hs@[k].1@));
                assert(!(header_views(hs@)[k].0.len() <= 0xFFFF_FFFF
                    && header_views(hs@)[k].1.len() <= 0xFFFF_FFFF));
                assert(!headers_encodable(header_views(hs@)));
            }
            return false;
        }
        i += 1;
    }
    assert forall|k: int| 0 <= k < hs@.len() implies #[trigger] header_views(hs@)[k].0.len()
        <= 0xFFFF_FFFF && header_views(hs@)[k].1.len() <= 0xFFFF_FFFF by {
        assert(header_views(hs@)[k] == (hs@[k].0@, hs@[k].1@));
    }
    true
}

// ---------------------------------------------------------------------------
// Response
// ---------------------------------------------------------------------------

/// An HTTP response envelope, received on the request's reply channel.
#[derive(Debug, Clone, PartialEq, Eq)]
pub struct Response {
    pub status: u16,
    pub headers: Vec<(Vec<u8>, Vec<u8>)>,
    pub content: Vec<u8>,
    pub more_content: bool,
}

/// The mathematical value of a `Response`.
pub ghost struct ResponseModel {
    pub status: u16,
    pub headers: Seq<(Seq<u8>, Seq<u8>)>,
    pub content: Seq<u8>,
    pub more_content: bool,
}

impl View for Response {
    type V = ResponseModel;

    open spec fn view(&self) -> ResponseModel {
        ResponseModel {
            status: self.status,
            headers: header_views(self.headers@),
            content: self.content@,
            more_content: self.more_content,
        }
    }
}

/// Caps a response must meet to be encodable.
pub open spec fn response_encodable(m: ResponseModel) -> bool {
    &&& headers_encodable(m.headers)
    &&& m.content.len() <= 0xFFFF_FFFF
}

/// The wire bytes of a response: a four-key map in fixed order.
pub open spec fn response_wire(m: ResponseModel) -> Seq<u8> {
    enc_map_header(4) + (enc_str("status"@) + (enc_uint(m.status as nat) + (enc_str("headers"@)
        + (enc_headers(m.headers) + (enc_str("content"@) + (enc_bin(m.content) + (enc_str(
        "more_content"@,
    ) + enc_bool(m.more_content))))))))
}

/// What a byte buffer decodes to as a response. The `content` and
/// `more_content` keys may be absent and default to empty and `false`;
/// `status` and `headers` are required.
pub open spec fn dec_response(b: Seq<u8>) -> Option<ResponseModel> {
    match p_map_header(b, 0) {
        Some((n, i0)) => if 2 <= n <= 4 {
            match p_key(b, i0, "status"@) {
                Some(i1) => match p_uint(b, i1) {
                    Some((st, i2)) => if st <= 0xFFFF {
                        match p_key(b, i2, "headers"@) {
                            Some(i3) => match p_headers(b, i3) {
                                Some((hs, i4)) => dec_response_tail(b, i4, n, st as u16, hs),
                                None => None,
                            },
                            None => None,
                        }
                    } else {
                        None
                    },
                    None => None,
                },
                None => None,
            }
        } else {
            None
        },
        None => None,
    }
}

/// The optional tail of a response map: nothing, `content`, `more_content`,
/// or both in that order.
pub open spec fn dec_response_tail(
    b: Seq<u8>,
    i: int,
    n: nat,
    st: u16,
    hs: Seq<(Seq<u8>, Seq<u8>)>,
) -> Option<ResponseModel> {
    if n == 2 {
        Some(ResponseModel { status: st, headers: hs, content: Seq::empty(), more_content: false })
    } else if n == 3 {
        match p_str_raw(b, i) {
            Some((k, j)) => if k == ascii_bytes("content"@) {
                match p_bin(b, j) {
                    Some((ct, _)) => Some(
                        ResponseModel { status: st, headers: hs, content: ct, more_content: false },
                    ),
                    None => None,
                }
            } else if k == ascii_bytes("more_content"@) {
                match p_bool(b, j) {
                    Some((mc, _)) => Some(
                        ResponseModel {
                            status: st,
                            headers: hs,
                            content: Seq::empty(),
                            more_content: mc,
                        },
                    ),
                    None => None,
                }
            } else {
                None
            },
            None => None,
        }
    } else {
        match p_key(b, i, "content"@) {
            Some(i5) => match p_bin(b, i5) {
                Some((ct, i6)) => match p_key(b, i6, "more_content"@) {
                    Some(i7) => match p_bool(b, i7) {
                        Some((mc, _)) => Some(
                            ResponseModel { status: st, headers: hs, content: ct, more_content: mc },
                        ),
                        None => None,
                    },
                    None => None,
                },
                None => None,
            },
            None => None,
        }
    }
}


impl AsgiSerialize for Response {
    open spec fn encodable(&self) -> bool {
        response_encodable(self@)
    }

    open spec fn wire(&self) -> Seq<u8> {
        response_wire(self@)
    }

    fn serialize(&self, buf: &mut Vec<u8>) -> (r: Result<(), ChannelError>) {
        proof {
            reveal_strlit("status");
            reveal_strlit("headers");
            reveal_strlit("content");
            reveal_strlit("more_content");
        }
        if !check_headers(&self.headers) || self.content.len() > MAX_COMPONENT_LEN {
            return Err(ChannelError::MessageTooLarge);
        }
        proof {
            assert forall|k: int|
                0 <= k < self.headers@.len() implies #[trigger] self.headers@[k].0@.len()
                <= 0xFFFF_FFFF && self.headers@[k].1@.len() <= 0xFFFF_FFFF by {
                let hv = header_views(self.headers@);
                assert(hv[k] == (self.headers@[k].0@, self.headers@[k].1@));
                assert(hv[k].0.len() <= 0xFFFF_FFFF && hv[k].1.len() <= 0xFFFF_FFFF);
            }
        }
        write_map_header(buf, 4);
        write_str(buf, "status");
        write_uint(buf, self.status);
        write_str(buf, "headers");
        write_headers(buf, &self.headers);
        write_str(buf, "content");
        write_bin(buf, self.content.as_slice());
        write_str(buf, "more_content");
        write_bool(buf, self.more_content);
        proof {
            let b0 = old(buf)@;
            let a1 = enc_map_header(4);
            let a2 = enc_str("status"@);
            let a3 = enc_uint(self.status as nat);
            let a4 = enc_str("headers"@);
            let a5 = enc_headers(header_views(self.headers@));
            let a6 = enc_str("content"@);
            let a7 = enc_bin(self.content@);
            let a8 = enc_str("more_content"@);
            let a9 = enc_bool(self.more_content);
            vstd::seq_lib::lemma_concat_associative(
                b0 + a1 + a2 + a3 + a4 + a5 + a6 + a7,
                a8,
                a9,
            );
            vstd::seq_lib::lemma_concat_associative(
                b0 + a1 + a2 + a3 + a4 + a5 + a6,
                a7,
                a8 + a9,
            );
            vstd::seq_lib::lemma_concat_associative(
                b0 + a1 + a2 + a3 + a4 + a5,
                a6,
                a7 + (a8 + a9),
            );
            vstd::seq_lib::lemma_concat_associative(
                b0 + a1 + a2 + a3 + a4,
                a5,
                a6 + (a7 + (a8 + a9)),
            );
            vstd::seq_lib::lemma_concat_associative(
                b0 + a1 + a2 + a3,
                a4,
                a5 + (a6 + (a7 + (a8 + a9))),
            );
            vstd::seq_lib::lemma_concat_associative(
                b0 + a1 + a2,
                a3,
                a4 + (a5 + (a6 + (a7 + (a8 + a9)))),
            );
            vstd::seq_lib::lemma_concat_associative(
                b0 + a1,
                a2,
                a3 + (a4 + (a5 + (a6 + (a7 + (a8 + a9))))),
            );
            vstd::seq_lib::lemma_concat_associative(
                b0,
                a1,
                a2 + (a3 + (a4 + (a5 + (a6 + (a7 + (a8 + a9)))))),
            );
            assert(buf@ == b0 + response_wire(self@));
        }
        Ok(())
    }
}

/// The executable mirror of `dec_response_tail`.
fn rd_response_tail(buf: &Vec<u8>, i: usize, n: usize, st: u16, hs: Vec<(Vec<u8>, Vec<u8>)>) -> (r:
    Result<Response, ChannelError>)
    requires
        2 <= n <= 4,
    ensures
        match r {
            Ok(v) => dec_response_tail(buf@, i as int, n as nat, st, header_views(hs@)) == Some(
                v@,
            ),
            Err(e) => dec_response_tail(buf@, i as int, n as nat, st, header_views(hs@)) is None
                && e == ChannelError::Deserialize,
        },
{
    proof {
        reveal_strlit("content");
        reveal_strlit("more_content");
    }
    if n == 2 {
        return Ok(Response { status: st, headers: hs, content: Vec::new(), more_content: false });
    }
    if n == 3 {
        let (k, j) = match crate::codec::rd_str_raw(buf, i) {
            Some(v) => v,
            None => {
                return Err(ChannelError::Deserialize);
            },
        };
        let ck = vstd::string::StrSliceExecFns::as_bytes_vec("content");
        let mk = vstd::string::StrSliceExecFns::as_bytes_vec("more_content");
        proof {
            broadcast use vstd::string::is_ascii_spec_bytes;

            assert(vstd::string::is_ascii("content"));
            assert(vstd::string::is_ascii("more_content"));
            assert(ck@ =~= ascii_bytes("content"@));
            assert(mk@ =~= ascii_bytes("more_content"@));
        }
        if crate::codec::bytes_eq(&k, &ck) {
            let (ct, _j2) = match rd_bin(buf, j) {
                Some(v) => v,
                None => {
                    return Err(ChannelError::Deserialize);
                },
            };
            return Ok(Response { status: st, headers: hs, content: ct, more_content: false });
        }
        if crate::codec::bytes_eq(&k, &mk) {
            let (mc, _j2) = match rd_bool(buf, j) {
                Some(v) => v,
                None => {
                    return Err(ChannelError::Deserialize);
                },
            };
            return Ok(Response { status: st, headers: hs, content: Vec::new(), more_content: mc });
        }
        return Err(ChannelError::Deserialize);
    }
    let i5 = match rd_key(buf, i, "content") {
        Some(v) => v,
        None => {
            return Err(ChannelError::Deserialize);
        },
    };
    let (ct, i6) = match rd_bin(buf, i5) {
        Some(v) => v,
        None => {
            return Err(ChannelError::Deserialize);
        },
    };
    let i7 = match rd_key(buf, i6, "more_content") {
        Some(v) => v,
        None => {
            return Err(ChannelError::Deserialize);
        },
    };
    let (mc, _i8) = match rd_bool(buf, i7) {
        Some(v) => v,
        None => {
            return Err(ChannelError::Deserialize);
        },
    };
    Ok(Response { status: st, headers: hs, content: ct, more_content: mc })
}

impl AsgiDeserialize for Response {
    open spec fn decoded(buf: Seq<u8>) -> Option<ResponseModel> {
        dec_response(buf)
    }

    fn deserialize(buf: &Vec<u8>) -> (r: Result<Self, ChannelError>) {
        proof {
            reveal_strlit("status");
            reveal_strlit("headers");
        }
        let (n, i0) = match rd_map_header(buf, 0) {
            Some(v) => v,
            None => {
                return Err(ChannelError::Deserialize);
            },
        };
        if n < 2 || n > 4 {
            return Err(ChannelError::Deserialize);
        }
        let i1 = match rd_key(buf, i0, "status") {
            Some(v) => v,
            None => {
                return Err(ChannelError::Deserialize);
            },
        };
        let (st, i2) = match rd_uint(buf, i1) {
            Some(v) => v,
            None => {
                return Err(ChannelError::Deserialize);
            },
        };
        if st > 0xFFFF {
            return Err(ChannelError::Deserialize);
        }
        let i3 = match rd_key(buf, i2, "headers") {
            Some(v) => v,
            None => {
                return Err(ChannelError::Deserialize);
            },
        };
        let (hs, i4) = match rd_headers(buf, i3) {
            Some(v) => v,
            None => {
                return Err(ChannelError::Deserialize);
            },
        };
        rd_response_tail(buf, i4, n, st as u16, hs)
    }
}

/// Decoding inverts encoding for every encodable response.
#[verifier::rlimit(100)]
#[verifier::spinoff_prover]
pub proof fn lemma_response_round_trip(m: ResponseModel)
    requires
        response_encodable(m),
    ensures
        dec_response(response_wire(m)) == Some(m),
{
    reveal_strlit("status");
    reveal_strlit("headers");
    reveal_strlit("content");
    reveal_strlit("more_content");
    let b = response_wire(m);
    assert(b.subrange(0, b.len() as int) =~= b);
    let r1 = enc_str("status"@) + (enc_uint(m.status as nat) + (enc_str("headers"@) + (enc_headers(
        m.headers,
    ) + (enc_str("content"@) + (enc_bin(m.content) + (enc_str("more_content"@) + enc_bool(
        m.more_content,
    )))))));
    crate::codec::lemma_starts_with_concat(b, 0, enc_map_header(4), r1);
    crate::codec::lemma_p_map_header_inv(b, 0, 4);
    let i0 = 1int;
    let r2 = enc_uint(m.status as nat) + (enc_str("headers"@) + (enc_headers(m.headers) + (enc_str(
        "content"@,
    ) + (enc_bin(m.content) + (enc_str("more_content"@) + enc_bool(m.more_content))))));
    crate::codec::lemma_starts_with_concat(b, i0, enc_str("status"@), r2);
    crate::codec::lemma_p_key_inv(b, i0, "status"@);
    let i1 = i0 + enc_str("status"@).len();
    let r3 = enc_str("headers"@) + (enc_headers(m.headers) + (enc_str("content"@) + (enc_bin(
        m.content,
    ) + (enc_str("more_content"@) + enc_bool(m.more_content)))));
    crate::codec::lemma_starts_with_concat(b, i1, enc_uint(m.status as nat), r3);
    crate::codec::lemma_p_uint_inv(b, i1, m.status as nat);
    let i2 = i1 + enc_uint(m.status as nat).len();
    let r4 = enc_headers(m.headers) + (enc_str("content"@) + (enc_bin(m.content) + (enc_str(
        "more_content"@,
    ) + enc_bool(m.more_content))));
    crate::codec::lemma_starts_with_concat(b, i2, enc_str("headers"@), r4);
    crate::codec::lemma_p_key_inv(b, i2, "headers"@);
    let i3 = i2 + enc_str("headers"@).len();
    let r5 = enc_str("content"@) + (enc_bin(m.content) + (enc_str("more_content"@) + enc_bool(
        m.more_content,
    )));
    crate::codec::lemma_starts_with_concat(b, i3, enc_headers(m.headers), r5);
    crate::codec::lemma_p_headers_inv(b, i3, m.headers);
    let i4 = i3 + enc_headers(m.headers).len();
    let r6 = enc_bin(m.content) + (enc_str("more_content"@) + enc_bool(m.more_content));
    crate::codec::lemma_starts_with_concat(b, i4, enc_str("content"@), r6);
    crate::codec::lemma_p_key_inv(b, i4, "content"@);
    let i5 = i4 + enc_str("content"@).len();
    let r7 = enc_str("more_content"@) + enc_bool(m.more_content);
    crate::codec::lemma_starts_with_concat(b, i5, enc_bin(m.content), r7);
    crate::codec::lemma_p_bin_inv(b, i5, m.content);
    let i6 = i5 + enc_bin(m.content).len();
    crate::codec::lemma_starts_with_concat(b, i6, enc_str("more_content"@), enc_bool(
        m.more_content,
    ));
    crate::codec::lemma_p_key_inv(b, i6, "more_content"@);
    let i7 = i6 + enc_str("more_content"@).len();
    crate::codec::lemma_p_bool_inv(b, i7, m.more_content);
}


// ---------------------------------------------------------------------------
// Response body chunk
// ---------------------------------------------------------------------------

/// A chunk of a streamed response body.
#[derive(Debug, Clone, PartialEq, Eq)]
pub struct ResponseBodyChunk {
    pub content: Vec<u8>,
    pub more_content: bool,
}

/// The mathematical value of a `ResponseBodyChunk`.
pub ghost struct ResponseBodyChunkModel {
    pub content: Seq<u8>,
    pub more_content: bool,
}

impl View for ResponseBodyChunk {
    type V = ResponseBodyChunkModel;

    open spec fn view(&self) -> ResponseBodyChunkModel {
        ResponseBodyChunkModel { content: self.content@, more_content: self.more_content }
    }
}

/// Caps a response body chunk must meet to be encodable.
pub open spec fn response_chunk_encodable(m: ResponseBodyChunkModel) -> bool {
    m.content.len() <= 0xFFFF_FFFF
}

/// The wire bytes of a response body chunk: a two-key map in fixed order.
pub open spec fn response_chunk_wire(m: ResponseBodyChunkModel) -> Seq<u8> {
    enc_map_header(2) + (kv_bin("content"@, m.content) + kv_bool("more_content"@, m.more_content))
}

/// What a byte buffer decodes to as a response body chunk. The `content`
/// key may be absent and defaults to empty; `more_content` is required.
pub open spec fn dec_response_chunk(b: Seq<u8>) -> Option<ResponseBodyChunkModel> {
    match p_map_header(b, 0) {
        Some((n, i0)) => if n == 1 {
            match p_bool_field(b, i0, "more_content"@) {
                Some((mc, _)) => Some(
                    ResponseBodyChunkModel { content: Seq::empty(), more_content: mc },
                ),
                None => None,
            }
        } else if n == 2 {
            match p_bin_field(b, i0, "content"@) {
                Some((ct, i1)) => match p_bool_field(b, i1, "more_content"@) {
                    Some((mc, _)) => Some(
                        ResponseBodyChunkModel { content: ct, more_content: mc },
                    ),
                    None => None,
                },
                None => None,
            }
        } else {
            None
        },
        None => None,
    }
}

impl AsgiSerialize for ResponseBodyChunk {
    open spec fn encodable(&self) -> bool {
        response_chunk_encodable(self@)
    }

    open spec fn wire(&self) -> Seq<u8> {
        response_chunk_wire(self@)
    }

    fn serialize(&self, buf: &mut Vec<u8>) -> (r: Result<(), ChannelError>) {
        proof {
            reveal_strlit("content");
            reveal_strlit("more_content");
        }
        if self.content.len() > MAX_COMPONENT_LEN {
            return Err(ChannelError::MessageTooLarge);
        }
        write_map_header(buf, 2);
        write_kv_bin(buf, "content", self.content.as_slice());
        write_kv_bool(buf, "more_content", self.more_content);
        proof {
            let b0 = old(buf)@;
            let a1 = enc_map_header(2);
            let a2 = kv_bin("content"@, self.content@);
            let a3 = kv_bool("more_content"@, self.more_content);
            vstd::seq_lib::lemma_concat_associative(b0, a1, a2 + a3);
            vstd::seq_lib::lemma_concat_associative(b0 + a1, a2, a3);
            assert(buf@ == b0 + response_chunk_wire(self@));
        }
        Ok(())
    }
}

impl AsgiDeserialize for ResponseBodyChunk {
    open spec fn decoded(buf: Seq<u8>) -> Option<ResponseBodyChunkModel> {
        dec_response_chunk(buf)
    }

    fn deserialize(buf: &Vec<u8>) -> (r: Result<Self, ChannelError>) {
        proof {
            reveal_strlit("content");
            reveal_strlit("more_content");
        }
        let (n, i0) = match rd_map_header(buf, 0) {
            Some(v) => v,
            None => {
                return Err(ChannelError::Deserialize);
            },
        };
        if n == 1 {
            let (mc, _i1) = match rd_bool_field(buf, i0, "more_content") {
                Some(v) => v,
                None => {
                    return Err(ChannelError::Deserialize);
                },
            };
            return Ok(ResponseBodyChunk { content: Vec::new(), more_content: mc });
        }
        if n == 2 {
            let (ct, i1) = match rd_bin_field(buf, i0, "content") {
                Some(v) => v,
                None => {
                    return Err(ChannelError::Deserialize);
                },
            };
            let (mc, _i2) = match rd_bool_field(buf, i1, "more_content") {
                Some(v) => v,
                None => {
                    return Err(ChannelError::Deserialize);
                },
            };
            return Ok(ResponseBodyChunk { content: ct, more_content: mc });
        }
        Err(ChannelError::Deserialize)
    }
}

/// Decoding inverts encoding for every encodable response body chunk.
pub proof fn lemma_response_chunk_round_trip(m: ResponseBodyChunkModel)
    requires
        response_chunk_encodable(m),
    ensures
        dec_response_chunk(response_chunk_wire(m)) == Some(m),
{
    reveal_strlit("content");
    reveal_strlit("more_content");
    let b = response_chunk_wire(m);
    assert(b.subrange(0, b.len() as int) =~= b);
    let r1 = kv_bin("content"@, m.content) + kv_bool("more_content"@, m.more_content);
    crate::codec::lemma_starts_with_concat(b, 0, enc_map_header(2), r1);
    crate::codec::lemma_p_map_header_inv(b, 0, 2);
    crate::codec::lemma_starts_with_concat(b, 1, kv_bin("content"@, m.content), kv_bool(
        "more_content"@,
        m.more_content,
    ));
    crate::codec::lemma_p_bin_field_inv(b, 1, "content"@, m.content);
    let i1: int = 1 + kv_bin("content"@, m.content).len() as int;
    crate::codec::lemma_p_bool_field_inv(b, i1, "more_content"@, m.more_content);
}

// ---------------------------------------------------------------------------
// Request body chunk
// ---------------------------------------------------------------------------

/// A chunk of a large request body, sent on the per-request body channel.
#[derive(Debug, Clone, PartialEq, Eq)]
pub struct RequestBodyChunk {
    pub content: Vec<u8>,
    pub closed: bool,
    pub more_content: bool,
}

/// The mathematical value of a `RequestBodyChunk`.
pub ghost struct RequestBodyChunkModel {
    pub content: Seq<u8>,
    pub closed: bool,
    pub more_content: bool,
}

impl View for RequestBodyChunk {
    type V = RequestBodyChunkModel;

    open spec fn view(&self) -> RequestBodyChunkModel {
        RequestBodyChunkModel {
            content: self.content@,
            closed: self.closed,
            more_content: self.more_content,
        }
    }
}

/// Caps a request body chunk must meet to be encodable.
pub open spec fn request_chunk_encodable(m: RequestBodyChunkModel) -> bool {
    m.content.len() <= 0xFFFF_FFFF
}

/// The wire bytes of a request body chunk: a three-key map in fixed order.
pub open spec fn request_chunk_wire(m: RequestBodyChunkModel) -> Seq<u8> {
    enc_map_header(3) + (kv_bin("content"@, m.content) + (kv_bool("closed"@, m.closed) + kv_bool(
        "more_content"@,
        m.more_content,
    )))
}

/// What a byte buffer decodes to as a request body chunk; all three keys are
/// required.
pub open spec fn dec_request_chunk(b: Seq<u8>) -> Option<RequestBodyChunkModel> {
    match p_map_header(b, 0) {
        Some((n, i0)) => if n == 3 {
            match p_bin_field(b, i0, "content"@) {
                Some((ct, i1)) => match p_bool_field(b, i1, "closed"@) {
                    Some((cl, i2)) => match p_bool_field(b, i2, "more_content"@) {
                        Some((mc, _)) => Some(
                            RequestBodyChunkModel { content: ct, closed: cl, more_content: mc },
                        ),
                        None => None,
                    },
                    None => None,
                },
                None => None,
            }
        } else {
            None
        },
        None => None,
    }
}

impl AsgiSerialize for RequestBodyChunk {
    open spec fn encodable(&self) -> bool {
        request_chunk_encodable(self@)
    }

    open spec fn wire(&self) -> Seq<u8> {
        request_chunk_wire(self@)
    }

    fn serialize(&self, buf: &mut Vec<u8>) -> (r: Result<(), ChannelError>) {
        proof {
            reveal_strlit("content");
            reveal_strlit("closed");
            reveal_strlit("more_content");
        }
        if self.content.len() > MAX_COMPONENT_LEN {
            return Err(ChannelError::MessageTooLarge);
        }
        write_map_header(buf, 3);
        write_kv_bin(buf, "content", self.content.as_slice());
        write_kv_bool(buf, "closed", self.closed);
        write_kv_bool(buf, "more_content", self.more_content);
        proof {
            let b0 = old(buf)@;
            let a1 = enc_map_header(3);
            let a2 = kv_bin("content"@, self.content@);
            let a3 = kv_bool("closed"@, self.closed);
            let a4 = kv_bool("more_content"@, self.more_content);
            vstd::seq_lib::lemma_concat_associative(b0 + a1 + a2, a3, a4);
            vstd::seq_lib::lemma_concat_associative(b0 + a1, a2, a3 + a4);
            vstd::seq_lib::lemma_concat_associative(b0, a1, a2 + (a3 + a4));
            assert(buf@ == b0 + request_chunk_wire(self@));
        }
        Ok(())
    }
}

impl AsgiDeserialize for RequestBodyChunk {
    open spec fn decoded(buf: Seq<u8>) -> Option<RequestBodyChunkModel> {
        dec_request_chunk(buf)
    }

    fn deserialize(buf: &Vec<u8>) -> (r: Result<Self, ChannelError>) {
        proof {
            reveal_strlit("content");
            reveal_strlit("closed");
            reveal_strlit("more_content");
        }
        let (n, i0) = match rd_map_header(buf, 0) {
            Some(v) => v,
            None => {
                return Err(ChannelError::Deserialize);
            },
        };
        if n != 3 {
            return Err(ChannelError::Deserialize);
        }
        let (ct, i1) = match rd_bin_field(buf, i0, "content") {
            Some(v) => v,
            None => {
                return Err(ChannelError::Deserialize);
            },
        };
        let (cl, i2) = match rd_bool_field(buf, i1, "closed") {
            Some(v) => v,
            None => {
                return Err(ChannelError::Deserialize);
            },
        };
        let (mc, _i3) = match rd_bool_field(buf, i2, "more_content") {
            Some(v) => v,
            None => {
                return Err(ChannelError::Deserialize);
            },
        };
        Ok(RequestBodyChunk { content: ct, closed: cl, more_content: mc })
    }
}

/// Decoding inverts encoding for every encodable request body chunk.
pub proof fn lemma_request_chunk_round_trip(m: RequestBodyChunkModel)
    requires
        request_chunk_encodable(m),
    ensures
        dec_request_chunk(request_chunk_wire(m)) == Some(m),
{
    reveal_strlit("content");
    reveal_strlit("closed");
    reveal_strlit("more_content");
    let b = request_chunk_wire(m);
    assert(b.subrange(0, b.len() as int) =~= b);
    let r1 = kv_bin("content"@, m.content) + (kv_bool("closed"@, m.closed) + kv_bool(
        "more_content"@,
        m.more_content,
    ));
    crate::codec::lemma_starts_with_concat(b, 0, enc_map_header(3), r1);
    crate::codec::lemma_p_map_header_inv(b, 0, 3);
    let r2 = kv_bool("closed"@, m.closed) + kv_bool("more_content"@, m.more_content);
    crate::codec::lemma_starts_with_concat(b, 1, kv_bin("content"@, m.content), r2);
    crate::codec::lemma_p_bin_field_inv(b, 1, "content"@, m.content);
    let i1: int = 1 + kv_bin("content"@, m.content).len() as int;
    crate::codec::lemma_starts_with_concat(b, i1, kv_bool("closed"@, m.closed), kv_bool(
        "more_content"@,
        m.more_content,
    ));
    crate::codec::lemma_p_bool_field_inv(b, i1, "closed"@, m.closed);
    let i2: int = i1 + kv_bool("closed"@, m.closed).len() as int;
    crate::codec::lemma_p_bool_field_inv(b, i2, "more_content"@, m.more_content);
}


// ---------------------------------------------------------------------------
// Request
// ---------------------------------------------------------------------------

/// An HTTP request envelope, sent on the fixed `http.request` channel.
#[derive(Debug, Clone, PartialEq, Eq)]
pub struct Request {
    pub reply_channel: String,
    pub http_version: String,
    pub method: String,
    pub path: String,
    pub query_string: String,
    pub headers: Vec<(Vec<u8>, Vec<u8>)>,
    pub body: Vec<u8>,
    pub body_channel: Option<String>,
}

/// The mathematical value of a `Request`.
pub ghost struct RequestModel {
    pub reply_channel: Seq<char>,
    pub http_version: Seq<char>,
    pub method: Seq<char>,
    pub path: Seq<char>,
    pub query_string: Seq<char>,
    pub headers: Seq<(Seq<u8>, Seq<u8>)>,
    pub body: Seq<u8>,
    pub body_channel: Option<Seq<char>>,
}

impl View for Request {
    type V = RequestModel;

    open spec fn view(&self) -> RequestModel {
        RequestModel {
            reply_channel: self.reply_channel@,
            http_version: self.http_version@,
            method: self.method@,
            path: self.path@,
            query_string: self.query_string@,
            headers: header_views(self.headers@),
            body: self.body@,
            body_channel: match self.body_channel {
                Some(c) => Some(c@),
                None => None,
            },
        }
    }
}

/// A string the wire format can carry: ASCII, within the length cap.
pub open spec fn str_encodable(s: Seq<char>) -> bool {
    &&& vstd::utf8::is_ascii_chars(s)
    &&& s.len() <= 0xFFFF_FFFF
}

/// Caps a request must meet to be encodable.
pub open spec fn request_encodable(m: RequestModel) -> bool {
    &&& str_encodable(m.reply_channel)
    &&& str_encodable(m.http_version)
    &&& str_encodable(m.method)
    &&& str_encodable(m.path)
    &&& str_encodable(m.query_string)
    &&& headers_encodable(m.headers)
    &&& m.body.len() <= 0xFFFF_FFFF
    &&& match m.body_channel {
        Some(c) => str_encodable(c),
        None => true,
    }
}

/// The number of keys a request map carries: the `body_channel` key is
/// present exactly when more body chunks follow on a body channel.
pub open spec fn request_key_count(m: RequestModel) -> nat {
    if m.body_channel is Some {
        8
    } else {
        7
    }
}

/// The trailing `body_channel` field, or nothing.
pub open spec fn request_wire_tail(bc: Option<Seq<char>>) -> Seq<u8> {
    match bc {
        Some(c) => kv_str("body_channel"@, c),
        None => Seq::empty(),
    }
}

/// The wire bytes of a request: a seven- or eight-key map in fixed order.
pub open spec fn request_wire(m: RequestModel) -> Seq<u8> {
    enc_map_header(request_key_count(m)) + (kv_str("reply_channel"@, m.reply_channel) + (kv_str(
        "http_version"@,
        m.http_version,
    ) + (kv_str("method"@, m.method) + (kv_str("path"@, m.path) + (kv_str(
        "query_string"@,
        m.query_string,
    ) + (kv_headers("headers"@, m.headers) + (kv_bin("body"@, m.body) + request_wire_tail(
        m.body_channel,
    ))))))))
}

/// The view of an optional parsed payload.
pub open spec fn opt_bytes_view(bc: Option<Vec<u8>>) -> Option<Seq<u8>> {
    match bc {
        Some(v) => Some(v@),
        None => None,
    }
}

/// Builds a request model from parsed payloads, requiring every string
/// payload to be ASCII.
pub open spec fn dec_request_finish(
    rc: Seq<u8>,
    hv: Seq<u8>,
    me: Seq<u8>,
    pa: Seq<u8>,
    qs: Seq<u8>,
    hs: Seq<(Seq<u8>, Seq<u8>)>,
    bd: Seq<u8>,
    bc: Option<Seq<u8>>,
) -> Option<RequestModel> {
    if all_ascii_bytes(rc) && all_ascii_bytes(hv) && all_ascii_bytes(me) && all_ascii_bytes(pa)
        && all_ascii_bytes(qs) && (match bc {
        Some(c) => all_ascii_bytes(c),
        None => true,
    }) {
        Some(
            RequestModel {
                reply_channel: chars_of_bytes(rc),
                http_version: chars_of_bytes(hv),
                method: chars_of_bytes(me),
                path: chars_of_bytes(pa),
                query_string: chars_of_bytes(qs),
                headers: hs,
                body: bd,
                body_channel: match bc {
                    Some(c) => Some(chars_of_bytes(c)),
                    None => None,
                },
            },
        )
    } else {
        None
    }
}

/// The tail of a request map: nothing more, or the `body_channel` field.
pub open spec fn dec_request_tail(
    b: Seq<u8>,
    i: int,
    n: nat,
    rc: Seq<u8>,
    hv: Seq<u8>,
    me: Seq<u8>,
    pa: Seq<u8>,
    qs: Seq<u8>,
    hs: Seq<(Seq<u8>, Seq<u8>)>,
    bd: Seq<u8>,
) -> Option<RequestModel> {
    if n == 7 {
        dec_request_finish(rc, hv, me, pa, qs, hs, bd, None)
    } else {
        match p_str_field(b, i, "body_channel"@) {
            Some((bc, _)) => dec_request_finish(rc, hv, me, pa, qs, hs, bd, Some(bc)),
            None => None,
        }
    }
}

/// What a byte buffer decodes to as a request; the first seven keys are
/// required, in order.
pub open spec fn dec_request(b: Seq<u8>) -> Option<RequestModel> {
    match p_map_header(b, 0) {
        Some((n, i0)) => if n == 7 || n == 8 {
            match p_str_field(b, i0, "reply_channel"@) {
                Some((rc, i1)) => match p_str_field(b, i1, "http_version"@) {
                    Some((hv, i2)) => match p_str_field(b, i2, "method"@) {
                        Some((me, i3)) => match p_str_field(b, i3, "path"@) {
                            Some((pa, i4)) => match p_str_field(b, i4, "query_string"@) {
                                Some((qs, i5)) => match p_headers_field(b, i5, "headers"@) {
                                    Some((hs, i6)) => match p_bin_field(b, i6, "body"@) {
                                        Some((bd, i7)) => dec_request_tail(
                                            b,
                                            i7,
                                            n,
                                            rc,
                                            hv,
                                            me,
                                            pa,
                                            qs,
                                            hs,
                                            bd,
                                        ),
                                        None => None,
                                    },
                                    None => None,
                                },
                                None => None,
                            },
                            None => None,
                        },
                        None => None,
                    },
                    None => None,
                },
                None => None,
            }
        } else {
            None
        },
        None => None,
    }
}

/// Checks the length cap on an ASCII string.
fn ascii_len_ok(s: &str) -> (r: bool)
    requires
        s.is_ascii(),
    ensures
        r == (s@.len() <= 0xFFFF_FFFF),
{
    let bytes = s.as_bytes();
    proof {
        broadcast use vstd::string::is_ascii_spec_bytes;

        assert(bytes@ == s.spec_bytes());
        assert(s.spec_bytes().len() == s@.len());
    }
    bytes.len() <= MAX_COMPONENT_LEN
}

impl AsgiSerialize for Request {
    open spec fn encodable(&self) -> bool {
        request_encodable(self@)
    }

    open spec fn wire(&self) -> Seq<u8> {
        request_wire(self@)
    }

    fn serialize(&self, buf: &mut Vec<u8>) -> (r: Result<(), ChannelError>) {
        proof {
            reveal_strlit("reply_channel");
            reveal_strlit("http_version");
            reveal_strlit("method");
            reveal_strlit("path");
            reveal_strlit("query_string");
            reveal_strlit("headers");
            reveal_strlit("body");
            reveal_strlit("body_channel");
        }
        let ascii_ok = self.reply_channel.as_str().is_ascii() && self.http_version.as_str()
            .is_ascii() && self.method.as_str().is_ascii() && self.path.as_str().is_ascii()
            && self.query_string.as_str().is_ascii() && (match &self.body_channel {
            Some(c) => c.as_str().is_ascii(),
            None => true,
        });
        if !ascii_ok {
            return Err(ChannelError::Serialize);
        }
        let size_ok = ascii_len_ok(self.reply_channel.as_str()) && ascii_len_ok(
            self.http_version.as_str(),
        ) && ascii_len_ok(self.method.as_str()) && ascii_len_ok(self.path.as_str()) && ascii_len_ok(
            self.query_string.as_str(),
        ) && check_headers(&self.headers) && self.body.len() <= MAX_COMPONENT_LEN && (
        match &self.body_channel {
            Some(c) => ascii_len_ok(c.as_str()),
            None => true,
        });
        if !size_ok {
            return Err(ChannelError::MessageTooLarge);
        }
        proof {
            assert forall|k: int|
                0 <= k < self.headers@.len() implies #[trigger] self.headers@[k].0@.len()
                <= 0xFFFF_FFFF && self.headers@[k].1@.len() <= 0xFFFF_FFFF by {
                let hv = header_views(self.headers@);
                assert(hv[k] == (self.headers@[k].0@, self.headers@[k].1@));
                assert(hv[k].0.len() <= 0xFFFF_FFFF && hv[k].1.len() <= 0xFFFF_FFFF);
            }
        }
        match &self.body_channel {
            None => {
                write_map_header(buf, 7);
                write_kv_str(buf, "reply_channel", self.reply_channel.as_str());
                write_kv_str(buf, "http_version", self.http_version.as_str());
                write_kv_str(buf, "method", self.method.as_str());
                write_kv_str(buf, "path", self.path.as_str());
                write_kv_str(buf, "query_string", self.query_string.as_str());
                write_kv_headers(buf, "headers", &self.headers);
                write_kv_bin(buf, "body", self.body.as_slice());
                proof {
                    let b0 = old(buf)@;
                    let a1 = enc_map_header(7);
                    let a2 = kv_str("reply_channel"@, self.reply_channel@);
                    let a3 = kv_str("http_version"@, self.http_version@);
                    let a4 = kv_str("method"@, self.method@);
                    let a5 = kv_str("path"@, self.path@);
                    let a6 = kv_str("query_string"@, self.query_string@);
                    let a7 = kv_headers("headers"@, header_views(self.headers@));
                    let a8 = kv_bin("body"@, self.body@);
                    let t8 = a8 + request_wire_tail(self@.body_channel);
                    assert(t8 =~= a8);
                    vstd::seq_lib::lemma_concat_associative(
                        b0 + a1 + a2 + a3 + a4 + a5 + a6,
                        a7,
                        t8,
                    );
                    vstd::seq_lib::lemma_concat_associative(
                        b0 + a1 + a2 + a3 + a4 + a5,
                        a6,
                        a7 + t8,
                    );
                    vstd::seq_lib::lemma_concat_associative(
                        b0 + a1 + a2 + a3 + a4,
                        a5,
                        a6 + (a7 + t8),
                    );
                    vstd::seq_lib::lemma_concat_associative(
                        b0 + a1 + a2 + a3,
                        a4,
                        a5 + (a6 + (a7 + t8)),
                    );
                    vstd::seq_lib::lemma_concat_associative(
                        b0 + a1 + a2,
                        a3,
                        a4 + (a5 + (a6 + (a7 + t8))),
                    );
                    vstd::seq_lib::lemma_concat_associative(
                        b0 + a1,
                        a2,
                        a3 + (a4 + (a5 + (a6 + (a7 + t8)))),
                    );
                    vstd::seq_lib::lemma_concat_associative(
                        b0,
                        a1,
                        a2 + (a3 + (a4 + (a5 + (a6 + (a7 + t8))))),
                    );
                    assert(buf@ == b0 + request_wire(self@));
                }
            },
            Some(c) => {
                write_map_header(buf, 8);
                write_kv_str(buf, "reply_channel", self.reply_channel.as_str());
                write_kv_str(buf, "http_version", self.http_version.as_str());
                write_kv_str(buf, "method", self.method.as_str());
                write_kv_str(buf, "path", self.path.as_str());
                write_kv_str(buf, "query_string", self.query_string.as_str());
                write_kv_headers(buf, "headers", &self.headers);
                write_kv_bin(buf, "body", self.body.as_slice());
                write_kv_str(buf, "body_channel", c.as_str());
                proof {
                    let b0 = old(buf)@;
                    let a1 = enc_map_header(8);
                    let a2 = kv_str("reply_channel"@, self.reply_channel@);
                    let a3 = kv_str("http_version"@, self.http_version@);
                    let a4 = kv_str("method"@, self.method@);
                    let a5 = kv_str("path"@, self.path@);
                    let a6 = kv_str("query_string"@, self.query_string@);
                    let a7 = kv_headers("headers"@, header_views(self.headers@));
                    let a8 = kv_bin("body"@, self.body@);
                    let a9 = request_wire_tail(self@.body_channel);
                    assert(a9 == kv_str("body_channel"@, c@));
                    vstd::seq_lib::lemma_concat_associative(
                        b0 + a1 + a2 + a3 + a4 + a5 + a6 + a7,
                        a8,
                        a9,
                    );
                    vstd::seq_lib::lemma_concat_associative(
                        b0 + a1 + a2 + a3 + a4 + a5 + a6,
                        a7,
                        a8 + a9,
                    );
                    vstd::seq_lib::lemma_concat_associative(
                        b0 + a1 + a2 + a3 + a4 + a5,
                        a6,
                        a7 + (a8 + a9),
                    );
                    vstd::seq_lib::lemma_concat_associative(
                        b0 + a1 + a2 + a3 + a4,
                        a5,
                        a6 + (a7 + (a8 + a9)),
                    );
                    vstd::seq_lib::lemma_concat_associative(
                        b0 + a1 + a2 + a3,
                        a4,
                        a5 + (a6 + (a7 + (a8 + a9))),
                    );
                    vstd::seq_lib::lemma_concat_associative(
                        b0 + a1 + a2,
                        a3,
                        a4 + (a5 + (a6 + (a7 + (a8 + a9)))),
                    );
                    vstd::seq_lib::lemma_concat_associative(
                        b0 + a1,
                        a2,
                        a3 + (a4 + (a5 + (a6 + (a7 + (a8 + a9))))),
                    );
                    vstd::seq_lib::lemma_concat_associative(
                        b0,
                        a1,
                        a2 + (a3 + (a4 + (a5 + (a6 + (a7 + (a8 + a9)))))),
                    );
                    assert(buf@ == b0 + request_wire(self@));
                }
            },
        }
        Ok(())
    }
}

/// Converts parsed payloads into a `Request`, mirroring
/// `dec_request_finish`.
fn request_from_parts(
    rc: Vec<u8>,
    hv: Vec<u8>,
    me: Vec<u8>,
    pa: Vec<u8>,
    qs: Vec<u8>,
    hs: Vec<(Vec<u8>, Vec<u8>)>,
    bd: Vec<u8>,
    bc: Option<Vec<u8>>,
) -> (r: Result<Request, ChannelError>)
    ensures
        match r {
            Ok(v) => dec_request_finish(
                rc@,
                hv@,
                me@,
                pa@,
                qs@,
                header_views(hs@),
                bd@,
                opt_bytes_view(bc),
            ) == Some(v@),
            Err(e) => dec_request_finish(
                rc@,
                hv@,
                me@,
                pa@,
                qs@,
                header_views(hs@),
                bd@,
                opt_bytes_view(bc),
            ) is None && e == ChannelError::Deserialize,
        },
{
    let rc_s = match ascii_string_from_bytes(&rc) {
        Some(s) => s,
        None => {
            return Err(ChannelError::Deserialize);
        },
    };
    let hv_s = match ascii_string_from_bytes(&hv) {
        Some(s) => s,
        None => {
            return Err(ChannelError::Deserialize);
        },
    };
    let me_s = match ascii_string_from_bytes(&me) {
        Some(s) => s,
        None => {
            return Err(ChannelError::Deserialize);
        },
    };
    let pa_s = match ascii_string_from_bytes(&pa) {
        Some(s) => s,
        None => {
            return Err(ChannelError::Deserialize);
        },
    };
    let qs_s = match ascii_string_from_bytes(&qs) {
        Some(s) => s,
        None => {
            return Err(ChannelError::Deserialize);
        },
    };
    let bc_s = match bc {
        Some(cv) => match ascii_string_from_bytes(&cv) {
            Some(s) => Some(s),
            None => {
                return Err(ChannelError::Deserialize);
            },
        },
        None => None,
    };
    Ok(
        Request {
            reply_channel: rc_s,
            http_version: hv_s,
            method: me_s,
            path: pa_s,
            query_string: qs_s,
            headers: hs,
            body: bd,
            body_channel: bc_s,
        },
    )
}

/// The executable mirror of `dec_request_tail`.
fn rd_request_tail(
    buf: &Vec<u8>,
    i: usize,
    n: usize,
    rc: Vec<u8>,
    hv: Vec<u8>,
    me: Vec<u8>,
    pa: Vec<u8>,
    qs: Vec<u8>,
    hs: Vec<(Vec<u8>, Vec<u8>)>,
    bd: Vec<u8>,
) -> (r: Result<Request, ChannelError>)
    requires
        n == 7 || n == 8,
    ensures
        match r {
            Ok(v) => dec_request_tail(
                buf@,
                i as int,
                n as nat,
                rc@,
                hv@,
                me@,
                pa@,
                qs@,
                header_views(hs@),
                bd@,
            ) == Some(v@),
            Err(e) => dec_request_tail(
                buf@,
                i as int,
                n as nat,
                rc@,
                hv@,
                me@,
                pa@,
                qs@,
                header_views(hs@),
                bd@,
            ) is None && e == ChannelError::Deserialize,
        },
{
    proof {
        reveal_strlit("body_channel");
    }
    if n == 7 {
        request_from_parts(rc, hv, me, pa, qs, hs, bd, None)
    } else {
        let (bc, _i8) = match rd_str_field(buf, i, "body_channel") {
            Some(v) => v,
            None => {
                return Err(ChannelError::Deserialize);
            },
        };
        request_from_parts(rc, hv, me, pa, qs, hs, bd, Some(bc))
    }
}

impl AsgiDeserialize for Request {
    open spec fn decoded(buf: Seq<u8>) -> Option<RequestModel> {
        dec_request(buf)
    }

    #[verifier::rlimit(100)]
    #[verifier::spinoff_prover]
    fn deserialize(buf: &Vec<u8>) -> (r: Result<Self, ChannelError>) {
        proof {
            reveal_strlit("reply_channel");
            reveal_strlit("http_version");
            reveal_strlit("method");
            reveal_strlit("path");
            reveal_strlit("query_string");
            reveal_strlit("headers");
            reveal_strlit("body");
            reveal_strlit("body_channel");
        }
        let (n, i0) = match rd_map_header(buf, 0) {
            Some(v) => v,
            None => {
                return Err(ChannelError::Deserialize);
            },
        };
        if n != 7 && n != 8 {
            return Err(ChannelError::Deserialize);
        }
        let (rc, i1) = match rd_str_field(buf, i0, "reply_channel") {
            Some(v) => v,
            None => {
                return Err(ChannelError::Deserialize);
            },
        };
        let (hv, i2) = match rd_str_field(buf, i1, "http_version") {
            Some(v) => v,
            None => {
                return Err(ChannelError::Deserialize);
            },
        };
        let (me, i3) = match rd_str_field(buf, i2, "method") {
            Some(v) => v,
            None => {
                return Err(ChannelError::Deserialize);
            },
        };
        let (pa, i4) = match rd_str_field(buf, i3, "path") {
            Some(v) => v,
            None => {
                return Err(ChannelError::Deserialize);
            },
        };
        let (qs, i5) = match rd_str_field(buf, i4, "query_string") {
            Some(v) => v,
            None => {
                return Err(ChannelError::Deserialize);
            },
        };
        let (hs, i6) = match rd_headers_field(buf, i5, "headers") {
            Some(v) => v,
            None => {
                return Err(ChannelError::Deserialize);
            },
        };
        let (bd, i7) = match rd_bin_field(buf, i6, "body") {
            Some(v) => v,
            None => {
                return Err(ChannelError::Deserialize);
            },
        };
        rd_request_tail(buf, i7, n, rc, hv, me, pa, qs, hs, bd)
    }
}


/// Decoding inverts encoding for every encodable request.
#[verifier::rlimit(100)]
#[verifier::spinoff_prover]
pub proof fn lemma_request_round_trip(m: RequestModel)
    requires
        request_encodable(m),
    ensures
        dec_request(request_wire(m)) == Some(m),
{
    reveal_strlit("reply_channel");
    reveal_strlit("http_version");
    reveal_strlit("method");
    reveal_strlit("path");
    reveal_strlit("query_string");
    reveal_strlit("headers");
    reveal_strlit("body");
    reveal_strlit("body_channel");
    let b = request_wire(m);
    assert(b.subrange(0, b.len() as int) =~= b);
    let n = request_key_count(m);
    let r1 = kv_str("reply_channel"@, m.reply_channel) + (kv_str("http_version"@, m.http_version) + (kv_str("method"@, m.method) + (kv_str("path"@, m.path) + (kv_str("query_string"@, m.query_string) + (kv_headers("headers"@, m.headers) + (kv_bin("body"@, m.body) + (request_wire_tail(m.body_channel))))))));
    crate::codec::lemma_starts_with_concat(b, 0, enc_map_header(n), r1);
    crate::codec::lemma_p_map_header_inv(b, 0, n);
    let i1: int = 1;
    let r2 = kv_str("http_version"@, m.http_version) + (kv_str("method"@, m.method) + (kv_str("path"@, m.path) + (kv_str("query_string"@, m.query_string) + (kv_headers("headers"@, m.headers) + (kv_bin("body"@, m.body) + (request_wire_tail(m.body_channel)))))));
    crate::codec::lemma_starts_with_concat(b, i1, kv_str("reply_channel"@, m.reply_channel), r2);
    crate::codec::lemma_p_str_field_inv(b, i1, "reply_channel"@, m.reply_channel);
    let i2: int = i1 + kv_str("reply_channel"@, m.reply_channel).len() as int;
    let r3 = kv_str("method"@, m.method) + (kv_str("path"@, m.path) + (kv_str("query_string"@, m.query_string) + (kv_headers("headers"@, m.headers) + (kv_bin("body"@, m.body) + (request_wire_tail(m.body_channel))))));
    crate::codec::lemma_starts_with_concat(b, i2, kv_str("http_version"@, m.http_version), r3);
    crate::codec::lemma_p_str_field_inv(b, i2, "http_version"@, m.http_version);
    let i3: int = i2 + kv_str("http_version"@, m.http_version).len() as int;
    let r4 = kv_str("path"@, m.path) + (kv_str("query_string"@, m.query_string) + (kv_headers("headers"@, m.headers) + (kv_bin("body"@, m.body) + (request_wire_tail(m.body_channel)))));
    crate::codec::lemma_starts_with_concat(b, i3, kv_str("method"@, m.method), r4);
    crate::codec::lemma_p_str_field_inv(b, i3, "method"@, m.method);
    let i4: int = i3 + kv_str("method"@, m.method).len() as int;
    let r5 = kv_str("query_string"@, m.query_string) + (kv_headers("headers"@, m.headers) + (kv_bin("body"@, m.body) + (request_wire_tail(m.body_channel))));
    crate::codec::lemma_starts_with_concat(b, i4, kv_str("path"@, m.path), r5);
    crate::codec::lemma_p_str_field_inv(b, i4, "path"@, m.path);
    let i5: int = i4 + kv_str("path"@, m.path).len() as int;
    let r6 = kv_headers("headers"@, m.headers) + (kv_bin("body"@, m.body) + (request_wire_tail(m.body_channel)));
    crate::codec::lemma_starts_with_concat(b, i5, kv_str("query_string"@, m.query_string), r6);
    crate::codec::lemma_p_str_field_inv(b, i5, "query_string"@, m.query_string);
    let i6: int = i5 + kv_str("query_string"@, m.query_string).len() as int;
    let r7 = kv_bin("body"@, m.body) + (request_wire_tail(m.body_channel));
    crate::codec::lemma_starts_with_concat(b, i6, kv_headers("headers"@, m.headers), r7);
    crate::codec::lemma_p_headers_field_inv(b, i6, "headers"@, m.headers);
    let i7: int = i6 + kv_headers("headers"@, m.headers).len() as int;
    let r8 = request_wire_tail(m.body_channel);
    crate::codec::lemma_starts_with_concat(b, i7, kv_bin("body"@, m.body), r8);
    crate::codec::lemma_p_bin_field_inv(b, i7, "body"@, m.body);
    let i8: int = i7 + kv_bin("body"@, m.body).len() as int;
    lemma_ascii_chars_bytes_id(m.reply_channel);
    lemma_ascii_chars_bytes_id(m.http_version);
    lemma_ascii_chars_bytes_id(m.method);
    lemma_ascii_chars_bytes_id(m.path);
    lemma_ascii_chars_bytes_id(m.query_string);
    match m.body_channel {
        None => {
            assert(n == 7);
        },
        Some(c) => {
            assert(n == 8);
            crate::codec::lemma_p_str_field_inv(b, i8, "body_channel"@, c);
            lemma_ascii_chars_bytes_id(c);
        },
    }
}


// ---------------------------------------------------------------------------
// The codec laws, packaged per envelope type
// ---------------------------------------------------------------------------

impl crate::asgi::AsgiCodec for Request {
    proof fn lemma_wire_round_trip(&self) {
        lemma_request_round_trip(self@);
    }
}

impl crate::asgi::AsgiCodec for RequestBodyChunk {
    proof fn lemma_wire_round_trip(&self) {
        lemma_request_chunk_round_trip(self@);
    }
}

impl crate::asgi::AsgiCodec for Response {
    proof fn lemma_wire_round_trip(&self) {
        lemma_response_round_trip(self@);
    }
}

impl crate::asgi::AsgiCodec for ResponseBodyChunk {
    proof fn lemma_wire_round_trip(&self) {
        lemma_response_chunk_round_trip(self@);
    }
}

} // verus!
