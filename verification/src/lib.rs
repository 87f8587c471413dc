//! An HTTP interface server core: bridges HTTP requests into an ASGI
//! message-bus protocol over a Redis-backed channel layer and streams ASGI
//! responses back to HTTP clients.
//!
//! The verified library holds the channel-layer logic (naming, send/receive,
//! expiry handling), the on-wire MessagePack envelope codec, the reply-pump
//! and response-body-stream state machines, and the request pipeline.

pub mod asgi;
pub mod body;
pub mod channels;
pub mod codec;
pub mod http;
pub mod msgs;
