//! The Redis-backed channel layer.
//!
//! A message is materialized as a pair: a fresh message key holding the
//! payload bytes, and the channel key, a list to whose tail the message key
//! is pushed. Both carry TTLs: the payload's is the configured message
//! expiry, the channel list's is one second longer. Receiving pops a message
//! key from one of the requested channel lists and loads the payload; a
//! message whose payload has already expired is skipped.
//!
//! Every Redis command goes through a trusted wrapper; the naming,
//! validation, backpressure, and retry logic around the commands is
//! verified.

use crate::asgi::{AsgiDeserialize, AsgiSerialize};
use crate::channels::{
    alphanumeric_char, is_valid_channel_name, random_string, shuffle, valid_channel_name,
    validate_channel_name, ChannelError, ChannelReply,
};
use vstd::prelude::*;
use vstd::string::StringExecFns;

verus! {

#[verifier::external_type_specification]
#[verifier::external_body]
pub struct ExConnection(redis::Connection);

#[verifier::external_type_specification]
#[verifier::external_body]
pub struct ExScript(redis::Script);

#[verifier::external_type_specification]
#[verifier::external_body]
pub struct ExConnectionInfo(redis::ConnectionInfo);

/// The server-side script for the non-blocking multi-channel pop: iterate
/// the keys in the given order and return `[key, value]` for the first
/// non-empty `LPOP`, or nil when every list is empty.
pub const LPOPMANY_SCRIPT: &'static str = "
    for keyCount = 1, #KEYS do
        local result = redis.call('LPOP', KEYS[keyCount])
        if result then
            return {KEYS[keyCount], result}
        end
    end
    return nil
";

/// Relies on `redis::Client::open` and `redis::Client::get_connection` to
/// parse the connection info and open a TCP connection.
#[verifier::external_body]
fn open_connection(url: &str) -> (r: Result<redis::Connection, ChannelError>)
    ensures
        r matches Err(e) ==> e == ChannelError::Transport,
{
    let client = redis::Client::open(url).map_err(|_| ChannelError::Transport)?;
    client.get_connection().map_err(|_| ChannelError::Transport)
}

/// Relies on `redis::Client::open` and `redis::Client::get_connection`, as
/// `open_connection` does, for an already-parsed `ConnectionInfo`.
#[verifier::external_body]
fn open_connection_info(info: &redis::ConnectionInfo) -> (r: Result<
    redis::Connection,
    ChannelError,
>)
    ensures
        r matches Err(e) ==> e == ChannelError::Transport,
{
    let client = redis::Client::open(info.clone()).map_err(|_| ChannelError::Transport)?;
    client.get_connection().map_err(|_| ChannelError::Transport)
}

/// Whether the store client's URL parser accepts a connection URL; parsing
/// depends on the URL's characters alone.
pub uninterp spec fn connection_url_ok(url: Seq<char>) -> bool;

/// Relies on `redis::IntoConnectionInfo::into_connection_info` to parse a
/// connection URL: a pure function of the URL, succeeding exactly on the
/// URLs the client accepts.
#[verifier::external_body]
fn parse_connection_info(url: &str) -> (r: Result<redis::ConnectionInfo, ChannelError>)
    ensures
        r is Ok <==> connection_url_ok(url@),
        r matches Err(e) ==> e == ChannelError::Transport,
{
    redis::IntoConnectionInfo::into_connection_info(url).map_err(|_| ChannelError::Transport)
}

/// Relies on `redis::Script::new` to wrap a server-side script.
#[verifier::external_body]
fn make_script(code: &str) -> (r: redis::Script) {
    redis::Script::new(code)
}

/// Relies on `redis::cmd` and `redis::Cmd::query`: issues `SET key value`.
#[verifier::external_body]
fn redis_set(conn: &mut redis::Connection, key: &str, value: &Vec<u8>) -> (r: Result<
    (),
    ChannelError,
>)
    ensures
        r matches Err(e) ==> e == ChannelError::Transport,
{
    redis::cmd("SET").arg(key).arg(value.as_slice()).query::<()>(conn).map_err(
        |_| ChannelError::Transport,
    )
}

/// Relies on `redis::cmd` and `redis::Cmd::query`: issues `EXPIRE key secs`.
#[verifier::external_body]
fn redis_expire(conn: &mut redis::Connection, key: &str, secs: u64) -> (r: Result<
    (),
    ChannelError,
>)
    ensures
        r matches Err(e) ==> e == ChannelError::Transport,
{
    redis::cmd("EXPIRE").arg(key).arg(secs).query::<()>(conn).map_err(|_| ChannelError::Transport)
}

/// Relies on `redis::cmd` and `redis::Cmd::query`: issues `RPUSH key value`,
/// appending at the tail of the list.
#[verifier::external_body]
fn redis_rpush(conn: &mut redis::Connection, key: &str, value: &str) -> (r: Result<
    (),
    ChannelError,
>)
    ensures
        r matches Err(e) ==> e == ChannelError::Transport,
{
    redis::cmd("RPUSH").arg(key).arg(value).query::<()>(conn).map_err(|_| ChannelError::Transport)
}

/// Relies on `redis::cmd` and `redis::Cmd::query`: issues `LLEN key` and
/// returns the list's length.
#[verifier::external_body]
fn redis_llen(conn: &mut redis::Connection, key: &str) -> (r: Result<usize, ChannelError>)
    ensures
        r matches Err(e) ==> e == ChannelError::Transport,
{
    redis::cmd("LLEN").arg(key).query::<usize>(conn).map_err(|_| ChannelError::Transport)
}

/// Relies on `redis::cmd` and `redis::Cmd::query`: issues `GET key`,
/// returning `None` when the key does not exist (any more).
#[verifier::external_body]
fn redis_get_opt(conn: &mut redis::Connection, key: &str) -> (r: Result<
    Option<Vec<u8>>,
    ChannelError,
>)
    ensures
        r matches Err(e) ==> e == ChannelError::Transport,
{
    redis::cmd("GET").arg(key).query::<Option<Vec<u8>>>(conn).map_err(|_| ChannelError::Transport)
}

/// Relies on `redis::cmd` and `redis::Cmd::query`: issues
/// `BLPOP key... timeout`, returning the `[key, value]` pair the server
/// popped, or `None` when the timeout passed with every list empty.
#[verifier::external_body]
fn redis_blpop(conn: &mut redis::Connection, keys: &Vec<String>, timeout_secs: u64) -> (r: Result<
    Option<(String, String)>,
    ChannelError,
>)
    ensures
        r matches Err(e) ==> e == ChannelError::Transport,
{
    let mut c = redis::cmd("BLPOP");
    for key in keys {
        c.arg(key.as_str());
    }
    c.arg(timeout_secs);
    c.query::<Option<(String, String)>>(conn).map_err(|_| ChannelError::Transport)
}

/// Relies on `redis::Script::prepare_invoke` and
/// `redis::ScriptInvocation::invoke`: runs the script with the given keys
/// and decodes its `[key, value]`-or-nil reply.
#[verifier::external_body]
fn redis_script_pop(conn: &mut redis::Connection, script: &redis::Script, keys: &Vec<String>) -> (r:
    Result<Option<(String, String)>, ChannelError>)
    ensures
        r matches Err(e) ==> e == ChannelError::Transport,
{
    let mut invocation = script.prepare_invoke();
    for key in keys {
        invocation.key(key.as_str());
    }
    invocation.invoke::<Option<(String, String)>>(conn).map_err(|_| ChannelError::Transport)
}

/// Relies on `redis::cmd` and `redis::Cmd::query`: issues `PING`.
#[verifier::external_body]
fn redis_ping(conn: &mut redis::Connection) -> (r: Result<(), ChannelError>)
    ensures
        r matches Err(e) ==> e == ChannelError::Transport,
{
    redis::cmd("PING").query::<()>(conn).map_err(|_| ChannelError::Transport)
}

/// A channel layer over one Redis connection.
pub struct RedisChannelLayer {
    conn: redis::Connection,
    prefix: String,
    expiry: u32,  // seconds
    blpop_timeout: u32,  // seconds
    capacity: usize,  // per-channel queue-length cap
    lpopmany: redis::Script,
}

/// The store key of a channel: the namespace prefix followed by the name.
pub fn make_channel_key(prefix: &str, channel: &str) -> (r: String)
    ensures
        r@ == prefix@ + channel@,
{
    let mut key = String::from_str(prefix);
    key.append(channel);
    key
}

/// A fresh message key: the namespace prefix, the literal `msg:`, and ten
/// random alphanumeric characters.
pub fn make_message_key(prefix: &str) -> (r: String)
    ensures
        r@.len() == prefix@.len() + "msg:"@.len() + 10,
        r@.subrange(0, prefix@.len() as int) == prefix@,
        r@.subrange(prefix@.len() as int, (prefix@.len() + "msg:"@.len()) as int) == "msg:"@,
        forall|i: int|
            prefix@.len() + "msg:"@.len() <= i < r@.len() ==> alphanumeric_char(
                #[trigger] r@[i],
            ),
{
    let mut key = String::from_str(prefix);
    key.append("msg:");
    let suffix = random_string(10);
    key.append(suffix.as_str());
    proof {
        assert(key@.subrange(0, prefix@.len() as int) =~= prefix@);
        assert(key@.subrange(prefix@.len() as int, (prefix@.len() + "msg:"@.len()) as int) =~= "msg:"@);
    }
    key
}

/// What `receive` does with one popped entry once the payload lookup has
/// answered.
pub enum ReceiveStep {
    /// The payload belongs to this requested channel: hand it back.
    Deliver(String, ChannelReply),
    /// The payload expired between the pop and the load: poll again.
    Skip,
    /// The store popped a key that is the prefixed form of no requested
    /// channel.
    Fault,
}

/// Decides what a popped `(key, payload)` pair means: a missing payload is
/// an expired message to skip; a payload whose key is the prefixed form of
/// a requested channel is delivered under that channel's name; any other
/// key is a store fault.
pub fn receive_step(
    prefix: &str,
    channels: &Vec<String>,
    popped_key: &String,
    got: Option<Vec<u8>>,
) -> (r: ReceiveStep)
    ensures
        got is None <==> r is Skip,
        match r {
            ReceiveStep::Deliver(name, reply) => {
                &&& exists|i: int| 0 <= i < channels@.len() && name@ == #[trigger] channels@[i]@
                &&& popped_key@ == prefix@ + name@
                &&& got matches Some(buf) && reply.buf@ == buf@
            },
            ReceiveStep::Skip => true,
            ReceiveStep::Fault => forall|i: int|
                0 <= i < channels@.len() ==> popped_key@ != prefix@ + #[trigger] channels@[i]@,
        },
{
    let buf = match got {
        Some(buf) => buf,
        None => {
            return ReceiveStep::Skip;
        },
    };
    let mut k: usize = 0;
    while k < channels.len()
        invariant
            k <= channels@.len(),
            got matches Some(b) && buf@ == b@,
            forall|j: int| 0 <= j < k ==> popped_key@ != prefix@ + #[trigger] channels@[j]@,
        decreases channels@.len() - k,
    {
        let cand = make_channel_key(prefix, channels[k].as_str());
        if cand == *popped_key {
            let name = channels[k].clone();
            return ReceiveStep::Deliver(name, ChannelReply { buf });
        }
        k += 1;
    }
    ReceiveStep::Fault
}

impl RedisChannelLayer {
    /// The namespace prefixed to every key the layer touches.
    pub closed spec fn prefix_spec(&self) -> Seq<char> {
        self.prefix@
    }

    /// The message expiry, in seconds: the only durability bound a payload
    /// has.
    pub closed spec fn expiry_spec(&self) -> u32 {
        self.expiry
    }

    /// The blocking-pop timeout, in seconds.
    pub closed spec fn blpop_timeout_spec(&self) -> u32 {
        self.blpop_timeout
    }

    /// The per-channel queue-length cap `send` enforces.
    pub closed spec fn capacity_spec(&self) -> usize {
        self.capacity
    }

    /// The protocol defaults: the `asgi:` namespace, a 60 second message
    /// expiry, a 5 second blocking-pop timeout, and a 100-message
    /// per-channel cap.
    pub open spec fn default_configuration(layer: &RedisChannelLayer) -> bool {
        &&& layer.prefix_spec() == "asgi:"@
        &&& layer.expiry_spec() == 60
        &&& layer.blpop_timeout_spec() == 5
        &&& layer.capacity_spec() == 100
    }

    /// Opens a connection and builds a layer with the protocol defaults; a
    /// connection failure is a transport error.
    pub fn new(url: &str) -> (r: Result<RedisChannelLayer, ChannelError>)
        ensures
            r matches Ok(layer) ==> Self::default_configuration(&layer),
            r matches Err(e) ==> e == ChannelError::Transport,
    {
        let conn = match open_connection(url) {
            Ok(c) => c,
            Err(e) => {
                return Err(e);
            },
        };
        Ok(
            RedisChannelLayer {
                conn,
                prefix: String::from_str("asgi:"),
                expiry: 60,
                blpop_timeout: 5,
                capacity: 100,
                lpopmany: make_script(LPOPMANY_SCRIPT),
            },
        )
    }

    /// Checks the channel name, encodes the message, enforces the
    /// queue-length cap, and materializes the message in the store. The
    /// name is checked first: an invalid name fails before any store
    /// traffic, and `InvalidChannelName` comes exactly from that check. A
    /// message the codec cannot carry fails next, before any store
    /// mutation, as does a full channel.
    pub fn send<S: AsgiSerialize>(&mut self, channel: &str, msg: &S) -> (r: Result<
        (),
        ChannelError,
    >)
        ensures
            r == Result::<(), ChannelError>::Err(ChannelError::InvalidChannelName)
                <==> !valid_channel_name(channel@),
            r is Ok ==> valid_channel_name(channel@) && msg.encodable(),
            r == Result::<(), ChannelError>::Err(ChannelError::Serialize) || r == Result::<
                (),
                ChannelError,
            >::Err(ChannelError::MessageTooLarge) ==> valid_channel_name(channel@)
                && !msg.encodable(),
            valid_channel_name(channel@) && !msg.encodable() ==> (r == Result::<
                (),
                ChannelError,
            >::Err(ChannelError::Serialize) || r == Result::<(), ChannelError>::Err(
                ChannelError::MessageTooLarge,
            )),
            r == Result::<(), ChannelError>::Err(ChannelError::ChannelFull) || r == Result::<
                (),
                ChannelError,
            >::Err(ChannelError::Transport) ==> valid_channel_name(channel@) && msg.encodable(),
            r matches Err(e) ==> (e == ChannelError::InvalidChannelName || e
                == ChannelError::Serialize || e == ChannelError::MessageTooLarge || e
                == ChannelError::ChannelFull || e == ChannelError::Transport),
    {
        match validate_channel_name(channel) {
            Ok(()) => (),
            Err(e) => {
                return Err(e);
            },
        }
        let mut payload: Vec<u8> = Vec::new();
        match msg.serialize(&mut payload) {
            Ok(()) => (),
            Err(e) => {
                return Err(e);
            },
        }

        let message_key = make_message_key(self.prefix.as_str());
        let channel_key = make_channel_key(self.prefix.as_str(), channel);

        // Backpressure: refuse a send to a full channel before any store
        // mutation.
        match redis_llen(&mut self.conn, channel_key.as_str()) {
            Ok(len) => if len >= self.capacity {
                return Err(ChannelError::ChannelFull);
            },
            Err(e) => {
                return Err(e);
            },
        }

        let message_expiry = self.expiry as u64;
        let channel_expiry = self.expiry as u64 + 1;

        match redis_set(&mut self.conn, message_key.as_str(), &payload) {
            Ok(()) => (),
            Err(e) => {
                return Err(e);
            },
        }
        match redis_expire(&mut self.conn, message_key.as_str(), message_expiry) {
            Ok(()) => (),
            Err(e) => {
                return Err(e);
            },
        }
        match redis_rpush(&mut self.conn, channel_key.as_str(), message_key.as_str()) {
            Ok(()) => (),
            Err(e) => {
                return Err(e);
            },
        }
        match redis_expire(&mut self.conn, channel_key.as_str(), channel_expiry) {
            Ok(()) => (),
            Err(e) => {
                return Err(e);
            },
        }
        Ok(())
    }

    /// Pops one message from any of the given channels. Every name is
    /// validated first; `InvalidChannelName` comes exactly when one fails.
    /// The channel list is shuffled before polling so no channel can starve
    /// the others. In blocking mode a multi-key blocking pop with the
    /// configured timeout is used; otherwise the server-side script pops
    /// the first non-empty list. A popped message whose payload has expired
    /// is skipped and the poll retried. A returned channel name is always
    /// one of the requested names.
    pub fn receive(&mut self, channels: &Vec<String>, block: bool) -> (r: Result<
        Option<(String, ChannelReply)>,
        ChannelError,
    >)
        ensures
            r == Result::<Option<(String, ChannelReply)>, ChannelError>::Err(
                ChannelError::InvalidChannelName,
            ) <==> exists|i: int|
                0 <= i < channels@.len() && !valid_channel_name(channels@[i]@),
            match r {
                Ok(Some(p)) => exists|i: int|
                    0 <= i < channels@.len() && p.0@ == #[trigger] channels@[i]@,
                _ => true,
            },
            r matches Err(e) ==> (e == ChannelError::InvalidChannelName || e
                == ChannelError::Transport),
    {
        let mut i: usize = 0;
        while i < channels.len()
            invariant
                i <= channels@.len(),
                forall|j: int| 0 <= j < i ==> valid_channel_name(#[trigger] channels@[j]@),
            decreases channels@.len() - i,
        {
            if !is_valid_channel_name(channels[i].as_str()) {
                return Err(ChannelError::InvalidChannelName);
            }
            i += 1;
        }

        let mut keys: Vec<String> = Vec::new();
        let mut j: usize = 0;
        while j < channels.len()
            invariant
                j <= channels@.len(),
            decreases channels@.len() - j,
        {
            keys.push(make_channel_key(self.prefix.as_str(), channels[j].as_str()));
            j += 1;
        }

        // Prevent one channel from starving the others.
        shuffle(&mut keys);

        // The skip-expired retry is bounded so the loop provably
        // terminates; a run of this many consecutively expired messages is
        // indistinguishable from an empty channel set.
        let mut attempts: usize = 1000;
        while attempts > 0
            invariant
                forall|j: int|
                    0 <= j < channels@.len() ==> valid_channel_name(#[trigger] channels@[j]@),
            decreases attempts,
        {
            attempts -= 1;
            let popped = if block {
                match redis_blpop(&mut self.conn, &keys, self.blpop_timeout as u64) {
                    Ok(p) => p,
                    Err(e) => {
                        return Err(e);
                    },
                }
            } else {
                match redis_script_pop(&mut self.conn, &self.lpopmany, &keys) {
                    Ok(p) => p,
                    Err(e) => {
                        return Err(e);
                    },
                }
            };
            match popped {
                // Nothing arrived in the time available.
                None => {
                    return Ok(None);
                },
                Some((popped_key, message_key)) => {
                    let got = match redis_get_opt(&mut self.conn, message_key.as_str()) {
                        Ok(got) => got,
                        Err(e) => {
                            return Err(e);
                        },
                    };
                    match receive_step(self.prefix.as_str(), channels, &popped_key, got) {
                        ReceiveStep::Deliver(name, reply) => {
                            return Ok(Some((name, reply)));
                        },
                        // The message expired between the pop and the load:
                        // move on to the next available channel.
                        ReceiveStep::Skip => (),
                        // A key the store made up is a transport fault.
                        ReceiveStep::Fault => {
                            return Err(ChannelError::Transport);
                        },
                    }
                },
            }
        }
        Ok(None)
    }

    /// Pops the next message from one channel, blocking until it arrives,
    /// and returns its payload bytes. An expired message is skipped.
    pub fn receive_one(&mut self, channel: &str) -> (r: Result<Vec<u8>, ChannelError>)
        ensures
            r == Result::<Vec<u8>, ChannelError>::Err(ChannelError::InvalidChannelName)
                <==> !valid_channel_name(channel@),
            r matches Err(e) ==> (e == ChannelError::InvalidChannelName || e
                == ChannelError::Transport),
    {
        match validate_channel_name(channel) {
            Ok(()) => (),
            Err(e) => {
                return Err(e);
            },
        }
        let mut keys: Vec<String> = Vec::new();
        keys.push(make_channel_key(self.prefix.as_str(), channel));
        // Bounded as in `receive`, so the loop provably terminates.
        let mut attempts: usize = 1000;
        while attempts > 0
            invariant
                valid_channel_name(channel@),
            decreases attempts,
        {
            attempts -= 1;
            let popped = match redis_blpop(&mut self.conn, &keys, 0) {
                Ok(p) => p,
                Err(e) => {
                    return Err(e);
                },
            };
            match popped {
                None => (),
                Some((_popped_key, message_key)) => {
                    match redis_get_opt(&mut self.conn, message_key.as_str()) {
                        Err(e) => {
                            return Err(e);
                        },
                        // Expired in flight: wait for the next message.
                        Ok(None) => (),
                        Ok(Some(buf)) => {
                            return Ok(buf);
                        },
                    }
                },
            }
        }
        Err(ChannelError::Transport)
    }

    /// Decodes a popped payload; callers separate the pop from the decode
    /// to amortize allocation.
    pub fn deserialize<D: AsgiDeserialize>(reply: ChannelReply) -> (r: Result<D, ChannelError>)
        ensures
            match r {
                Ok(v) => D::decoded(reply.buf@) == Some(v@),
                Err(e) => D::decoded(reply.buf@) is None && e == ChannelError::Deserialize,
            },
    {
        D::deserialize(&reply.buf)
    }

    /// Makes a fresh single-reader channel name; see
    /// `channels::new_channel_name`.
    pub fn new_channel(&self, pattern: &str) -> (r: Result<String, ChannelError>)
        ensures
            r is Ok <==> valid_channel_name(pattern@) && (pattern@.last() == '!'
                || pattern@.last() == '?'),
            r is Err ==> r == Result::<String, ChannelError>::Err(ChannelError::InvalidChannelName),
            r matches Ok(name) ==> {
                &&& name@.len() == pattern@.len() + 10
                &&& name@.subrange(0, pattern@.len() as int) == pattern@
                &&& forall|i: int|
                    pattern@.len() <= i < name@.len() ==> alphanumeric_char(#[trigger] name@[i])
            },
    {
        crate::channels::new_channel_name(pattern)
    }
}

/// Builds validated channel-layer connections for a pool: the connection
/// URL is parsed once, and each `connect` opens a fresh layer to that
/// endpoint.
#[derive(Debug)]
pub struct RedisChannelLayerManager {
    url: String,
    info: redis::ConnectionInfo,
}

impl RedisChannelLayerManager {
    /// The connection URL whose parsed info every `connect` uses.
    pub closed spec fn url_spec(&self) -> Seq<char> {
        self.url@
    }

    /// Parses the connection URL, succeeding exactly when the store client
    /// accepts it; a URL it cannot parse is a transport error.
    pub fn new(url: &str) -> (r: Result<RedisChannelLayerManager, ChannelError>)
        ensures
            r is Ok <==> connection_url_ok(url@),
            r matches Ok(m) ==> m.url_spec() == url@,
            r matches Err(e) ==> e == ChannelError::Transport,
    {
        match parse_connection_info(url) {
            Ok(info) => Ok(RedisChannelLayerManager { url: String::from_str(url), info }),
            Err(e) => Err(e),
        }
    }

    /// Opens a fresh channel layer, to the manager's endpoint, with the
    /// protocol defaults; a connection failure is a transport error.
    pub fn connect(&self) -> (r: Result<RedisChannelLayer, ChannelError>)
        ensures
            r matches Ok(layer) ==> RedisChannelLayer::default_configuration(&layer),
            r matches Err(e) ==> e == ChannelError::Transport,
    {
        let conn = match open_connection_info(&self.info) {
            Ok(c) => c,
            Err(e) => {
                return Err(e);
            },
        };
        Ok(
            RedisChannelLayer {
                conn,
                prefix: String::from_str("asgi:"),
                expiry: 60,
                blpop_timeout: 5,
                capacity: 100,
                lpopmany: make_script(LPOPMANY_SCRIPT),
            },
        )
    }

    /// The health check: `PING` on the layer's connection; a failed ping is
    /// a transport error.
    pub fn is_valid(&self, layer: &mut RedisChannelLayer) -> (r: Result<(), ChannelError>)
        ensures
            r matches Err(e) ==> e == ChannelError::Transport,
    {
        redis_ping(&mut layer.conn)
    }

    /// The pool never marks a connection broken eagerly; the health check
    /// decides.
    pub fn has_broken(&self, _layer: &mut RedisChannelLayer) -> (r: bool)
        ensures
            r == false,
    {
        false
    }
}

} // verus!
