//! Channel naming, validation, and the error taxonomy shared by the whole
//! channel layer.
//!
//! A channel name is a non-empty string of at most 100 characters drawn from
//! `[A-Za-z0-9._?!-]`. A trailing `!` marks a single-reader reply channel, a
//! trailing `?` a single-reader per-request body channel; all other names are
//! multi-reader process-type channels.

pub mod redis;
pub mod reply_pump;

use rand::seq::SliceRandom;
use rand::Rng;
use vstd::prelude::*;
use vstd::string::StrSliceExecFns;
use vstd::string::StringExecFns;

verus! {

/// Characters allowed in a channel name.
pub open spec fn valid_channel_char(c: char) -> bool {
    ('a' <= c && c <= 'z') || ('A' <= c && c <= 'Z') || ('0' <= c && c <= '9')
        || c == '.' || c == '-' || c == '_' || c == '?' || c == '!'
}

/// A channel name is non-empty, at most 100 characters long, and drawn from
/// the allowed character class.
pub open spec fn valid_channel_name(name: Seq<char>) -> bool {
    &&& 0 < name.len() <= 100
    &&& forall|i: int| 0 <= i < name.len() ==> valid_channel_char(#[trigger] name[i])
}

/// ASCII alphanumeric characters, as produced for random channel-name
/// suffixes and message-key suffixes.
pub open spec fn alphanumeric_char(c: char) -> bool {
    ('a' <= c && c <= 'z') || ('A' <= c && c <= 'Z') || ('0' <= c && c <= '9')
}

/// Decides channel-name validity. The outcome is a function of the name
/// alone, so validating the same name any number of times yields the same
/// answer.
pub fn is_valid_channel_name(name: &str) -> (r: bool)
    ensures
        r == valid_channel_name(name@),
{
    let n = name.unicode_len();
    if n == 0 || n > 100 {
        return false;
    }
    let mut i: usize = 0;
    while i < n
        invariant
            0 < n <= 100,
            n == name@.len(),
            i <= n,
            forall|j: int| 0 <= j < i ==> valid_channel_char(#[trigger] name@[j]),
        decreases n - i,
    {
        let c = name.get_char(i);
        let ok = ('a' <= c && c <= 'z') || ('A' <= c && c <= 'Z') || ('0' <= c && c <= '9')
            || c == '.' || c == '-' || c == '_' || c == '?' || c == '!';
        if !ok {
            return false;
        }
        i += 1;
    }
    true
}

/// Checks a channel name, failing with `InvalidChannelName` exactly when the
/// name does not validate.
pub fn validate_channel_name(name: &str) -> (r: Result<(), ChannelError>)
    ensures
        r is Ok <==> valid_channel_name(name@),
        r is Err ==> r == Result::<(), ChannelError>::Err(ChannelError::InvalidChannelName),
{
    if is_valid_channel_name(name) {
        Ok(())
    } else {
        Err(ChannelError::InvalidChannelName)
    }
}

/// A raw payload popped from a channel, kept as bytes so callers can separate
/// the pop from the decode.
pub struct ChannelReply {
    pub buf: Vec<u8>,
}

/// The channel layer's error taxonomy. Store- and codec-specific causes are
/// erased: callers match on the variants only.
#[derive(Debug, Clone, Copy, PartialEq, Eq, Structural)]
pub enum ChannelError {
    /// The per-channel queue-length cap was reached; nothing was written.
    ChannelFull,
    /// The payload would exceed the codec's framing cap.
    MessageTooLarge,
    /// A channel name failed validation.
    InvalidChannelName,
    /// A backing-store operation failed.
    Transport,
    /// The message could not be encoded.
    Serialize,
    /// A popped payload could not be decoded.
    Deserialize,
    /// An awaited reply can no longer arrive (the reply pump shut down).
    Cancelled,
}

impl ChannelError {
    /// A short human-readable description of the error kind.
    pub fn message(&self) -> (s: &'static str)
        ensures
            (*self == ChannelError::ChannelFull) ==> s@ == "Channel full"@,
            (*self == ChannelError::MessageTooLarge) ==> s@ == "Message too large"@,
            (*self == ChannelError::InvalidChannelName) ==> s@ == "Invalid channel name"@,
            (*self == ChannelError::Transport) ==> s@ == "Error in channel transport"@,
            (*self == ChannelError::Serialize) ==> s@ == "Error serializing message"@,
            (*self == ChannelError::Deserialize) ==> s@ == "Error deserializing message"@,
            (*self == ChannelError::Cancelled) ==> s@ == "Reply cancelled"@,
    {
        match *self {
            ChannelError::ChannelFull => "Channel full",
            ChannelError::MessageTooLarge => "Message too large",
            ChannelError::InvalidChannelName => "Invalid channel name",
            ChannelError::Transport => "Error in channel transport",
            ChannelError::Serialize => "Error serializing message",
            ChannelError::Deserialize => "Error deserializing message",
            ChannelError::Cancelled => "Reply cancelled",
        }
    }
}

/// Relies on `rand::rngs::ThreadRng` sampling `rand::distributions::Alphanumeric`:
/// every sampled character is ASCII alphanumeric, and `take(n)` yields exactly
/// `n` of them.
#[verifier::external_body]
pub(crate) fn random_string(n: usize) -> (r: String)
    ensures
        r@.len() == n as nat,
        forall|i: int| 0 <= i < r@.len() ==> alphanumeric_char(#[trigger] r@[i]),
{
    rand::thread_rng()
        .sample_iter(&rand::distributions::Alphanumeric)
        .take(n)
        .map(char::from)
        .collect()
}

/// Relies on `rand::seq::SliceRandom::shuffle`: the slice is permuted in
/// place, so the new contents are the old contents rearranged.
#[verifier::external_body]
pub(crate) fn shuffle(values: &mut Vec<String>) -> (r: ())
    ensures
        final(values)@.to_multiset() == old(values)@.to_multiset(),
        final(values)@.len() == old(values)@.len(),
{
    values.as_mut_slice().shuffle(&mut rand::thread_rng())
}

/// Makes a fresh single-reader channel name: the pattern, which must
/// validate and end in `!` or `?`, followed by ten random alphanumeric
/// characters. Uniqueness is best-effort, bounded by the suffix's entropy.
pub fn new_channel_name(pattern: &str) -> (r: Result<String, ChannelError>)
    ensures
        r is Ok <==> valid_channel_name(pattern@) && (pattern@.last() == '!' || pattern@.last()
            == '?'),
        r is Err ==> r == Result::<String, ChannelError>::Err(ChannelError::InvalidChannelName),
        r matches Ok(name) ==> {
            &&& name@.len() == pattern@.len() + 10
            &&& name@.subrange(0, pattern@.len() as int) == pattern@
            &&& forall|i: int|
                pattern@.len() <= i < name@.len() ==> alphanumeric_char(#[trigger] name@[i])
        },
{
    match validate_channel_name(pattern) {
        Ok(()) => (),
        Err(e) => {
            return Err(e);
        },
    }
    let n = pattern.unicode_len();
    let last = pattern.get_char(n - 1);
    if last != '!' && last != '?' {
        return Err(ChannelError::InvalidChannelName);
    }
    let suffix = random_string(10);
    let mut name = String::from_str(pattern);
    name.append(suffix.as_str());
    proof {
        assert(name@.subrange(0, pattern@.len() as int) =~= pattern@);
    }
    Ok(name)
}

/// Every character a channel name can contain is ASCII.
pub proof fn lemma_valid_name_is_ascii(name: Seq<char>)
    requires
        valid_channel_name(name),
    ensures
        vstd::utf8::is_ascii_chars(name),
{
    assert forall|i: int| 0 <= i < name.len() implies '\0' <= #[trigger] name[i] <= '\u{7f}' by {
        assert(valid_channel_char(name[i]));
    }
}

/// Every character a random suffix can contain is allowed in a channel name.
pub proof fn lemma_alphanumeric_is_channel_char(c: char)
    requires
        alphanumeric_char(c),
    ensures
        valid_channel_char(c),
{
}

/// A fresh channel name — a valid pattern followed by a ten-character
/// alphanumeric suffix — is itself a valid channel name, as long as it fits
/// the length cap.
pub proof fn lemma_new_channel_name_valid(pattern: Seq<char>, name: Seq<char>)
    requires
        valid_channel_name(pattern),
        pattern.len() + 10 <= 100,
        name.len() == pattern.len() + 10,
        name.subrange(0, pattern.len() as int) == pattern,
        forall|i: int| pattern.len() <= i < name.len() ==> alphanumeric_char(#[trigger] name[i]),
    ensures
        valid_channel_name(name),
{
    assert forall|i: int| 0 <= i < name.len() implies valid_channel_char(#[trigger] name[i]) by {
        if i < pattern.len() {
            assert(name.subrange(0, pattern.len() as int)[i] == name[i]);
            assert(valid_channel_char(pattern[i]));
        } else {
            lemma_alphanumeric_is_channel_char(name[i]);
        }
    }
}


/// Validation is a function of the name alone: two validations of the same
/// name, whatever their outcomes were reported to be, agree.
pub proof fn lemma_validation_idempotent(name: Seq<char>, first_outcome: bool, second_outcome: bool)
    requires
        first_outcome == valid_channel_name(name),
        second_outcome == valid_channel_name(name),
    ensures
        first_outcome == second_outcome,
{
}

/// A model of the backing store's channel lists: each channel name maps to
/// the queue of payloads, in arrival order. The store commands a send
/// issues amount to appending at the tail of the channel's list; a receive
/// pops at the head.
pub ghost struct StoreModel {
    pub queues: Map<Seq<char>, Seq<Seq<u8>>>,
}

/// The queue of a channel, empty when the channel has no list.
pub open spec fn store_queue(s: StoreModel, channel: Seq<char>) -> Seq<Seq<u8>> {
    if s.queues.contains_key(channel) {
        s.queues[channel]
    } else {
        Seq::empty()
    }
}

/// The store after a send: the payload joins the tail of the channel's
/// queue.
pub open spec fn store_send(s: StoreModel, channel: Seq<char>, payload: Seq<u8>) -> StoreModel {
    StoreModel { queues: s.queues.insert(channel, store_queue(s, channel).push(payload)) }
}

/// A blocking receive on one channel: pops the head of its queue, or
/// nothing when the queue is empty.
pub open spec fn store_receive_one(s: StoreModel, channel: Seq<char>) -> Option<
    (Seq<u8>, StoreModel),
> {
    if store_queue(s, channel).len() > 0 {
        Some(
            (
                store_queue(s, channel).first(),
                StoreModel {
                    queues: s.queues.insert(channel, store_queue(s, channel).drop_first()),
                },
            ),
        )
    } else {
        None
    }
}

/// A send followed by a blocking receive on the same channel hands back
/// exactly the payload just sent, when nothing was queued there before.
pub proof fn lemma_store_send_then_receive(s: StoreModel, channel: Seq<char>, payload: Seq<u8>)
    requires
        store_queue(s, channel).len() == 0,
    ensures
        store_receive_one(store_send(s, channel, payload), channel) matches Some(p) && p.0
            == payload,
{
    let sent = store_send(s, channel, payload);
    assert(store_queue(sent, channel) =~= seq![payload]);
}

/// A message of any envelope type sent on a channel and then received from
/// it decodes back to itself: the store hands back the bytes the send
/// enqueued, and decoding inverts encoding. The channel's queue must have
/// been empty before the send; with messages already queued, the receive
/// hands back the earliest of them instead.
pub proof fn lemma_send_receive_round_trip<M: crate::asgi::AsgiCodec>(
    s: StoreModel,
    channel: Seq<char>,
    m: M,
)
    requires
        m.encodable(),
        store_queue(s, channel).len() == 0,
    ensures
        store_receive_one(store_send(s, channel, m.wire()), channel) matches Some(p)
            && M::decoded(p.0) == Some(m@),
{
    lemma_store_send_then_receive(s, channel, m.wire());
    m.lemma_wire_round_trip();
}

} // verus!
