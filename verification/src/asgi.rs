//! Serialization interface for the message envelopes.
//!
//! Every envelope knows its exact wire bytes (`wire`) and what any byte
//! buffer decodes to (`decoded`); the executable codec methods are held to
//! those spec functions, so a send/receive round-trip can be reasoned about
//! end to end.

use crate::channels::ChannelError;
use vstd::prelude::*;

verus! {

/// An envelope that can be put on the wire.
pub trait AsgiSerialize: Sized + View {
    /// Whether the value fits the wire format's caps (component lengths and
    /// entry counts) and its strings are ASCII.
    spec fn encodable(&self) -> bool;

    /// The exact bytes the value puts on the wire.
    spec fn wire(&self) -> Seq<u8>;

    /// Appends the value's wire form to `buf`; on failure `buf` is unchanged.
    fn serialize(&self, buf: &mut Vec<u8>) -> (r: Result<(), ChannelError>)
        ensures
            r is Ok <==> self.encodable(),
            r is Ok ==> final(buf)@ == old(buf)@ + self.wire(),
            r is Err ==> final(buf)@ == old(buf)@,
            r is Err ==> r == Result::<(), ChannelError>::Err(ChannelError::Serialize) || r
                == Result::<(), ChannelError>::Err(ChannelError::MessageTooLarge),
    ;
}

/// An envelope that can be read back from a popped payload.
pub trait AsgiDeserialize: Sized + View {
    /// What a byte buffer decodes to, if anything.
    spec fn decoded(buf: Seq<u8>) -> Option<Self::V>;

    /// Decodes a popped payload.
    fn deserialize(buf: &Vec<u8>) -> (r: Result<Self, ChannelError>)
        ensures
            match r {
                Ok(v) => Self::decoded(buf@) == Some(v@),
                Err(e) => Self::decoded(buf@) is None && e == ChannelError::Deserialize,
            },
    ;
}

/// An envelope that travels in both directions, with the codec laws that
/// tie them together: what an encodable value encodes to decodes back to
/// that value.
pub trait AsgiCodec: AsgiSerialize + AsgiDeserialize {
    /// Decoding inverts encoding for every encodable value.
    proof fn lemma_wire_round_trip(&self)
        requires
            self.encodable(),
        ensures
            Self::decoded(self.wire()) == Some(self@),
    ;
}

} // verus!
