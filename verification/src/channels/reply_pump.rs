//! The reply pump's state machine.
//!
//! The pump multiplexes many outstanding reply channels onto one polling
//! loop: its state is the table from reply-channel name to the waiter that
//! registered it. The decisions — registering a waiter, dispatching an
//! arriving reply to exactly the one waiter that registered its channel,
//! treating a reply for an unregistered channel as fatal — are verified
//! here against a `Map` model of the table. The thread, queue, and one-shot
//! plumbing that drive the machine stay outside the library.

use crate::channels::ChannelReply;
use vstd::prelude::*;
use vstd::string::StringExecFns;

verus! {

/// A request posted to the pump from the outside world.
pub enum PumpRequest<S> {
    /// Start listening on this reply channel, resolving this waiter when
    /// the reply arrives.
    Listen(String, S),
    /// Shut the pump down, cancelling all outstanding waiters.
    Join,
}

/// What the pump should do after one poll of the channel layer.
pub enum PumpAction<S> {
    /// A reply arrived for a registered channel: complete this waiter with
    /// the payload.
    Deliver(S, ChannelReply),
    /// A reply arrived for a channel no waiter registered: a protocol
    /// invariant violation, fatal to the pump.
    Fatal(String),
    /// Nothing arrived: sleep briefly before the next poll, to bound CPU
    /// use.
    Idle,
}

/// The keys of the pending table, in order.
pub open spec fn table_keys<S>(s: Seq<(String, S)>) -> Seq<Seq<char>> {
    s.map_values(|p: (String, S)| p.0@)
}

/// Whether a pending table holds each channel at most once.
pub open spec fn table_unique<S>(s: Seq<(String, S)>) -> bool {
    forall|i: int, j: int|
        0 <= i < j < s.len() ==> (#[trigger] s[i].0@) != (#[trigger] s[j].0@)
}

/// The mapping a pending table denotes.
pub open spec fn table_map<S>(s: Seq<(String, S)>) -> Map<Seq<char>, S>
    decreases s.len(),
{
    if s.len() == 0 {
        Map::empty()
    } else {
        table_map(s.drop_last()).insert(s.last().0@, s.last().1)
    }
}

/// A key is in the denoted map exactly when some entry holds it.
pub proof fn lemma_table_map_contains<S>(s: Seq<(String, S)>, k: Seq<char>)
    ensures
        table_map(s).contains_key(k) <==> exists|i: int| 0 <= i < s.len() && (#[trigger] s[i].0@)
            == k,
    decreases s.len(),
{
    if s.len() > 0 {
        lemma_table_map_contains(s.drop_last(), k);
        if table_map(s).contains_key(k) {
            if s.last().0@ == k {
                assert(s[s.len() - 1].0@ == k);
            }
        }
        if exists|i: int| 0 <= i < s.len() && (#[trigger] s[i].0@) == k {
            let i = choose|i: int| 0 <= i < s.len() && (#[trigger] s[i].0@) == k;
            if i < s.len() - 1 {
                assert(s.drop_last()[i].0@ == k);
            }
        }
    }
}

/// In a unique table, the denoted map sends a present key to its entry's
/// value.
pub proof fn lemma_table_map_value<S>(s: Seq<(String, S)>, i: int)
    requires
        table_unique(s),
        0 <= i < s.len(),
    ensures
        table_map(s).contains_key(s[i].0@),
        table_map(s)[s[i].0@] == s[i].1,
    decreases s.len(),
{
    lemma_table_map_contains(s, s[i].0@);
    if i < s.len() - 1 {
        assert(s.drop_last()[i] == s[i]);
        assert(table_unique(s.drop_last()));
        lemma_table_map_value(s.drop_last(), i);
        assert(s[i].0@ != s.last().0@);
    }
}

/// Removing the entry at `i` removes exactly its key from the denoted map.
pub proof fn lemma_table_map_remove<S>(s: Seq<(String, S)>, i: int)
    requires
        table_unique(s),
        0 <= i < s.len(),
    ensures
        table_unique(s.remove(i)),
        table_map(s.remove(i)) == table_map(s).remove(s[i].0@),
    decreases s.len(),
{
    let k = s[i].0@;
    assert forall|a: int, b: int|
        0 <= a < b < s.remove(i).len() implies (#[trigger] s.remove(i)[a].0@) != (#[trigger] s.remove(
        i,
    )[b].0@) by {
        let a0 = if a < i {
            a
        } else {
            a + 1
        };
        let b0 = if b < i {
            b
        } else {
            b + 1
        };
        assert(s.remove(i)[a] == s[a0] && s.remove(i)[b] == s[b0]);
    }
    if i == s.len() - 1 {
        assert(s.remove(i) =~= s.drop_last());
        lemma_table_map_contains(s.drop_last(), k);
        assert(forall|j: int| 0 <= j < s.drop_last().len() ==> (#[trigger] s.drop_last()[j].0@)
            != k);
        assert(!table_map(s.drop_last()).contains_key(k));
        assert(table_map(s.drop_last()) =~= table_map(s.drop_last()).insert(k, s.last().1).remove(
            k,
        ));
    } else {
        assert(s.remove(i).last() == s.last());
        assert(s.remove(i).drop_last() =~= s.drop_last().remove(i));
        assert(table_unique(s.drop_last()));
        lemma_table_map_remove(s.drop_last(), i);
        assert(s.drop_last()[i] == s[i]);
        assert(k != s.last().0@);
        assert(table_map(s.remove(i)) == table_map(s.drop_last().remove(i)).insert(
            s.last().0@,
            s.last().1,
        ));
        assert(table_map(s.drop_last()).remove(k).insert(s.last().0@, s.last().1) =~= table_map(
            s.drop_last(),
        ).insert(s.last().0@, s.last().1).remove(k));
    }
}

/// The reply pump's state: the table from reply-channel name to the waiter
/// that registered it. The waiter type is opaque to the pump; the driving
/// loop hands in one-shot senders.
pub struct ReplyPump<S> {
    pending: Vec<(String, S)>,
}

impl<S> ReplyPump<S> {
    /// The table holds each channel at most once.
    pub closed spec fn wf(self) -> bool {
        table_unique(self.pending@)
    }

    /// The mapping from registered channel to waiter.
    pub closed spec fn model(self) -> Map<Seq<char>, S> {
        table_map(self.pending@)
    }

    /// The registered waiters, in registration order.
    pub closed spec fn waiters(self) -> Seq<S> {
        self.pending@.map_values(|p: (String, S)| p.1)
    }

    /// An empty pump: no channel has a waiter.
    pub fn new() -> (r: ReplyPump<S>)
        ensures
            r.wf(),
            r.model() == Map::<Seq<char>, S>::empty(),
    {
        ReplyPump { pending: Vec::new() }
    }

    /// Whether any waiter is registered; an idle pump blocks on its inbound
    /// queue instead of polling the store.
    pub fn is_empty(&self) -> (r: bool)
        requires
            self.wf(),
        ensures
            r <==> self.model() == Map::<Seq<char>, S>::empty(),
    {
        let r = self.pending.len() == 0;
        proof {
            if self.pending@.len() > 0 {
                lemma_table_map_value(self.pending@, 0);
                assert(self.model() != Map::<Seq<char>, S>::empty());
            } else {
                assert(self.model() =~= Map::<Seq<char>, S>::empty());
            }
        }
        r
    }

    /// The registered channel names, for the multi-channel poll.
    pub fn channel_names(&self) -> (r: Vec<String>)
        ensures
            r@.len() == self.waiters().len(),
            forall|i: int| 0 <= i < r@.len() ==> #[trigger] self.model().contains_key(r@[i]@),
    {
        let mut names: Vec<String> = Vec::new();
        let mut i: usize = 0;
        while i < self.pending.len()
            invariant
                i <= self.pending@.len(),
                names@.len() == i,
                forall|j: int| 0 <= j < i ==> #[trigger] names@[j]@ == self.pending@[j].0@,
            decreases self.pending@.len() - i,
        {
            names.push(self.pending[i].0.clone());
            i += 1;
        }
        proof {
            assert forall|j: int| 0 <= j < names@.len() implies #[trigger] self.model()
                .contains_key(names@[j]@) by {
                lemma_table_map_contains(self.pending@, names@[j]@);
                assert(self.pending@[j].0@ == names@[j]@);
            }
        }
        names
    }

    /// Takes the waiter registered for a channel out of the table, if one
    /// is.
    pub fn take(&mut self, channel: &str) -> (r: Option<S>)
        requires
            old(self).wf(),
        ensures
            final(self).wf(),
            final(self).model() == old(self).model().remove(channel@),
            r is Some <==> old(self).model().contains_key(channel@),
            r matches Some(s) ==> s == old(self).model()[channel@],
    {
        let ghost s0 = self.pending@;
        let channel_string = String::from_str(channel);
        let mut i: usize = 0;
        while i < self.pending.len()
            invariant
                i <= self.pending@.len(),
                self.pending@ == s0,
                s0 == old(self).pending@,
                table_unique(s0),
                channel_string@ == channel@,
                forall|j: int| 0 <= j < i ==> (#[trigger] s0[j].0@) != channel@,
            decreases self.pending@.len() - i,
        {
            let cand = self.pending[i].0.clone();
            if cand == channel_string {
                proof {
                    lemma_table_map_value(s0, i as int);
                    lemma_table_map_remove(s0, i as int);
                }
                let (_name, sender) = self.pending.remove(i);
                return Some(sender);
            }
            i += 1;
        }
        proof {
            lemma_table_map_contains(s0, channel@);
            assert(!old(self).model().contains_key(channel@));
            assert(old(self).model().remove(channel@) =~= old(self).model());
        }
        None
    }

    /// Registers a waiter for a channel. A waiter already registered for
    /// the same channel is displaced and returned, so the caller can
    /// cancel it; each reply channel is expected to be registered once.
    pub fn listen(&mut self, channel: String, sender: S) -> (r: Option<S>)
        requires
            old(self).wf(),
        ensures
            final(self).wf(),
            final(self).model() == old(self).model().insert(channel@, sender),
            r is Some <==> old(self).model().contains_key(channel@),
            r matches Some(s) ==> s == old(self).model()[channel@],
    {
        let displaced = self.take(channel.as_str());
        let ghost mid = self.pending@;
        self.pending.push((channel, sender));
        proof {
            assert(self.pending@.drop_last() =~= mid);
            assert forall|a: int, b: int|
                0 <= a < b < self.pending@.len() implies (#[trigger] self.pending@[a].0@)
                != (#[trigger] self.pending@[b].0@) by {
                if b == self.pending@.len() - 1 {
                    lemma_table_map_contains(mid, self.pending@[b].0@);
                    assert(mid[a] == self.pending@[a]);
                } else {
                    assert(mid[a] == self.pending@[a] && mid[b] == self.pending@[b]);
                }
            }
            assert(final(self).model() =~= old(self).model().insert(channel@, sender));
        }
        displaced
    }

    /// Applies the outcome of one poll of the channel layer: a reply for a
    /// registered channel goes to exactly the waiter that registered it,
    /// and the registration is consumed; a reply for an unregistered
    /// channel is a fatal protocol violation; no reply means the pump
    /// should idle briefly.
    pub fn dispatch(&mut self, popped: Option<(String, ChannelReply)>) -> (act: PumpAction<S>)
        requires
            old(self).wf(),
        ensures
            final(self).wf(),
            match popped {
                None => act is Idle && final(self).model() == old(self).model(),
                Some(p) => if old(self).model().contains_key(p.0@) {
                    &&& (act matches PumpAction::Deliver(s, reply) ==> s == old(self).model()[p.0@]
                        && reply == p.1)
                    &&& act is Deliver
                    &&& final(self).model() == old(self).model().remove(p.0@)
                } else {
                    &&& (act matches PumpAction::Fatal(name) ==> name == p.0)
                    &&& act is Fatal
                    &&& final(self).model() == old(self).model()
                },
            },
    {
        match popped {
            None => PumpAction::Idle,
            Some((channel, reply)) => {
                match self.take(channel.as_str()) {
                    Some(sender) => PumpAction::Deliver(sender, reply),
                    None => {
                        proof {
                            assert(old(self).model().remove(channel@) =~= old(self).model());
                        }
                        PumpAction::Fatal(channel)
                    },
                }
            },
        }
    }

    /// Empties the table for shutdown, handing back every outstanding
    /// waiter so the driving loop can cancel them.
    pub fn drain(&mut self) -> (r: Vec<S>)
        requires
            old(self).wf(),
        ensures
            final(self).wf(),
            final(self).model() == Map::<Seq<char>, S>::empty(),
            r@ == old(self).waiters(),
    {
        let mut senders: Vec<S> = Vec::new();
        let ghost s0 = self.pending@;
        while self.pending.len() > 0
            invariant
                senders@.len() + self.pending@.len() == s0.len(),
                self.pending@ =~= s0.skip(senders@.len() as int),
                senders@ =~= s0.take(senders@.len() as int).map_values(|p: (String, S)| p.1),
            decreases self.pending@.len(),
        {
            let (_name, sender) = self.pending.remove(0);
            let ghost k = senders@.len() as int;
            senders.push(sender);
            proof {
                assert(self.pending@ =~= s0.skip(k + 1));
                assert(senders@ =~= s0.take(k + 1).map_values(|p: (String, S)| p.1));
            }
        }
        proof {
            assert(s0.take(s0.len() as int) =~= s0);
            assert(senders@ =~= s0.map_values(|p: (String, S)| p.1));
        }
        senders
    }
}

} // verus!
