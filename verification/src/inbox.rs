//! The inbox behind the list of messages that a window shows: a subscription
//! together with what it has surfaced so far. Every message is shown once,
//! and only messages of the subscription's topic are shown.

use vstd::prelude::*;
use crate::dedup::{admits, lemma_admitted_exactly_once, lemma_seen_after, seen_after};
use crate::message::{ChatMessage, Envelope};
use crate::subscription::{ids_of, Subscription, SubscriptionHandle};

verus! {

/// A subscription and the messages it has surfaced, oldest first.
pub struct Inbox {
    receiver: SubscriptionHandle,
    messages: Vec<ChatMessage>,
}

/// An inbox as the contracts see it.
pub struct Shown {
    pub subscription: Subscription,
    pub messages: Seq<Envelope>,
}

/// The messages as mathematical values.
pub open spec fn envelopes_of(messages: Seq<ChatMessage>) -> Seq<Envelope> {
    messages.map_values(|message: ChatMessage| message@)
}

/// What holds of every inbox: each message shown is of the subscription's
/// topic, its id is among the ids that the subscription has seen, and no two
/// messages shown have the same id.
pub open spec fn shown_once(shown: Shown) -> bool {
    &&& forall|k: int|
        0 <= k < shown.messages.len() ==> (#[trigger] shown.messages[k]).topic
            == shown.subscription.topic
    &&& forall|k: int|
        0 <= k < shown.messages.len() ==> shown.subscription.seen.contains(
            (#[trigger] shown.messages[k]).id,
        )
    &&& forall|i: int, j: int|
        0 <= i < j < shown.messages.len() ==> (#[trigger] shown.messages[i]).id != (
        #[trigger] shown.messages[j]).id
}

impl View for Inbox {
    type V = Shown;

    closed spec fn view(&self) -> Shown {
        Shown { subscription: self.receiver@, messages: envelopes_of(self.messages@) }
    }
}

impl Inbox {
    #[verifier::type_invariant]
    spec fn well_formed(&self) -> bool {
        shown_once(self@)
    }

    /// An inbox for `receiver` that shows nothing yet.
    pub fn new(receiver: SubscriptionHandle) -> (inbox: Inbox)
        ensures
            shown_once(inbox@),
            inbox@.subscription == receiver@,
            inbox@.messages == Seq::<Envelope>::empty(),
    {
        let inbox = Inbox { receiver, messages: Vec::new() };
        assert(inbox@.messages =~= Seq::<Envelope>::empty());
        inbox
    }

    /// The subscription that feeds the inbox.
    pub fn handle(&self) -> (receiver: &SubscriptionHandle)
        ensures
            receiver@ == self@.subscription,
    {
        &self.receiver
    }

    /// The messages shown, oldest first.
    pub fn messages(&self) -> (messages: &Vec<ChatMessage>)
        ensures
            envelopes_of(messages@) == self@.messages,
            shown_once(self@),
    {
        proof {
            use_type_invariant(self);
        }
        &self.messages
    }

    /// The inbox after up to `limit` messages that have arrived for the
    /// subscription have been moved to the end of the list, with their number.
    ///
    /// What has arrived is not decided here. Whatever it is, the list keeps
    /// what it showed and stays free of repetitions and of other topics.
    pub fn collect(self, limit: usize) -> (next: (Inbox, usize))
        ensures
            shown_once(next.0@),
            next.1 <= limit,
            next.0@.messages.len() == self@.messages.len() + next.1,
            next.0@.messages.take(self@.messages.len() as int) == self@.messages,
            next.0@.subscription.id == self@.subscription.id,
            next.0@.subscription.topic == self@.subscription.topic,
            self@.subscription.seen.subset_of(next.0@.subscription.seen),
    {
        proof {
            use_type_invariant(&self);
        }
        let ghost before = self@;
        let Inbox { mut receiver, mut messages } = self;
        let mut fresh = receiver.drain(limit);
        let added = fresh.len();
        let ghost arrived = fresh@;
        messages.append(&mut fresh);
        proof {
            let ids = ids_of(arrived);
            let shown = envelopes_of(messages@);
            let seen = before.subscription.seen;
            assert(shown =~= before.messages + envelopes_of(arrived));
            assert(shown.take(before.messages.len() as int) =~= before.messages);
            lemma_seen_after(seen, ids);
            assert forall|k: int| 0 <= k < arrived.len() implies !seen.contains(#[trigger] ids[k])
                && forall|j: int| 0 <= j < k ==> ids[j] != ids[k] by {
                lemma_admitted_exactly_once(seen, ids, k);
            }
            assert forall|k: int| 0 <= k < shown.len() implies receiver@.seen.contains(
                (#[trigger] shown[k]).id,
            ) by {
                if k >= before.messages.len() {
                    let at = k - before.messages.len();
                    assert(shown[k].id == ids[at]);
                    assert(ids.contains(ids[at]));
                }
            }
            assert forall|i: int, j: int| 0 <= i < j < shown.len() implies (#[trigger] shown[i]).id
                != (#[trigger] shown[j]).id by {
                if j >= before.messages.len() {
                    let at = j - before.messages.len();
                    assert(shown[j].id == ids[at]);
                    if i >= before.messages.len() {
                        assert(shown[i].id == ids[i - before.messages.len()]);
                    } else {
                        assert(seen.contains(before.messages[i].id));
                    }
                }
            }
            assert forall|k: int| 0 <= k < shown.len() implies (#[trigger] shown[k]).topic
                == receiver@.topic by {
                if k >= before.messages.len() {
                    assert(shown[k] == arrived[k - before.messages.len()]@);
                }
            }
            assert forall|id: Seq<char>| seen.contains(id) implies receiver@.seen.contains(id) by {}
        }
        (Inbox { receiver, messages }, added)
    }

    /// Gives up the list and hands back the subscription, as `unsubscribe`
    /// wants it.
    pub fn into_handle(self) -> (receiver: SubscriptionHandle)
        ensures
            receiver@ == self@.subscription,
    {
        let Inbox { receiver, messages: _ } = self;
        receiver
    }
}

} // verus!
