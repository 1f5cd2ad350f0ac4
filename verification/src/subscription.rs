//! The consumer's end of a subscription: it takes signals from the queue,
//! drops probes, envelopes of other topics and envelopes it has surfaced
//! before, and hands the rest to its caller.

use vstd::prelude::*;
use tokio::sync::mpsc::UnboundedReceiver;
use crate::dedup::{admits, seen_after, DedupFilter};
use crate::message::{ChatMessage, Envelope, Signal};

verus! {

/// What a subscriber holds: the receiving end of its queue, the topic it
/// listens to and the ids it has surfaced.
pub struct SubscriptionHandle {
    id: u64,
    topic: String,
    receiver: UnboundedReceiver<Signal>,
    seen: DedupFilter,
}

/// A subscription as the contracts see it.
pub struct Subscription {
    /// The subscriber's id in the hub that made the handle.
    pub id: u64,
    /// The identifier of the topic it listens to.
    pub topic: Seq<char>,
    /// The ids of the envelopes it has surfaced.
    pub seen: Set<Seq<char>>,
}

impl View for SubscriptionHandle {
    type V = Subscription;

    closed spec fn view(&self) -> Subscription {
        Subscription { id: self.id, topic: self.topic@, seen: self.seen@ }
    }
}

/// What a subscription surfaces when `signal` arrives: the envelope, if the
/// signal carries one of the subscription's topic whose id it has not seen.
pub open spec fn surfaced(subscription: Subscription, signal: Signal) -> Option<Envelope> {
    match signal {
        Signal::Probe => None,
        Signal::Data(message) => if message@.topic == subscription.topic && admits(
            subscription.seen,
            message@.id,
        ) {
            Some(message@)
        } else {
            None
        },
    }
}

/// The subscription after `signal` has arrived: the id of what was surfaced
/// is now seen, and nothing else has changed.
pub open spec fn after_signal(subscription: Subscription, signal: Signal) -> Subscription {
    match surfaced(subscription, signal) {
        Some(envelope) => Subscription { seen: subscription.seen.insert(envelope.id), ..subscription },
        None => subscription,
    }
}

/// The subscription after a run of signals has arrived, in order.
pub open spec fn after_signals(subscription: Subscription, signals: Seq<Signal>) -> Subscription
    decreases signals.len(),
{
    if signals.len() == 0 {
        subscription
    } else {
        after_signal(after_signals(subscription, signals.drop_last()), signals.last())
    }
}

/// Topic isolation at the consumer: whatever arrives in the queue, what is
/// surfaced is an envelope of the subscription's own topic.
pub proof fn lemma_surfaced_is_own_topic(subscription: Subscription, signal: Signal)
    ensures
        surfaced(subscription, signal) matches Some(envelope) ==> {
            &&& signal matches Signal::Data(message)
            &&& message@ == envelope
            &&& envelope.topic == subscription.topic
            &&& !subscription.seen.contains(envelope.id)
        },
{
}

/// Signals change neither the id nor the topic of a subscription, and what it
/// has seen it does not forget.
pub proof fn lemma_signals_keep(subscription: Subscription, signals: Seq<Signal>)
    ensures
        after_signals(subscription, signals).id == subscription.id,
        after_signals(subscription, signals).topic == subscription.topic,
        subscription.seen.subset_of(after_signals(subscription, signals).seen),
    decreases signals.len(),
{
    if signals.len() > 0 {
        lemma_signals_keep(subscription, signals.drop_last());
    }
}

/// At most once: when an envelope has been surfaced, no envelope with the same
/// id is surfaced again, whatever arrives in between.
pub proof fn lemma_surfaced_once(
    subscription: Subscription,
    first: ChatMessage,
    between: Seq<Signal>,
    again: ChatMessage,
)
    requires
        surfaced(subscription, Signal::Data(first)) is Some,
        again@.id == first@.id,
    ensures
        surfaced(
            after_signals(after_signal(subscription, Signal::Data(first)), between),
            Signal::Data(again),
        ) is None,
{
    let once = after_signal(subscription, Signal::Data(first));
    assert(once.seen.contains(first@.id));
    lemma_signals_keep(once, between);
}

impl SubscriptionHandle {
    /// The handle of subscriber `id` for `topic`, reading from `receiver`.
    pub(crate) fn new(id: u64, topic: String, receiver: UnboundedReceiver<Signal>) -> (handle:
        SubscriptionHandle)
        ensures
            handle@ == (Subscription { id, topic: topic@, seen: Set::<Seq<char>>::empty() }),
    {
        SubscriptionHandle { id, topic, receiver, seen: DedupFilter::new() }
    }

    /// The subscriber's id.
    pub fn id(&self) -> (id: u64)
        ensures
            id == self@.id,
    {
        self.id
    }

    /// The identifier of the topic the subscription listens to.
    pub fn topic(&self) -> (topic: &String)
        ensures
            topic@ == self@.topic,
    {
        &self.topic
    }

    /// How many ids the subscription has seen. The number only grows while
    /// the subscription lives.
    pub fn seen_len(&self) -> (count: usize)
        ensures
            count == self@.seen.len(),
    {
        self.seen.len()
    }

    /// Decides what becomes of a signal that has arrived. A probe is dropped;
    /// so is an envelope of another topic, and one whose id has been surfaced
    /// before. Any other envelope is surfaced, and its id is remembered.
    pub fn accept(&mut self, signal: Signal) -> (envelope: Option<ChatMessage>)
        ensures
            final(self)@ == after_signal(old(self)@, signal),
            match envelope {
                Some(message) => surfaced(old(self)@, signal) == Some(message@),
                None => surfaced(old(self)@, signal) is None,
            },
    {
        match signal {
            Signal::Probe => None,
            Signal::Data(message) => {
                if message.topic_hash == self.topic && self.seen.admit_id(message.id.as_str()) {
                    Some(message)
                } else {
                    assert(self.seen@ =~= old(self).seen@);
                    None
                }
            },
        }
    }

    /// Records `id` as surfaced without an envelope having arrived, as a
    /// sender does for its own message so that the echo is dropped. Says
    /// whether the id was new.
    pub fn mark_seen(&mut self, id: &str) -> (fresh: bool)
        ensures
            fresh == admits(old(self)@.seen, id@),
            final(self)@ == (Subscription { seen: old(self)@.seen.insert(id@), ..old(self)@ }),
    {
        self.seen.admit_id(id)
    }

    /// The next envelope for the consumer, without waiting: signals are taken
    /// from the queue until `accept` lets one through or the queue is empty.
    ///
    /// What is waiting is not decided here. Whatever it is: an envelope that
    /// comes back is of this subscription's topic and was not surfaced before,
    /// and its id is the one id added to the ids seen.
    pub fn poll(&mut self) -> (envelope: Option<ChatMessage>)
        ensures
            match envelope {
                Some(message) => {
                    &&& message@.topic == old(self)@.topic
                    &&& admits(old(self)@.seen, message@.id)
                    &&& final(self)@ == (Subscription {
                        seen: old(self)@.seen.insert(message@.id),
                        ..old(self)@
                    })
                },
                None => final(self)@ == old(self)@,
            },
    {
        // No queue holds more signals than this, so the bound only serves to
        // show that the loop ends.
        let mut budget: usize = usize::MAX;
        while budget > 0
            invariant
                self@ == old(self)@,
            decreases budget,
        {
            match self.receiver.try_recv() {
                Ok(signal) => {
                    let surfaced = self.accept(signal);
                    if surfaced.is_some() {
                        return surfaced;
                    }
                },
                Err(_) => {
                    return None;
                },
            }
            budget = budget - 1;
        }
        None
    }

    /// Up to `limit` envelopes for the consumer, oldest first, without
    /// waiting: `poll` is called until it has nothing or the limit is reached.
    ///
    /// Whatever was waiting: each envelope that comes back is of this
    /// subscription's topic, no id comes back twice or was surfaced before,
    /// and exactly the ids that come back are added to the ids seen.
    pub fn drain(&mut self, limit: usize) -> (envelopes: Vec<ChatMessage>)
        ensures
            envelopes@.len() <= limit,
            forall|k: int|
                0 <= k < envelopes@.len() ==> (#[trigger] envelopes@[k])@.topic == old(self)@.topic,
            forall|k: int|
                0 <= k < envelopes@.len() ==> admits(
                    seen_after(old(self)@.seen, ids_of(envelopes@).take(k)),
                    #[trigger] ids_of(envelopes@)[k],
                ),
            final(self)@ == (Subscription {
                seen: seen_after(old(self)@.seen, ids_of(envelopes@)),
                ..old(self)@
            }),
    {
        let mut envelopes: Vec<ChatMessage> = Vec::new();
        assert(ids_of(envelopes@) =~= Seq::<Seq<char>>::empty());
        while envelopes.len() < limit
            invariant
                envelopes@.len() <= limit,
                forall|k: int|
                    0 <= k < envelopes@.len() ==> (#[trigger] envelopes@[k])@.topic == old(
                        self,
                    )@.topic,
                forall|k: int|
                    0 <= k < envelopes@.len() ==> admits(
                        seen_after(old(self)@.seen, ids_of(envelopes@).take(k)),
                        #[trigger] ids_of(envelopes@)[k],
                    ),
                self@ == (Subscription {
                    seen: seen_after(old(self)@.seen, ids_of(envelopes@)),
                    ..old(self)@
                }),
            decreases limit - envelopes.len(),
        {
            let ghost ids_before = ids_of(envelopes@);
            match self.poll() {
                Some(message) => {
                    envelopes.push(message);
                    proof {
                        let ids = ids_of(envelopes@);
                        assert(ids =~= ids_before.push(message@.id));
                        assert(ids.drop_last() =~= ids_before);
                        assert(ids.take(ids_before.len() as int) =~= ids_before);
                        assert forall|k: int| 0 <= k < envelopes@.len() implies admits(
                            seen_after(old(self)@.seen, ids.take(k)),
                            #[trigger] ids[k],
                        ) by {
                            if k < ids_before.len() {
                                assert(ids.take(k) =~= ids_before.take(k));
                                assert(ids[k] == ids_before[k]);
                            }
                        }
                    }
                },
                None => {
                    break ;
                },
            }
        }
        envelopes
    }
}

/// The ids of a run of envelopes, in order.
pub open spec fn ids_of(envelopes: Seq<ChatMessage>) -> Seq<Seq<char>> {
    envelopes.map_values(|message: ChatMessage| message@.id)
}

} // verus!
