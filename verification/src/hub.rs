//! The broadcast hub: a registry of live subscribers, each filtered to one
//! topic. Publishing hands an envelope to every subscriber of its topic and
//! drops the subscribers whose queue no longer takes it.

use vstd::prelude::*;
use vstd::std_specs::iter::IteratorSpec;
use tokio::sync::mpsc::UnboundedSender;
use crate::message::{ChatMessage, Signal};
use crate::subscription::SubscriptionHandle;

verus! {

/// One registered subscriber as the contracts see it.
pub struct Registration {
    /// The number the hub gave the subscriber; no other subscriber of the same
    /// hub ever has it.
    pub id: u64,
    /// The identifier of the topic the subscriber listens to.
    pub filter: Seq<char>,
}

struct Subscriber {
    id: u64,
    filter: String,
    sender: UnboundedSender<Signal>,
}

/// The registry of subscribers. One hub is made when the program starts and
/// handed to whoever publishes or subscribes.
pub struct BroadcastHub {
    subscribers: Vec<Subscriber>,
    issued: u64,
}

/// A hub as the contracts see it.
pub struct HubState {
    /// The subscribers, oldest first.
    pub registry: Seq<Registration>,
    /// How many subscriptions the hub has handed out so far; the next
    /// subscriber gets this number as its id.
    pub issued: nat,
}

/// The ids of a registry grow from front to back and all lie below `issued`.
pub open spec fn ordered(registry: Seq<Registration>, issued: nat) -> bool {
    &&& forall|i: int, j: int|
        #![trigger registry[i], registry[j]]
        0 <= i < j < registry.len() ==> registry[i].id < registry[j].id
    &&& forall|i: int| #![trigger registry[i]] 0 <= i < registry.len() ==> registry[i].id < issued
}

/// Whether a subscriber with this id is in the registry.
pub open spec fn registered(registry: Seq<Registration>, id: u64) -> bool {
    exists|i: int| 0 <= i < registry.len() && registry[i].id == id
}

/// Whether a subscriber with this id is in the registry and listens to
/// `topic`.
pub open spec fn listens(registry: Seq<Registration>, id: u64, topic: Seq<char>) -> bool {
    exists|i: int| 0 <= i < registry.len() && registry[i].id == id && registry[i].filter == topic
}

/// The registry without the subscribers whose id is in `gone`; the others
/// keep their order.
pub open spec fn without(registry: Seq<Registration>, gone: Set<u64>) -> Seq<Registration> {
    registry.filter(|r: Registration| !gone.contains(r.id))
}

/// Something that happens to a hub's registry: a subscriber comes, or some
/// leave, because they unsubscribed or because their queue refused a signal.
pub enum HubEvent {
    Subscribed { filter: Seq<char> },
    Left { gone: Set<u64> },
}

/// The hub after one event. It is what `subscribe` and what `reap`,
/// `unsubscribe`, `publish` and `probe` leave behind.
pub open spec fn after(state: HubState, event: HubEvent) -> HubState {
    match event {
        HubEvent::Subscribed { filter } => HubState {
            registry: state.registry.push(Registration { id: state.issued as u64, filter }),
            issued: state.issued + 1,
        },
        HubEvent::Left { gone } => HubState { registry: without(state.registry, gone), ..state },
    }
}

/// The hub after a run of events.
pub open spec fn after_all(state: HubState, events: Seq<HubEvent>) -> HubState
    decreases events.len(),
{
    if events.len() == 0 {
        state
    } else {
        after(after_all(state, events.drop_last()), events.last())
    }
}

/// `after` is `before` without some subscribers of `topic`; nobody else has
/// left and nobody has come.
pub open spec fn pruned(before: Seq<Registration>, after: Seq<Registration>, topic: Seq<char>) -> bool {
    exists|gone: Set<u64>|
        #![trigger without(before, gone)]
        after == without(before, gone) && forall|id: u64|
            gone.contains(id) ==> listens(before, id, topic)
}

/// What one round of delivery attempts did.
#[derive(Debug)]
pub struct PublishReport {
    /// The subscribers whose queue took the signal.
    pub delivered: Vec<u64>,
    /// The subscribers whose queue refused it. They are no longer registered.
    pub reaped: Vec<u64>,
}

/// The ids of a list grow from front to back: the list names its subscribers
/// in the order of the registry, each once.
pub open spec fn increasing(ids: Seq<u64>) -> bool {
    forall|i: int, j: int| 0 <= i < j < ids.len() ==> ids[i] < ids[j]
}

/// `delivered` and `reaped` split the subscribers of `topic` between them:
/// every subscriber of the topic is in exactly one of the two, no subscriber
/// of another topic is in either, and each list is in the order of the
/// registry.
pub open spec fn fanned_out(
    registry: Seq<Registration>,
    topic: Seq<char>,
    delivered: Seq<u64>,
    reaped: Seq<u64>,
) -> bool {
    &&& forall|id: u64|
        #![trigger listens(registry, id, topic)]
        listens(registry, id, topic) <==> delivered.contains(id) || reaped.contains(id)
    &&& forall|id: u64| !(#[trigger] delivered.contains(id) && reaped.contains(id))
    &&& increasing(delivered)
    &&& increasing(reaped)
}

/// `delivered` and `reaped` split all subscribers between them, each list in
/// the order of the registry.
pub open spec fn probed(registry: Seq<Registration>, delivered: Seq<u64>, reaped: Seq<u64>) -> bool {
    &&& forall|id: u64|
        #![trigger registered(registry, id)]
        registered(registry, id) <==> delivered.contains(id) || reaped.contains(id)
    &&& forall|id: u64| !(#[trigger] delivered.contains(id) && reaped.contains(id))
    &&& increasing(delivered)
    &&& increasing(reaped)
}

/// Whether a signal for `target` goes to this subscriber: an envelope goes to
/// the subscribers of its topic, a probe (no topic) to all.
spec fn addressed(registration: Registration, target: Option<Seq<char>>) -> bool {
    target matches Some(topic) ==> registration.filter == topic
}

/// Whether one of the first `upto` subscribers has this id and is addressed.
spec fn offered(registry: Seq<Registration>, target: Option<Seq<char>>, upto: int, id: u64) -> bool {
    exists|j: int| 0 <= j < upto && registry[j].id == id && addressed(#[trigger] registry[j], target)
}

spec fn registration(subscriber: Subscriber) -> Registration {
    Registration { id: subscriber.id, filter: subscriber.filter@ }
}

spec fn registry_of(subscribers: Seq<Subscriber>) -> Seq<Registration> {
    subscribers.map_values(|s: Subscriber| registration(s))
}

impl View for BroadcastHub {
    type V = HubState;

    closed spec fn view(&self) -> HubState {
        HubState { registry: registry_of(self.subscribers@), issued: self.issued as nat }
    }
}

impl BroadcastHub {
    #[verifier::type_invariant]
    spec fn well_formed(&self) -> bool {
        ordered(self@.registry, self@.issued)
    }

    /// A hub without subscribers.
    pub fn new() -> (hub: BroadcastHub)
        ensures
            hub@.registry == Seq::<Registration>::empty(),
            hub@.issued == 0,
    {
        let hub = BroadcastHub { subscribers: Vec::new(), issued: 0 };
        assert(hub@.registry =~= Seq::<Registration>::empty());
        hub
    }

    /// How many subscribers are registered. The call also recalls that their
    /// ids are in order, for a caller that was handed the hub.
    pub fn len(&self) -> (count: usize)
        ensures
            count == self@.registry.len(),
            ordered(self@.registry, self@.issued),
    {
        proof {
            use_type_invariant(self);
        }
        self.subscribers.len()
    }

    /// Whether the hub can take one more subscriber: the ids have not run out.
    pub fn can_subscribe(&self) -> (free: bool)
        ensures
            free == (self@.issued < u64::MAX),
    {
        self.issued < u64::MAX
    }

    /// Registers a new subscriber that is handed the envelopes of
    /// `topic_filter` and of no other topic. The handle that comes back
    /// receives them and is what `unsubscribe` takes.
    pub fn subscribe(&mut self, topic_filter: String) -> (handle: SubscriptionHandle)
        requires
            old(self)@.issued < u64::MAX,
        ensures
            final(self)@.registry == old(self)@.registry.push(
                Registration { id: old(self)@.issued as u64, filter: topic_filter@ },
            ),
            final(self)@.issued == old(self)@.issued + 1,
            final(self)@ == after(old(self)@, HubEvent::Subscribed { filter: topic_filter@ }),
            ordered(final(self)@.registry, final(self)@.issued),
            handle@.id == old(self)@.issued,
            handle@.topic == topic_filter@,
            handle@.seen == Set::<Seq<char>>::empty(),
    {
        proof {
            use_type_invariant(&*self);
        }
        let id = self.issued;
        let (sender, receiver) = tokio::sync::mpsc::unbounded_channel::<Signal>();
        let handle = SubscriptionHandle::new(id, topic_filter.clone(), receiver);
        let ghost before = self.subscribers@;
        let mut subscribers: Vec<Subscriber> = Vec::new();
        core::mem::swap(&mut self.subscribers, &mut subscribers);
        proof {
            assert(registry_of(self.subscribers@) =~= Seq::<Registration>::empty());
        }
        subscribers.push(Subscriber { id, filter: topic_filter, sender });
        proof {
            let old_registry = registry_of(before);
            let registry = registry_of(subscribers@);
            assert(registry =~= old_registry.push(Registration { id, filter: topic_filter@ }));
            assert forall|i: int, j: int| 0 <= i < j < registry.len() implies registry[i].id
                < registry[j].id by {
                assert(registry[i] == old_registry[i]);
                if j < old_registry.len() {
                    assert(registry[j] == old_registry[j]);
                }
            }
            assert forall|i: int| 0 <= i < registry.len() implies registry[i].id < id + 1 by {
                if i < old_registry.len() {
                    assert(registry[i] == old_registry[i]);
                }
            }
        }
        self.issued = id + 1;
        self.subscribers = subscribers;
        handle
    }

    /// Hands `envelope` to the queue of every subscriber of its topic, and
    /// to no other. A subscriber whose queue refuses the envelope is taken for
    /// dead and removed in the same call; the others are not affected by it,
    /// and the publisher is not told of it as a failure.
    ///
    /// Which queues refuse is not decided here: the report says which did.
    pub fn publish(&mut self, envelope: &ChatMessage) -> (report: PublishReport)
        ensures
            fanned_out(
                old(self)@.registry,
                envelope@.topic,
                report.delivered@,
                report.reaped@,
            ),
            final(self)@.registry == without(old(self)@.registry, report.reaped@.to_set()),
            final(self)@.issued == old(self)@.issued,
            final(self)@ == after(old(self)@, HubEvent::Left { gone: report.reaped@.to_set() }),
            ordered(final(self)@.registry, final(self)@.issued),
    {
        let report = self.offer(Some(envelope));
        proof {
            let registry = self@.registry;
            let topic = envelope@.topic;
            assert forall|id: u64| #[trigger]
                listens(registry, id, topic) <==> offered(
                    registry,
                    Some(topic),
                    registry.len() as int,
                    id,
                ) by {
                if listens(registry, id, topic) {
                    let j = choose|j: int|
                        0 <= j < registry.len() && registry[j].id == id && registry[j].filter
                            == topic;
                    assert(addressed(registry[j], Some(topic)));
                }
            }
        }
        self.reap(&report.reaped);
        report
    }

    /// Tests every subscriber's queue with a probe, which no consumer ever
    /// sees, and removes the subscribers whose queue refuses it.
    pub fn probe(&mut self) -> (report: PublishReport)
        ensures
            probed(old(self)@.registry, report.delivered@, report.reaped@),
            final(self)@.registry == without(old(self)@.registry, report.reaped@.to_set()),
            final(self)@.issued == old(self)@.issued,
            final(self)@ == after(old(self)@, HubEvent::Left { gone: report.reaped@.to_set() }),
            ordered(final(self)@.registry, final(self)@.issued),
    {
        let report = self.offer(None);
        proof {
            let registry = self@.registry;
            assert forall|id: u64| #[trigger]
                registered(registry, id) <==> offered(registry, None, registry.len() as int, id) by {
                if registered(registry, id) {
                    let j = choose|j: int| 0 <= j < registry.len() && registry[j].id == id;
                    assert(addressed(registry[j], None));
                }
            }
        }
        self.reap(&report.reaped);
        report
    }

    /// Offers a signal to the queue of every addressed subscriber: the
    /// envelope to the subscribers of its topic, or a probe to all. Nobody is
    /// removed here.
    fn offer(&self, envelope: Option<&ChatMessage>) -> (report: PublishReport)
        ensures
            forall|id: u64|
                #[trigger] offered(
                    self@.registry,
                    target_of(envelope),
                    self@.registry.len() as int,
                    id,
                ) <==> report.delivered@.contains(id) || report.reaped@.contains(id),
            forall|id: u64| !(#[trigger] report.delivered@.contains(id) && report.reaped@.contains(id)),
            increasing(report.delivered@),
            increasing(report.reaped@),
    {
        proof {
            use_type_invariant(self);
        }
        let ghost registry = self@.registry;
        let ghost target = target_of(envelope);
        let mut delivered: Vec<u64> = Vec::new();
        let mut reaped: Vec<u64> = Vec::new();
        let mut i: usize = 0;
        while i < self.subscribers.len()
            invariant
                i <= self.subscribers.len(),
                registry == registry_of(self.subscribers@),
                target == target_of(envelope),
                ordered(registry, self@.issued),
                forall|id: u64|
                    #[trigger] offered(registry, target, i as int, id) <==> delivered@.contains(id)
                        || reaped@.contains(id),
                forall|id: u64| !(#[trigger] delivered@.contains(id) && reaped@.contains(id)),
                increasing(delivered@),
                increasing(reaped@),
            decreases self.subscribers.len() - i,
        {
            let subscriber = &self.subscribers[i];
            let ghost current = registry[i as int];
            let ghost delivered_before = delivered@;
            let ghost reaped_before = reaped@;
            assert(current == registration(*subscriber));
            let taken = match envelope {
                Some(message) => {
                    if subscriber.filter == message.topic_hash {
                        Some(hand_over(&subscriber.sender, Signal::Data(message.clone())))
                    } else {
                        None
                    }
                },
                None => Some(hand_over(&subscriber.sender, Signal::Probe)),
            };
            assert(taken is Some <==> addressed(current, target));
            proof {
                assert forall|id: u64| #[trigger]
                    offered(registry, target, i as int, id) implies id < current.id by {
                    let j = choose|j: int|
                        0 <= j < i && registry[j].id == id && addressed(
                            #[trigger] registry[j],
                            target,
                        );
                    assert(registry[j].id < registry[i as int].id);
                }
                assert forall|k: int| 0 <= k < delivered@.len() implies delivered@[k]
                    < current.id by {
                    assert(delivered@.contains(delivered@[k]));
                    assert(offered(registry, target, i as int, delivered@[k]));
                }
                assert forall|k: int| 0 <= k < reaped@.len() implies reaped@[k] < current.id by {
                    assert(reaped@.contains(reaped@[k]));
                    assert(offered(registry, target, i as int, reaped@[k]));
                }
            }
            match taken {
                Some(true) => {
                    delivered.push(subscriber.id);
                },
                Some(false) => {
                    reaped.push(subscriber.id);
                },
                None => {},
            }
            proof {
                assert forall|id: u64|
                    #[trigger] offered(registry, target, i + 1, id) <==> delivered@.contains(id)
                        || reaped@.contains(id) by {
                    if offered(registry, target, i + 1, id) {
                        let j = choose|j: int|
                            0 <= j < i + 1 && registry[j].id == id && addressed(
                                #[trigger] registry[j],
                                target,
                            );
                        if j < i {
                            assert(offered(registry, target, i as int, id));
                        }
                    }
                    if offered(registry, target, i as int, id) {
                        let j = choose|j: int|
                            0 <= j < i && registry[j].id == id && addressed(
                                #[trigger] registry[j],
                                target,
                            );
                        assert(0 <= j < i + 1);
                    }
                    if taken is Some && id == current.id {
                        assert(addressed(registry[i as int], target));
                    }
                    lemma_contains_after_push(delivered_before, delivered@, current.id, id);
                    lemma_contains_after_push(reaped_before, reaped@, current.id, id);
                }
                assert forall|id: u64| !(#[trigger] delivered@.contains(id) && reaped@.contains(
                    id,
                )) by {
                    lemma_contains_after_push(delivered_before, delivered@, current.id, id);
                    lemma_contains_after_push(reaped_before, reaped@, current.id, id);
                }
                lemma_increasing_after_push(delivered_before, delivered@, current.id);
                lemma_increasing_after_push(reaped_before, reaped@, current.id);
            }
            i = i + 1;
        }
        PublishReport { delivered, reaped }
    }

    /// Removes the subscribers whose id is listed in `dead`; the others stay,
    /// in their order. An id that is not registered changes nothing.
    pub fn reap(&mut self, dead: &Vec<u64>)
        ensures
            final(self)@.registry == without(old(self)@.registry, dead@.to_set()),
            final(self)@.issued == old(self)@.issued,
            final(self)@ == after(old(self)@, HubEvent::Left { gone: dead@.to_set() }),
            ordered(final(self)@.registry, final(self)@.issued),
    {
        proof {
            use_type_invariant(&*self);
        }
        let ghost before = self.subscribers@;
        let ghost registry = registry_of(before);
        let ghost gone = dead@.to_set();
        let mut pending: Vec<Subscriber> = Vec::new();
        core::mem::swap(&mut self.subscribers, &mut pending);
        proof {
            assert(registry_of(self.subscribers@) =~= Seq::<Registration>::empty());
            assert(registry.take(0) =~= Seq::<Registration>::empty());
        }
        let mut kept: Vec<Subscriber> = Vec::new();
        for subscriber in rest: pending
            invariant
                rest.seq() == before,
                registry == registry_of(before),
                gone == dead@.to_set(),
                registry_of(kept@) == without(registry.take(rest.index()), gone),
        {
            let ghost done = rest.index();
            let ghost kept_before = registry_of(kept@);
            proof {
                assert(registration(subscriber) == registry[done]);
                lemma_without_step(registry, gone, done);
            }
            if !holds(dead, subscriber.id) {
                kept.push(subscriber);
                proof {
                    assert(registry_of(kept@) =~= kept_before.push(registry[done]));
                }
            }
        }
        proof {
            assert(registry.take(before.len() as int) =~= registry);
            lemma_without_ordered(registry, self.issued as nat, gone);
        }
        self.subscribers = kept;
    }

    /// Removes the subscriber that `handle` belongs to. Publishing no longer
    /// reaches it; a second call changes nothing.
    pub fn unsubscribe(&mut self, handle: &SubscriptionHandle)
        ensures
            final(self)@.registry == without(old(self)@.registry, set![handle@.id]),
            final(self)@.issued == old(self)@.issued,
            final(self)@ == after(old(self)@, HubEvent::Left { gone: set![handle@.id] }),
            ordered(final(self)@.registry, final(self)@.issued),
    {
        let mut dead: Vec<u64> = Vec::new();
        dead.push(handle.id());
        proof {
            assert(dead@ =~= seq![handle@.id]);
            assert forall|id: u64| dead@.to_set().contains(id) <==> id == handle@.id by {
                assert(dead@[0] == handle@.id);
            }
            assert(dead@.to_set() =~= set![handle@.id]);
        }
        self.reap(&dead);
    }
}

/// Whether `id` is listed in `ids`.
fn holds(ids: &Vec<u64>, id: u64) -> (found: bool)
    ensures
        found == ids@.to_set().contains(id),
{
    let mut i: usize = 0;
    while i < ids.len()
        invariant
            i <= ids.len(),
            forall|j: int| 0 <= j < i ==> ids@[j] != id,
        decreases ids.len() - i,
    {
        if ids[i] == id {
            assert(ids@.contains(id));
            return true;
        }
        i = i + 1;
    }
    false
}

/// Who is left after some subscribers have gone: exactly those of the
/// registry whose id is not among the gone.
pub proof fn lemma_without(registry: Seq<Registration>, gone: Set<u64>)
    ensures
        forall|r: Registration| #[trigger]
            without(registry, gone).contains(r) <==> registry.contains(r) && !gone.contains(r.id),
        forall|id: u64| #[trigger]
            registered(without(registry, gone), id) <==> registered(registry, id) && !gone.contains(
                id,
            ),
        forall|id: u64, topic: Seq<char>| #[trigger]
            listens(without(registry, gone), id, topic) <==> listens(registry, id, topic)
                && !gone.contains(id),
{
    let keep = |r: Registration| !gone.contains(r.id);
    let left = without(registry, gone);
    assert forall|r: Registration| #[trigger]
        left.contains(r) <==> registry.contains(r) && !gone.contains(r.id) by {
        if left.contains(r) {
            registry.lemma_filter_contains_rev(keep, r);
            let k = choose|k: int| 0 <= k < left.len() && left[k] == r;
            registry.lemma_filter_pred(keep, k);
        }
        if registry.contains(r) && !gone.contains(r.id) {
            let k = choose|k: int| 0 <= k < registry.len() && registry[k] == r;
            registry.lemma_filter_contains(keep, k);
        }
    }
    assert forall|id: u64, topic: Seq<char>| #[trigger]
        listens(left, id, topic) <==> listens(registry, id, topic) && !gone.contains(id) by {
        if listens(left, id, topic) {
            let k = choose|k: int|
                0 <= k < left.len() && left[k].id == id && left[k].filter == topic;
            assert(left.contains(left[k]));
            let j = choose|j: int| 0 <= j < registry.len() && registry[j] == left[k];
            assert(registry[j].id == id && registry[j].filter == topic);
        }
        if listens(registry, id, topic) && !gone.contains(id) {
            let k = choose|k: int|
                0 <= k < registry.len() && registry[k].id == id && registry[k].filter == topic;
            assert(registry.contains(registry[k]));
            assert(left.contains(registry[k]));
            let j = choose|j: int| 0 <= j < left.len() && left[j] == registry[k];
            assert(left[j].id == id && left[j].filter == topic);
        }
    }
    assert forall|id: u64| #[trigger]
        registered(left, id) <==> registered(registry, id) && !gone.contains(id) by {
        if registered(left, id) {
            let k = choose|k: int| 0 <= k < left.len() && left[k].id == id;
            assert(left.contains(left[k]));
            let j = choose|j: int| 0 <= j < registry.len() && registry[j] == left[k];
            assert(registry[j].id == id);
        }
        if registered(registry, id) && !gone.contains(id) {
            let k = choose|k: int| 0 <= k < registry.len() && registry[k].id == id;
            assert(registry.contains(registry[k]));
            assert(left.contains(registry[k]));
            let j = choose|j: int| 0 <= j < left.len() && left[j] == registry[k];
            assert(left[j].id == id);
        }
    }
}

/// Removing the same subscribers a second time changes nothing: unsubscribing
/// twice is unsubscribing once.
pub proof fn lemma_without_twice(registry: Seq<Registration>, gone: Set<u64>)
    ensures
        without(without(registry, gone), gone) == without(registry, gone),
    decreases registry.len(),
{
    reveal(Seq::filter);
    let keep = |r: Registration| !gone.contains(r.id);
    if registry.len() > 0 {
        let front = registry.drop_last();
        lemma_without_twice(front, gone);
        if keep(registry.last()) {
            let left = without(front, gone).push(registry.last());
            assert(left.drop_last() =~= without(front, gone));
            assert(left.last() == registry.last());
        }
    }
}

/// Topic isolation: the envelope of one topic is handed to no subscriber of
/// another. Whoever listens to `own` is neither among those an envelope of a
/// different topic was delivered to, nor among those reaped for refusing it.
pub proof fn lemma_topic_isolation(
    state: HubState,
    id: u64,
    own: Seq<char>,
    other: Seq<char>,
    delivered: Seq<u64>,
    reaped: Seq<u64>,
)
    requires
        ordered(state.registry, state.issued),
        listens(state.registry, id, own),
        own != other,
        fanned_out(state.registry, other, delivered, reaped),
    ensures
        !delivered.contains(id),
        !reaped.contains(id),
        registered(without(state.registry, reaped.to_set()), id),
{
    let registry = state.registry;
    let i = choose|i: int| 0 <= i < registry.len() && registry[i].id == id && registry[i].filter == own;
    if listens(registry, id, other) {
        let j = choose|j: int|
            0 <= j < registry.len() && registry[j].id == id && registry[j].filter == other;
        if i < j {
            assert(registry[i].id < registry[j].id);
        } else if j < i {
            assert(registry[j].id < registry[i].id);
        }
    }
    lemma_without(registry, reaped.to_set());
    assert(registered(registry, id));
}

/// One subscriber's failure is not another's: whoever took the envelope is
/// still registered when the call returns, whoever else was reaped in it.
pub proof fn lemma_delivered_stays(
    registry: Seq<Registration>,
    topic: Seq<char>,
    delivered: Seq<u64>,
    reaped: Seq<u64>,
    id: u64,
)
    requires
        fanned_out(registry, topic, delivered, reaped),
        delivered.contains(id),
    ensures
        listens(without(registry, reaped.to_set()), id, topic),
{
    lemma_without(registry, reaped.to_set());
    assert(listens(registry, id, topic));
}

/// Reap on death: a subscriber whose queue refused an envelope is not in the
/// registry when the call returns, so the next call finds it absent.
pub proof fn lemma_reaped_is_absent(
    state: HubState,
    topic: Seq<char>,
    delivered: Seq<u64>,
    reaped: Seq<u64>,
    id: u64,
)
    requires
        fanned_out(state.registry, topic, delivered, reaped),
        reaped.contains(id),
    ensures
        !registered(without(state.registry, reaped.to_set()), id),
{
    lemma_without(state.registry, reaped.to_set());
}

/// A subscriber that is not registered receives nothing: no envelope of any
/// topic is delivered to it.
pub proof fn lemma_absent_receives_nothing(
    registry: Seq<Registration>,
    id: u64,
    topic: Seq<char>,
    delivered: Seq<u64>,
    reaped: Seq<u64>,
)
    requires
        !registered(registry, id),
        fanned_out(registry, topic, delivered, reaped),
    ensures
        !delivered.contains(id),
        !reaped.contains(id),
{
    if listens(registry, id, topic) {
        let i = choose|i: int|
            0 <= i < registry.len() && registry[i].id == id && registry[i].filter == topic;
        assert(registered(registry, id));
    }
}

/// One event keeps the ids in order and below the count of subscriptions.
pub proof fn lemma_after_ordered(state: HubState, event: HubEvent)
    requires
        ordered(state.registry, state.issued),
        after(state, event).issued <= u64::MAX,
    ensures
        ordered(after(state, event).registry, after(state, event).issued),
        state.issued <= after(state, event).issued,
{
    let next = after(state, event);
    match event {
        HubEvent::Subscribed { filter } => {
            assert forall|i: int, j: int| 0 <= i < j < next.registry.len() implies next.registry[i].id
                < next.registry[j].id by {
                assert(next.registry[i] == state.registry[i]);
                if j < state.registry.len() {
                    assert(next.registry[j] == state.registry[j]);
                }
            }
            assert forall|i: int| 0 <= i < next.registry.len() implies next.registry[i].id
                < next.issued by {
                if i < state.registry.len() {
                    assert(next.registry[i] == state.registry[i]);
                }
            }
        },
        HubEvent::Left { gone } => {
            lemma_without_ordered(state.registry, state.issued, gone);
        },
    }
}

/// Once gone, gone for good: a subscriber that has been removed, by
/// `unsubscribe` or because its queue refused a signal, is never registered
/// again, whatever happens to the hub afterwards. Its id was handed out
/// before, and later subscribers get later ids.
pub proof fn lemma_gone_for_good(state: HubState, id: u64, events: Seq<HubEvent>)
    requires
        ordered(state.registry, state.issued),
        id < state.issued,
        !registered(state.registry, id),
        after_all(state, events).issued <= u64::MAX,
    ensures
        !registered(after_all(state, events).registry, id),
        ordered(after_all(state, events).registry, after_all(state, events).issued),
        state.issued <= after_all(state, events).issued,
    decreases events.len(),
{
    if events.len() > 0 {
        let before = after_all(state, events.drop_last());
        let last = events.last();
        assert(before.issued <= after(before, last).issued) by {
            match last {
                HubEvent::Subscribed { filter } => {},
                HubEvent::Left { gone } => {},
            }
        }
        lemma_gone_for_good(state, id, events.drop_last());
        lemma_after_ordered(before, last);
        match last {
            HubEvent::Subscribed { filter } => {
                let next = after(before, last);
                if registered(next.registry, id) {
                    let i = choose|i: int| 0 <= i < next.registry.len() && next.registry[i].id == id;
                    if i < before.registry.len() {
                        assert(before.registry[i].id == id);
                    }
                }
            },
            HubEvent::Left { gone } => {
                lemma_without(before.registry, gone);
            },
        }
    }
}

/// Those who stay keep their order, and their ids stay below the count.
proof fn lemma_without_ordered(registry: Seq<Registration>, issued: nat, gone: Set<u64>)
    requires
        ordered(registry, issued),
    ensures
        ordered(without(registry, gone), issued),
    decreases registry.len(),
{
    reveal(Seq::filter);
    if registry.len() > 0 {
        let front = registry.drop_last();
        let last = registry.last();
        assert forall|i: int, j: int| 0 <= i < j < front.len() implies front[i].id < front[j].id by {
            assert(front[i] == registry[i] && front[j] == registry[j]);
        }
        assert forall|i: int| 0 <= i < front.len() implies front[i].id < issued by {
            assert(front[i] == registry[i]);
        }
        lemma_without_ordered(front, issued, gone);
        let left = without(front, gone);
        if !gone.contains(last.id) {
            let all = left.push(last);
            lemma_without(front, gone);
            assert forall|i: int, j: int| 0 <= i < j < all.len() implies all[i].id < all[j].id by {
                assert(all[i] == left[i]);
                if j < left.len() {
                    assert(all[j] == left[j]);
                } else {
                    assert(left.contains(left[i]));
                    let k = choose|k: int| 0 <= k < front.len() && front[k] == left[i];
                    assert(registry[k].id < registry[registry.len() - 1].id);
                }
            }
            assert forall|i: int| 0 <= i < all.len() implies all[i].id < issued by {
                if i < left.len() {
                    assert(all[i] == left[i]);
                } else {
                    assert(all[i] == registry[registry.len() - 1]);
                }
            }
        }
    }
}

/// The topic that a round of offers is addressed to: that of the envelope, or
/// none for a probe.
spec fn target_of(envelope: Option<&ChatMessage>) -> Option<Seq<char>> {
    match envelope {
        Some(message) => Some(message@.topic),
        None => None,
    }
}

/// Puts `signal` into the queue behind `sender` without waiting, and says
/// whether the queue took it.
fn hand_over(sender: &UnboundedSender<Signal>, signal: Signal) -> (taken: bool) {
    match sender.send(signal) {
        Ok(_) => true,
        Err(_) => false,
    }
}

/// What a list holds once `pushed` may have been added at its end.
proof fn lemma_contains_after_push(before: Seq<u64>, after: Seq<u64>, pushed: u64, id: u64)
    requires
        after == before || after == before.push(pushed),
    ensures
        after == before ==> (after.contains(id) <==> before.contains(id)),
        after == before.push(pushed) ==> (after.contains(id) <==> before.contains(id) || id
            == pushed),
{
    if after == before.push(pushed) {
        if before.contains(id) {
            let j = choose|j: int| 0 <= j < before.len() && before[j] == id;
            assert(after[j] == id);
        }
        if id == pushed {
            assert(after[before.len() as int] == id);
        }
    }
}

/// A growing list still grows when something greater is added at its end.
proof fn lemma_increasing_after_push(before: Seq<u64>, after: Seq<u64>, pushed: u64)
    requires
        increasing(before),
        forall|k: int| 0 <= k < before.len() ==> before[k] < pushed,
        after == before || after == before.push(pushed),
    ensures
        increasing(after),
{
}

/// Filtering one subscriber more: it is added at the end if it stays.
proof fn lemma_without_step(registry: Seq<Registration>, gone: Set<u64>, done: int)
    requires
        0 <= done < registry.len(),
    ensures
        without(registry.take(done + 1), gone) == if gone.contains(registry[done].id) {
            without(registry.take(done), gone)
        } else {
            without(registry.take(done), gone).push(registry[done])
        },
{
    reveal(Seq::filter);
    assert(registry.take(done + 1).drop_last() =~= registry.take(done));
    assert(registry.take(done + 1).last() == registry[done]);
}

} // verus!
