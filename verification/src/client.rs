//! The chat client: the topics it has created or joined, the topic it is
//! talking in, and the calls that create a topic, join one by its ticket and
//! send a message through a hub.

use vstd::prelude::*;
use crate::directory::TopicDirectory;
use crate::error::ChatError;
use crate::hub::{
    fanned_out, listens, ordered, pruned, without, BroadcastHub, PublishReport, Registration,
};
use crate::message::{ChatMessage, Envelope};
use crate::platform::{fresh_token, is_token, now_millis};
use crate::subscription::SubscriptionHandle;
use crate::text::{chars_of, text_of};
use crate::ticket::{decode, decoded, encode, encoded, SEPARATOR};

verus! {

/// One client. Its directory is its own: nothing here is shared between
/// clients, and nothing outlives the process.
pub struct IrohClient {
    /// The id of the network node, once the network has been set up.
    pub node_id: Option<String>,
    /// The ticket of the active topic.
    pub topic_ticket: Option<String>,
    /// The identifier of the active topic: the one that messages are sent to.
    pub topic_hash: Option<String>,
    /// Every topic created or joined so far, by name.
    pub subscribed_topics: TopicDirectory,
}

/// A client as the contracts see it.
pub struct ClientState {
    pub node_id: Option<Seq<char>>,
    pub topic_ticket: Option<Seq<char>>,
    pub topic_hash: Option<Seq<char>>,
    pub topics: Map<Seq<char>, Seq<char>>,
}

impl View for IrohClient {
    type V = ClientState;

    open spec fn view(&self) -> ClientState {
        ClientState {
            node_id: text_of(self.node_id),
            topic_ticket: text_of(self.topic_ticket),
            topic_hash: text_of(self.topic_hash),
            topics: self.subscribed_topics@,
        }
    }
}

/// The client after it has entered a topic: the topic is the active one and
/// stands in the directory under its name.
pub open spec fn entered(
    state: ClientState,
    name: Seq<char>,
    ticket: Seq<char>,
    identifier: Seq<char>,
) -> ClientState {
    ClientState {
        topic_ticket: Some(ticket),
        topic_hash: Some(identifier),
        topics: state.topics.insert(name, identifier),
        ..state
    }
}

/// The client after a call of `join_topic`: it has entered the topic that the
/// ticket carries, or is unchanged where the ticket is refused.
pub open spec fn joined(state: ClientState, ticket: Seq<char>) -> ClientState {
    match decoded(ticket) {
        Some(topic) => entered(state, topic.0, ticket, topic.1),
        None => state,
    }
}

/// The envelope that a client in `state` sends, where it has an active topic.
pub open spec fn composed(
    state: ClientState,
    id: Seq<char>,
    timestamp: int,
    author: Seq<char>,
    content: Seq<char>,
    sequence: nat,
) -> Option<Envelope> {
    match state.topic_hash {
        Some(topic) => Some(Envelope { id, author, content, timestamp, topic, sequence }),
        None => None,
    }
}

/// Joining twice with the same ticket leaves the client as joining once does.
pub proof fn lemma_join_twice(state: ClientState, ticket: Seq<char>)
    ensures
        joined(joined(state, ticket), ticket) == joined(state, ticket),
{
    if decoded(ticket) is Some {
        let topic = decoded(ticket).unwrap();
        assert(state.topics.insert(topic.0, topic.1).insert(topic.0, topic.1)
            =~= state.topics.insert(topic.0, topic.1));
    }
}

/// Round trip between two clients: whoever joins with the ticket of a topic
/// that was created under `name` with an identifier free of separators ends up
/// with that identifier as its active topic, recorded under `name`.
pub proof fn lemma_join_created(joiner: ClientState, name: Seq<char>, identifier: Seq<char>)
    requires
        !identifier.contains(SEPARATOR),
    ensures
        decoded(encoded(name, identifier)) == Some((name, identifier)),
        joined(joiner, encoded(name, identifier)).topic_hash == Some(identifier),
        joined(joiner, encoded(name, identifier)).topics.contains_key(name),
        joined(joiner, encoded(name, identifier)).topics[name] == identifier,
{
    crate::ticket::lemma_decode_encode(name, identifier);
}

/// Whether `text` holds the separator.
fn holds_separator(text: &str) -> (found: bool)
    ensures
        found == text@.contains(SEPARATOR),
{
    let chars = chars_of(text);
    let mut i: usize = 0;
    while i < chars.len()
        invariant
            i <= chars.len(),
            chars@ == text@,
            forall|j: int| 0 <= j < i ==> chars@[j] != SEPARATOR,
        decreases chars.len() - i,
    {
        if chars[i] == SEPARATOR {
            return true;
        }
        i = i + 1;
    }
    false
}

/// A copy of an optional string.
fn copy_of(text: &Option<String>) -> (copy: Option<String>)
    ensures
        text_of(copy) == text_of(*text),
{
    match text {
        Some(s) => Some(s.clone()),
        None => None,
    }
}

impl Clone for IrohClient {
    fn clone(&self) -> (copy: Self)
        ensures
            copy@ == self@,
    {
        IrohClient {
            node_id: copy_of(&self.node_id),
            topic_ticket: copy_of(&self.topic_ticket),
            topic_hash: copy_of(&self.topic_hash),
            subscribed_topics: self.subscribed_topics.clone(),
        }
    }
}

impl IrohClient {
    /// A client that knows no topic and no network node.
    pub fn new() -> (client: IrohClient)
        ensures
            client@ == (ClientState {
                node_id: None,
                topic_ticket: None,
                topic_hash: None,
                topics: Map::empty(),
            }),
    {
        IrohClient {
            node_id: None,
            topic_ticket: None,
            topic_hash: None,
            subscribed_topics: TopicDirectory::new(),
        }
    }

    /// The hub that the clients of one process publish to and subscribe at.
    /// It is made once, when the program starts.
    pub fn initialize_message_channel() -> (hub: BroadcastHub)
        ensures
            hub@.registry == Seq::<Registration>::empty(),
            hub@.issued == 0,
    {
        BroadcastHub::new()
    }

    /// Records the id under which the network endpoint is known, once the
    /// caller has bound one, and hands it back.
    pub fn initialize_network(&mut self, node_id: String) -> (recorded: String)
        ensures
            recorded@ == node_id@,
            final(self)@ == (ClientState { node_id: Some(node_id@), ..old(self)@ }),
    {
        self.node_id = Some(node_id.clone());
        node_id
    }

    /// A client with its network node recorded, and a hub of its own.
    pub fn initialize_for_test(node_id: String) -> (ready: (IrohClient, BroadcastHub))
        ensures
            ready.0@ == (ClientState {
                node_id: Some(node_id@),
                topic_ticket: None,
                topic_hash: None,
                topics: Map::empty(),
            }),
            ready.1@.registry == Seq::<Registration>::empty(),
            ready.1@.issued == 0,
    {
        let mut client = IrohClient::new();
        let _ = client.initialize_network(node_id);
        (client, IrohClient::initialize_message_channel())
    }

    /// Creates a topic under `topic_name` with the given identifier, which
    /// becomes the active topic, and returns the name, the ticket to share and
    /// the identifier.
    ///
    /// Fails with `InvalidState`, and changes nothing, exactly when the
    /// identifier holds the separator: no ticket could carry it.
    pub fn register_topic(&mut self, topic_name: String, identifier: String) -> (result: Result<
        (String, String, String),
        ChatError,
    >)
        ensures
            match result {
                Ok(topic) => {
                    &&& !identifier@.contains(SEPARATOR)
                    &&& topic.0@ == topic_name@
                    &&& topic.1@ == encoded(topic_name@, identifier@)
                    &&& topic.2@ == identifier@
                    &&& final(self)@ == entered(old(self)@, topic.0@, topic.1@, topic.2@)
                },
                Err(error) => {
                    &&& identifier@.contains(SEPARATOR)
                    &&& error == ChatError::InvalidState
                    &&& final(self)@ == old(self)@
                },
            },
    {
        if holds_separator(identifier.as_str()) {
            return Err(ChatError::InvalidState);
        }
        let ticket = encode(topic_name.as_str(), identifier.as_str());
        self.topic_ticket = Some(ticket.clone());
        self.topic_hash = Some(identifier.clone());
        let _ = self.subscribed_topics.insert(topic_name.clone(), identifier.clone());
        Ok((topic_name, ticket, identifier))
    }

    /// Creates a topic under `topic_name` with a fresh random identifier,
    /// which becomes the active topic, and returns the name, the ticket to
    /// share and the identifier. The ticket decodes to that name and that
    /// identifier.
    pub fn create_topic(&mut self, topic_name: String) -> (result: Result<
        (String, String, String),
        ChatError,
    >)
        ensures
            result matches Ok(topic) && {
                &&& topic.0@ == topic_name@
                &&& is_token(topic.2@)
                &&& topic.1@ == encoded(topic.0@, topic.2@)
                &&& decoded(topic.1@) == Some((topic.0@, topic.2@))
                &&& final(self)@ == entered(old(self)@, topic.0@, topic.1@, topic.2@)
            },
    {
        let identifier = fresh_token();
        proof {
            lemma_token_has_no_separator(identifier@);
            crate::ticket::lemma_decode_encode(topic_name@, identifier@);
        }
        self.register_topic(topic_name, identifier)
    }

    /// Joins the topic that `ticket` carries: it becomes the active topic and
    /// is recorded under its name. Returns the name and the identifier.
    ///
    /// Fails with `InvalidTicketFormat`, and changes nothing, exactly when the
    /// ticket cannot be decoded.
    pub fn join_topic(&mut self, ticket: String) -> (result: Result<(String, String), ChatError>)
        ensures
            final(self)@ == joined(old(self)@, ticket@),
            match result {
                Ok(topic) => decoded(ticket@) == Some((topic.0@, topic.1@)),
                Err(error) => decoded(ticket@) is None && error == ChatError::InvalidTicketFormat,
            },
    {
        match decode(ticket.as_str()) {
            Ok((name, identifier)) => {
                self.topic_ticket = Some(ticket);
                self.topic_hash = Some(identifier.clone());
                let _ = self.subscribed_topics.insert(name.clone(), identifier.clone());
                Ok((name, identifier))
            },
            Err(error) => Err(error),
        }
    }

    /// Builds the envelope for a message of `username` in the active topic,
    /// under the given id and time.
    ///
    /// Fails with `NoActiveTopic` exactly when no topic has been created or
    /// joined.
    pub fn compose(
        &self,
        id: String,
        timestamp: i64,
        username: String,
        message_content: String,
        sequence: u64,
    ) -> (result: Result<ChatMessage, ChatError>)
        ensures
            match result {
                Ok(message) => composed(
                    self@,
                    id@,
                    timestamp as int,
                    username@,
                    message_content@,
                    sequence as nat,
                ) == Some(message@),
                Err(error) => self@.topic_hash is None && error == ChatError::NoActiveTopic,
            },
    {
        match &self.topic_hash {
            Some(topic) => Ok(
                ChatMessage::new(id, username, message_content, timestamp, topic.clone(), sequence),
            ),
            None => Err(ChatError::NoActiveTopic),
        }
    }

    /// Hands `message` to every subscriber of its topic at `hub`; see
    /// `BroadcastHub::publish`.
    pub fn broadcast_message(hub: &mut BroadcastHub, message: ChatMessage) -> (report: PublishReport)
        ensures
            fanned_out(old(hub)@.registry, message@.topic, report.delivered@, report.reaped@),
            final(hub)@.registry == without(old(hub)@.registry, report.reaped@.to_set()),
            final(hub)@.issued == old(hub)@.issued,
            ordered(final(hub)@.registry, final(hub)@.issued),
    {
        hub.publish(&message)
    }

    /// Sends a message of `username` to the active topic, under a fresh random
    /// id and the current time, and returns the id.
    ///
    /// Fails with `NoActiveTopic`, and leaves the hub alone, exactly when no
    /// topic has been created or joined. Otherwise the call succeeds, whether
    /// or not anybody received the message: subscribers of the topic that have
    /// gone away are removed from the hub, and that is all that changes.
    pub fn send_message(
        &self,
        hub: &mut BroadcastHub,
        username: String,
        message_content: String,
        sequence: u64,
    ) -> (result: Result<String, ChatError>)
        ensures
            final(hub)@.issued == old(hub)@.issued,
            match result {
                Ok(id) => {
                    &&& self@.topic_hash matches Some(topic)
                    &&& is_token(id@)
                    &&& pruned(old(hub)@.registry, final(hub)@.registry, topic)
                },
                Err(error) => {
                    &&& self@.topic_hash is None
                    &&& error == ChatError::NoActiveTopic
                    &&& final(hub)@ == old(hub)@
                },
            },
    {
        let id = fresh_token();
        let timestamp = now_millis();
        match self.compose(id.clone(), timestamp, username, message_content, sequence) {
            Ok(message) => {
                let ghost before = hub@.registry;
                let report = IrohClient::broadcast_message(hub, message);
                proof {
                    let gone = report.reaped@.to_set();
                    assert(hub@.registry == without(before, gone));
                    assert forall|id: u64| gone.contains(id) implies listens(
                        before,
                        id,
                        self@.topic_hash->0,
                    ) by {
                        assert(report.reaped@.contains(id));
                    }
                }
                Ok(id)
            },
            Err(error) => Err(error),
        }
    }

    /// Subscribes to the active topic at `hub`, after the hub has tested its
    /// subscribers and dropped the dead ones.
    ///
    /// Nothing comes back, and the hub is left alone, exactly when the client
    /// has no active topic or the hub cannot take another subscriber.
    pub fn get_message_receiver(&self, hub: &mut BroadcastHub) -> (receiver: Option<
        SubscriptionHandle,
    >)
        ensures
            match receiver {
                Some(handle) => {
                    &&& self@.topic_hash matches Some(topic)
                    &&& old(hub)@.issued < u64::MAX
                    &&& handle@.id == old(hub)@.issued
                    &&& handle@.topic == topic
                    &&& handle@.seen == Set::<Seq<char>>::empty()
                    &&& final(hub)@.issued == old(hub)@.issued + 1
                    &&& exists|gone: Set<u64>|
                        #![trigger without(old(hub)@.registry, gone)]
                        final(hub)@.registry == without(old(hub)@.registry, gone).push(
                            Registration { id: handle@.id, filter: topic },
                        )
                },
                None => {
                    &&& self@.topic_hash is None || old(hub)@.issued >= u64::MAX
                    &&& final(hub)@ == old(hub)@
                },
            },
    {
        match &self.topic_hash {
            Some(topic) => {
                if hub.can_subscribe() {
                    let ghost before = hub@.registry;
                    let report = hub.probe();
                    let handle = hub.subscribe(topic.clone());
                    assert(hub@.registry == without(before, report.reaped@.to_set()).push(
                        Registration { id: handle@.id, filter: topic@ },
                    ));
                    Some(handle)
                } else {
                    None
                }
            },
            None => None,
        }
    }
}

/// A token holds no separator.
proof fn lemma_token_has_no_separator(token: Seq<char>)
    requires
        is_token(token),
    ensures
        !token.contains(SEPARATOR),
{
    if token.contains(SEPARATOR) {
        let i = choose|i: int| 0 <= i < token.len() && token[i] == SEPARATOR;
        assert(is_lower_hex_at(token, i));
    }
}

/// The character at `i` is a digit of lower-case hexadecimal.
spec fn is_lower_hex_at(token: Seq<char>, i: int) -> bool {
    crate::platform::is_lower_hex(token[i])
}

} // verus!
