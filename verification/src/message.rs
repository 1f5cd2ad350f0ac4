//! The message envelope and the signals that travel to a subscriber.

use vstd::prelude::*;

verus! {

/// One chat message: the unit that the hub carries. It is not changed after it
/// has been built.
#[derive(Debug)]
pub struct ChatMessage {
    /// The idempotency key: consumers surface each `id` at most once.
    pub id: String,
    pub author: String,
    pub content: String,
    /// Milliseconds since the Unix epoch, UTC.
    pub timestamp: i64,
    /// The identifier of the topic that the message belongs to.
    pub topic_hash: String,
    /// A counter kept per author and topic; it orders nothing across authors.
    pub sequence: u64,
}

/// A message as a mathematical value.
pub struct Envelope {
    pub id: Seq<char>,
    pub author: Seq<char>,
    pub content: Seq<char>,
    pub timestamp: int,
    pub topic: Seq<char>,
    pub sequence: nat,
}

impl View for ChatMessage {
    type V = Envelope;

    open spec fn view(&self) -> Envelope {
        Envelope {
            id: self.id@,
            author: self.author@,
            content: self.content@,
            timestamp: self.timestamp as int,
            topic: self.topic_hash@,
            sequence: self.sequence as nat,
        }
    }
}

impl Clone for ChatMessage {
    fn clone(&self) -> (copy: Self)
        ensures
            copy@ == self@,
    {
        ChatMessage {
            id: self.id.clone(),
            author: self.author.clone(),
            content: self.content.clone(),
            timestamp: self.timestamp,
            topic_hash: self.topic_hash.clone(),
            sequence: self.sequence,
        }
    }
}

impl ChatMessage {
    /// Builds a message from its parts.
    pub fn new(
        id: String,
        author: String,
        content: String,
        timestamp: i64,
        topic_hash: String,
        sequence: u64,
    ) -> (message: ChatMessage)
        ensures
            message@ == (Envelope {
                id: id@,
                author: author@,
                content: content@,
                timestamp: timestamp as int,
                topic: topic_hash@,
                sequence: sequence as nat,
            }),
    {
        ChatMessage { id, author, content, timestamp, topic_hash, sequence }
    }
}

/// The counter behind the `sequence` of the messages one author sends to one
/// topic: the numbers it hands out never go down.
#[derive(Debug)]
pub struct SequenceCounter {
    next: u64,
}

impl View for SequenceCounter {
    type V = nat;

    closed spec fn view(&self) -> nat {
        self.next as nat
    }
}

/// The counter after it has handed out a number: one more, and no more once the
/// greatest number has been reached.
pub open spec fn counted(next: nat) -> nat {
    if next < u64::MAX {
        next + 1
    } else {
        next
    }
}

/// The numbers handed out grow: each is greater than the one before it, until
/// the greatest number is reached, which is then handed out again.
pub proof fn lemma_sequence_grows(next: nat)
    requires
        next <= u64::MAX,
    ensures
        next <= counted(next) <= u64::MAX,
        next < u64::MAX ==> next < counted(next),
{
}

impl SequenceCounter {
    /// A counter that starts at 0.
    pub fn new() -> (counter: SequenceCounter)
        ensures
            counter@ == 0,
    {
        SequenceCounter { next: 0 }
    }

    /// A counter that goes on from `next`.
    pub fn starting_at(next: u64) -> (counter: SequenceCounter)
        ensures
            counter@ == next,
    {
        SequenceCounter { next }
    }

    /// The number that the next message gets.
    pub fn peek(&self) -> (sequence: u64)
        ensures
            sequence == self@,
    {
        self.next
    }

    /// Hands out the number for a message that is being sent.
    pub fn take(&mut self) -> (sequence: u64)
        ensures
            sequence == old(self)@,
            final(self)@ == counted(old(self)@),
    {
        let sequence = self.next;
        if self.next < u64::MAX {
            self.next = self.next + 1;
        }
        sequence
    }
}

/// What a subscriber's queue holds: a message, or the hub's liveness probe.
/// A probe never reaches the consumer.
#[derive(Debug)]
pub enum Signal {
    Data(ChatMessage),
    Probe,
}

} // verus!
