//! The ticket codec: a topic's name and identifier packed into one shareable
//! string, `ticket-<name>-<identifier>`, and unpacked again.
//!
//! Decoding splits at the *last* separator after the prefix, so a name may
//! hold separators and an identifier may not.

use vstd::prelude::*;
use crate::error::ChatError;
use crate::text::chars_of;

verus! {

/// The character that separates the parts of a ticket.
pub const SEPARATOR: char = '-';

/// The number of characters in the fixed prefix.
pub const PREFIX_LEN: usize = 7;

/// The fixed prefix of every ticket: `ticket-`.
pub open spec fn prefix() -> Seq<char> {
    seq!['t', 'i', 'c', 'k', 'e', 't', '-']
}

/// The ticket for a topic: prefix, name, separator, identifier.
pub open spec fn encoded(name: Seq<char>, identifier: Seq<char>) -> Seq<char> {
    prefix() + name + seq![SEPARATOR] + identifier
}

/// The position of the last separator in `s`, or -1 where `s` holds none.
pub open spec fn last_separator(s: Seq<char>) -> int
    decreases s.len(),
{
    if s.len() == 0 {
        -1
    } else if s.last() == SEPARATOR {
        s.len() - 1
    } else {
        last_separator(s.drop_last())
    }
}

/// `ticket` starts with the fixed prefix.
pub open spec fn has_prefix(ticket: Seq<char>) -> bool {
    ticket.len() >= PREFIX_LEN && ticket.subrange(0, PREFIX_LEN as int) == prefix()
}

/// `ticket` can be decoded: it starts with the prefix and holds a separator
/// after it.
pub open spec fn is_ticket(ticket: Seq<char>) -> bool {
    has_prefix(ticket) && last_separator(ticket) >= PREFIX_LEN
}

/// The name and identifier that `ticket` carries: what lies between the prefix
/// and the last separator, and what follows that separator. `None` where
/// `ticket` is no ticket.
pub open spec fn decoded(ticket: Seq<char>) -> Option<(Seq<char>, Seq<char>)> {
    if is_ticket(ticket) {
        let at = last_separator(ticket);
        Some((ticket.subrange(PREFIX_LEN as int, at), ticket.subrange(at + 1, ticket.len() as int)))
    } else {
        None
    }
}

/// `last_separator` points at a separator and nothing behind it is one.
pub proof fn lemma_last_separator(s: Seq<char>)
    ensures
        -1 <= last_separator(s) < s.len(),
        last_separator(s) >= 0 ==> s[last_separator(s)] == SEPARATOR,
        forall|j: int| last_separator(s) < j < s.len() ==> s[j] != SEPARATOR,
    decreases s.len(),
{
    if s.len() > 0 && s.last() != SEPARATOR {
        let front = s.drop_last();
        lemma_last_separator(front);
        assert forall|j: int| last_separator(s) < j < s.len() implies s[j] != SEPARATOR by {
            if j < front.len() {
                assert(front[j] == s[j]);
            }
        }
    }
}

/// A separator with none behind it is the last one.
pub proof fn lemma_last_separator_is(s: Seq<char>, at: int)
    requires
        0 <= at < s.len(),
        s[at] == SEPARATOR,
        forall|j: int| at < j < s.len() ==> s[j] != SEPARATOR,
    ensures
        last_separator(s) == at,
{
    lemma_last_separator(s);
}

/// Round trip: a ticket built from any name and an identifier that holds no
/// separator decodes to that name and that identifier.
pub proof fn lemma_decode_encode(name: Seq<char>, identifier: Seq<char>)
    requires
        !identifier.contains(SEPARATOR),
    ensures
        decoded(encoded(name, identifier)) == Some((name, identifier)),
{
    let ticket = encoded(name, identifier);
    let at = PREFIX_LEN as int + name.len();
    assert(ticket.subrange(0, PREFIX_LEN as int) =~= prefix());
    assert forall|j: int| at < j < ticket.len() implies ticket[j] != SEPARATOR by {
        assert(ticket[j] == identifier[j - at - 1]);
        assert(identifier.contains(identifier[j - at - 1]));
    }
    lemma_last_separator_is(ticket, at);
    assert(ticket.subrange(PREFIX_LEN as int, at) =~= name);
    assert(ticket.subrange(at + 1, ticket.len() as int) =~= identifier);
}

/// What decoding yields is what was encoded: the ticket is the encoding of the
/// pair that comes out, and the identifier that comes out holds no separator.
pub proof fn lemma_encode_decode(ticket: Seq<char>)
    requires
        is_ticket(ticket),
    ensures
        decoded(ticket) matches Some(topic) && encoded(topic.0, topic.1) == ticket
            && !topic.1.contains(SEPARATOR),
{
    lemma_last_separator(ticket);
    let at = last_separator(ticket);
    let name = ticket.subrange(PREFIX_LEN as int, at);
    let identifier = ticket.subrange(at + 1, ticket.len() as int);
    assert(encoded(name, identifier) =~= ticket) by {
        assert(ticket.subrange(0, PREFIX_LEN as int) == prefix());
        assert forall|j: int| 0 <= j < PREFIX_LEN implies ticket[j] == prefix()[j] by {
            assert(ticket.subrange(0, PREFIX_LEN as int)[j] == ticket[j]);
        }
    }
    if identifier.contains(SEPARATOR) {
        let j = choose|j: int| 0 <= j < identifier.len() && identifier[j] == SEPARATOR;
        assert(ticket[at + 1 + j] == SEPARATOR);
    }
}

/// Every encoding is a ticket, whatever the name and the identifier hold.
pub proof fn lemma_encoded_is_ticket(name: Seq<char>, identifier: Seq<char>)
    ensures
        is_ticket(encoded(name, identifier)),
{
    let ticket = encoded(name, identifier);
    let at = PREFIX_LEN as int + name.len();
    assert(ticket.subrange(0, PREFIX_LEN as int) =~= prefix());
    assert(ticket[at] == SEPARATOR);
    lemma_last_separator(ticket);
}

/// A string is refused exactly when it is the encoding of no pair at all.
pub proof fn lemma_refused_iff_not_encoded(ticket: Seq<char>)
    ensures
        decoded(ticket) is None <==> !exists|name: Seq<char>, identifier: Seq<char>|
            ticket == #[trigger] encoded(name, identifier),
{
    if is_ticket(ticket) {
        lemma_encode_decode(ticket);
        let topic = decoded(ticket).unwrap();
        assert(ticket == encoded(topic.0, topic.1));
    } else {
        assert forall|name: Seq<char>, identifier: Seq<char>|
            ticket != #[trigger] encoded(name, identifier) by {
            lemma_encoded_is_ticket(name, identifier);
        }
    }
}

/// Builds the ticket for a topic.
pub fn encode(name: &str, identifier: &str) -> (ticket: String)
    ensures
        ticket@ == encoded(name@, identifier@),
{
    proof {
        reveal_strlit("ticket-");
        reveal_strlit("-");
    }
    let mut ticket = String::from_str("ticket-");
    assert(ticket@ =~= prefix());
    ticket.append(name);
    ticket.append("-");
    assert("-"@ =~= seq![SEPARATOR]);
    ticket.append(identifier);
    ticket
}

/// Reads a ticket back into the topic's name and identifier.
///
/// Fails with `InvalidTicketFormat` exactly when the string does not start
/// with the prefix or holds no separator after it.
pub fn decode(ticket: &str) -> (result: Result<(String, String), ChatError>)
    ensures
        match result {
            Ok(topic) => decoded(ticket@) == Some((topic.0@, topic.1@)),
            Err(error) => decoded(ticket@) is None && error == ChatError::InvalidTicketFormat,
        },
{
    let chars = chars_of(ticket);
    let n = chars.len();
    if n < PREFIX_LEN || chars[0] != 't' || chars[1] != 'i' || chars[2] != 'c' || chars[3] != 'k'
        || chars[4] != 'e' || chars[5] != 't' || chars[6] != SEPARATOR {
        assert(!has_prefix(ticket@)) by {
            if ticket@.len() >= PREFIX_LEN {
                let head = ticket@.subrange(0, PREFIX_LEN as int);
                assert(forall|j: int| 0 <= j < PREFIX_LEN ==> head[j] == ticket@[j]);
            }
        }
        return Err(ChatError::InvalidTicketFormat);
    }
    assert(ticket@.subrange(0, PREFIX_LEN as int) =~= prefix());
    let mut end: usize = n;
    while end > PREFIX_LEN && chars[end - 1] != SEPARATOR
        invariant
            PREFIX_LEN <= end <= n,
            n == chars@.len(),
            forall|j: int| end <= j < n ==> chars@[j] != SEPARATOR,
        decreases end,
    {
        end = end - 1;
    }
    if end == PREFIX_LEN {
        proof {
            lemma_last_separator_is(ticket@, PREFIX_LEN - 1);
        }
        return Err(ChatError::InvalidTicketFormat);
    }
    proof {
        lemma_last_separator_is(ticket@, end - 1);
    }
    let name = ticket.substring_char(PREFIX_LEN, end - 1);
    let identifier = ticket.substring_char(end, n);
    Ok((String::from_str(name), String::from_str(identifier)))
}

} // verus!
