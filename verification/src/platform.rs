//! What the library calls from tokio, uuid, chrono and std, and what it takes
//! for granted about each call. Nothing in this file is proved: each contract
//! restates what the named function's source or documentation shows.

use vstd::prelude::*;
use tokio::sync::mpsc::error::{SendError, TryRecvError};
use tokio::sync::mpsc::{UnboundedReceiver, UnboundedSender};

verus! {

/// The sending half of a tokio unbounded channel; opaque.
#[verifier::external_type_specification]
#[verifier::external_body]
#[verifier::reject_recursive_types(T)]
pub struct ExUnboundedSender<T>(UnboundedSender<T>);

/// The receiving half of a tokio unbounded channel; opaque.
#[verifier::external_type_specification]
#[verifier::external_body]
#[verifier::reject_recursive_types(T)]
pub struct ExUnboundedReceiver<T>(UnboundedReceiver<T>);

/// The error of `UnboundedSender::send`, which hands the message back; opaque.
#[verifier::external_type_specification]
#[verifier::external_body]
#[verifier::reject_recursive_types(T)]
pub struct ExSendError<T>(SendError<T>);

/// The error of `UnboundedReceiver::try_recv`; opaque.
#[verifier::external_type_specification]
#[verifier::external_body]
pub struct ExTryRecvError(TryRecvError);

/// `tokio::sync::mpsc::unbounded_channel` makes a new channel and returns its
/// two halves. Nothing is claimed of them.
pub assume_specification<T>[ tokio::sync::mpsc::unbounded_channel::<T> ]() -> (halves: (
    UnboundedSender<T>,
    UnboundedReceiver<T>,
));

/// `UnboundedSender::send` queues the message without waiting, or fails when
/// the receiving half has been closed or dropped. Which of the two happens
/// depends on what the holder of the receiving half has done, so nothing is
/// claimed of the result.
pub assume_specification<T>[ UnboundedSender::<T>::send ](
    sender: &UnboundedSender<T>,
    message: T,
) -> (result: Result<(), SendError<T>>);

/// `UnboundedReceiver::try_recv` takes the oldest queued message without
/// waiting, or fails when the queue is empty. Nothing is claimed of the
/// result: it depends on what the senders have done.
pub assume_specification<T>[ UnboundedReceiver::<T>::try_recv ](
    receiver: &mut UnboundedReceiver<T>,
) -> (result: Result<T, TryRecvError>);

/// Whether std counts `c` as white space: the result of `char::is_whitespace`,
/// which is the Unicode property `White_Space`.
pub uninterp spec fn whitespace(c: char) -> bool;

/// `char::is_whitespace` of std: whether the character has the Unicode
/// property `White_Space`. The result depends on the character alone.
#[verifier::external_body]
pub(crate) fn is_whitespace(c: char) -> (space: bool)
    ensures
        space == whitespace(c),
{
    c.is_whitespace()
}

/// A digit of lower-case hexadecimal.
pub open spec fn is_lower_hex(c: char) -> bool {
    ('0' <= c && c <= '9') || ('a' <= c && c <= 'f')
}

/// The shape of a token: 32 digits of lower-case hexadecimal.
pub open spec fn is_token(s: Seq<char>) -> bool {
    s.len() == 32 && forall|i: int| 0 <= i < s.len() ==> is_lower_hex(#[trigger] s[i])
}

/// A random token from `uuid::Uuid::new_v4`, written in the crate's simple
/// format: the 16 bytes of the UUID as 32 lower-case hexadecimal digits,
/// without hyphens. Two calls may return anything of that shape; that two
/// tokens differ is a matter of chance and is not claimed. The call panics if
/// the operating system cannot supply random bytes.
#[verifier::external_body]
pub(crate) fn fresh_token() -> (token: String)
    ensures
        is_token(token@),
{
    uuid::Uuid::new_v4().simple().to_string()
}

/// The current time from `chrono::Utc::now`, as milliseconds since the Unix
/// epoch. Nothing is claimed of the value. The call panics if the system clock
/// is set before the epoch.
#[verifier::external_body]
pub(crate) fn now_millis() -> (millis: i64) {
    chrono::Utc::now().timestamp_millis()
}

} // verus!
