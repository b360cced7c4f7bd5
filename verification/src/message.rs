//! The lines of the chat log.

use std::time::Instant;
use vstd::prelude::*;

verus! {

/// A moment of the monotonic clock, carried as it is.
#[verifier::external_type_specification]
#[verifier::external_body]
pub struct ExInstant(Instant);

/// `Clone` for `std::time::Instant`, a `Copy` type.
///
/// Trusted: the clone is the moment itself.
pub assume_specification[ <Instant as Clone>::clone ](moment: &Instant) -> (copy: Instant)
    ensures
        copy == *moment,
;

/// Reads the monotonic clock with `std::time::Instant::now`.
///
/// Trusted: nothing is claimed of the moment that comes back.
#[verifier::external_body]
fn now() -> Instant {
    Instant::now()
}

/// A line of the chat log: who spoke, what was said and when it was recorded.
#[derive(Debug, Clone)]
pub struct ChatMessage {
    /// The speaker, as shown to readers
    pub identifier: String,
    /// What was said
    pub message: String,
    /// When the line was recorded
    pub timestamp: Instant,
}

/// A line of the chat log without its time.
pub struct ChatLine {
    pub author: Seq<char>,
    pub text: Seq<char>,
}

impl View for ChatMessage {
    type V = ChatLine;

    open spec fn view(&self) -> ChatLine {
        ChatLine { author: self.identifier@, text: self.message@ }
    }
}

impl ChatMessage {
    /// A chat line recorded at `timestamp`.
    pub fn at(identifier: String, message: String, timestamp: Instant) -> (line: Self)
        ensures
            line.identifier == identifier,
            line.message == message,
            line.timestamp == timestamp,
    {
        ChatMessage { identifier, message, timestamp }
    }

    /// A chat line recorded now.
    pub fn new(identifier: String, message: String) -> (line: Self)
        ensures
            line.identifier == identifier,
            line.message == message,
    {
        let timestamp = now();
        ChatMessage::at(identifier, message, timestamp)
    }

    /// A copy of the line, with the same time.
    pub fn duplicate(&self) -> (copy: Self)
        ensures
            copy@ == self@,
            copy.timestamp == self.timestamp,
    {
        ChatMessage {
            identifier: self.identifier.clone(),
            message: self.message.clone(),
            timestamp: self.timestamp,
        }
    }
}

} // verus!
