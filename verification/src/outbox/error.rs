//! What can go wrong on the way to an outbox line.
use vstd::prelude::*;

use crate::text;

verus! {

/// Why an event was not appended.
#[derive(Debug, Clone, Copy, PartialEq, Eq, Structural)]
pub enum OutboxError {
    /// The outbox has no path.
    Disabled,
    /// The queue was closed.
    Closed,
    /// The task that drains the queue has ended.
    WriterGone,
    /// The task that drains the queue cannot be started: there is no runtime.
    NoRuntime,
    /// The last complete line is not UTF-8.
    TailNotUtf8,
    /// The last complete line is not the line of an envelope.
    LastLineUnparseable,
    /// No line ends within the recovery window.
    NoCompleteLine,
    /// The line, with its line feed, is longer than a line may be.
    LineTooLong { bytes: u64 },
    /// Another writer held the lock until the deadline.
    LockTimeout,
}

impl OutboxError {
    /// What to tell of the error, for the outbox at `path`.
    pub open spec fn text(&self, path: Seq<char>) -> Seq<char> {
        match self {
            OutboxError::Disabled => "lifecycle outbox is disabled"@,
            OutboxError::Closed => "lifecycle outbox is closed"@,
            OutboxError::WriterGone => "lifecycle outbox writer task is gone"@,
            OutboxError::NoRuntime => "no tokio runtime available"@,
            OutboxError::TailNotUtf8 => "outbox tail is not UTF-8"@,
            OutboxError::LastLineUnparseable => "failed to parse last outbox line"@,
            OutboxError::NoCompleteLine => "outbox "@ + path
                + " has no complete line within the last 65536 bytes (the bounded-line invariant is broken); refusing to append over it"@,
            OutboxError::LineTooLong { bytes } => "outbox envelope is "@ + text::decimal(
                *bytes as nat,
            )
                + " bytes; refusing to append a line above the 61440-byte bound (the 65536-byte recovery window must always contain a complete line)"@,
            OutboxError::LockTimeout => "failed to lock outbox "@ + path
                + ".lock before the deadline"@,
        }
    }

    /// What to tell of the error, for the outbox at `path`.
    pub fn message(&self, path: &str) -> (message: String)
        ensures
            message@ == self.text(path@),
    {
        match self {
            OutboxError::Disabled => "lifecycle outbox is disabled".to_string(),
            OutboxError::Closed => "lifecycle outbox is closed".to_string(),
            OutboxError::WriterGone => "lifecycle outbox writer task is gone".to_string(),
            OutboxError::NoRuntime => "no tokio runtime available".to_string(),
            OutboxError::TailNotUtf8 => "outbox tail is not UTF-8".to_string(),
            OutboxError::LastLineUnparseable => "failed to parse last outbox line".to_string(),
            OutboxError::NoCompleteLine => {
                let mut message = "outbox ".to_string();
                message.append(path);
                message.append(
                    " has no complete line within the last 65536 bytes (the bounded-line invariant is broken); refusing to append over it",
                );
                message
            },
            OutboxError::LineTooLong { bytes } => {
                let mut message = "outbox envelope is ".to_string();
                message.append(text::decimal_text(*bytes).as_str());
                message.append(
                    " bytes; refusing to append a line above the 61440-byte bound (the 65536-byte recovery window must always contain a complete line)",
                );
                message
            },
            OutboxError::LockTimeout => {
                let mut message = "failed to lock outbox ".to_string();
                message.append(path);
                message.append(".lock before the deadline");
                message
            },
        }
    }
}

/// A refusal names what it is about: the outbox at fault, its lock, or the length
/// of the line refused.
pub proof fn law_refusals_say_what_they_are_about(path: Seq<char>, bytes: u64)
    ensures
        OutboxError::NoCompleteLine.text(path) == "outbox "@ + path
            + " has no complete line within the last 65536 bytes (the bounded-line invariant is broken); refusing to append over it"@,
        OutboxError::LockTimeout.text(path) == "failed to lock outbox "@ + path
            + ".lock before the deadline"@,
        (OutboxError::LineTooLong { bytes }).text(path) == "outbox envelope is "@ + text::decimal(
            bytes as nat,
        )
            + " bytes; refusing to append a line above the 61440-byte bound (the 65536-byte recovery window must always contain a complete line)"@,
{
}

} // verus!
