//! The outbox's cross-process lock: where it lies, and how long to wait for it.
use vstd::prelude::*;

verus! {

/// What an attempt to take the lock came to.
#[derive(Debug, Clone, Copy, PartialEq, Eq, Structural)]
pub enum LockAttempt {
    Acquired,
    /// Another holder has it.
    WouldBlock,
    /// A signal interrupted the attempt.
    Interrupted,
    /// The attempt failed for another reason.
    Failed,
}

/// What to do after an attempt to take the lock.
#[derive(Debug, Clone, Copy, PartialEq, Eq, Structural)]
pub enum LockStep {
    /// Go on: the lock is held.
    Locked,
    /// Try again at once.
    Retry,
    /// Try again a little later.
    SleepAndRetry,
    /// Give up: the deadline has passed.
    TimedOut,
    /// Give up: taking the lock failed.
    Failed,
}

/// The path of the lock file beside an outbox: it holds no data, and is never
/// truncated or rotated with the outbox.
pub fn outbox_lock_path(outbox_path: &str) -> (path: String)
    ensures
        path@ == outbox_path@ + ".lock"@,
{
    let mut path = outbox_path.to_string();
    path.append(".lock");
    path
}

/// What to do after an attempt to take the lock without waiting, until a
/// deadline: only another holder is waited for, and only until the deadline.
pub open spec fn bounded_step(attempt: LockAttempt, deadline_passed: bool) -> LockStep {
    match attempt {
        LockAttempt::Acquired => LockStep::Locked,
        LockAttempt::WouldBlock => if deadline_passed {
            LockStep::TimedOut
        } else {
            LockStep::SleepAndRetry
        },
        LockAttempt::Interrupted => LockStep::Retry,
        LockAttempt::Failed => LockStep::Failed,
    }
}

/// A bounded wait goes on past its deadline only for an attempt that a signal
/// interrupted, it never gives up before its deadline while another holds the
/// lock, and it goes on only with the lock held.
pub proof fn law_bounded_wait_keeps_its_deadline(attempt: LockAttempt, deadline_passed: bool)
    ensures
        deadline_passed && attempt != LockAttempt::Interrupted ==> bounded_step(
            attempt,
            deadline_passed,
        ) != LockStep::Retry && bounded_step(attempt, deadline_passed) != LockStep::SleepAndRetry,
        bounded_step(attempt, deadline_passed) == LockStep::TimedOut ==> deadline_passed && attempt
            == LockAttempt::WouldBlock,
        bounded_step(attempt, deadline_passed) == LockStep::Locked <==> attempt
            == LockAttempt::Acquired,
{
}

/// What to do after an attempt to take the lock without waiting, until a
/// deadline.
pub fn lock_file_exclusive_bounded(attempt: LockAttempt, deadline_passed: bool) -> (step: LockStep)
    ensures
        step == bounded_step(attempt, deadline_passed),
        attempt == LockAttempt::Acquired ==> step == LockStep::Locked,
        attempt == LockAttempt::WouldBlock && deadline_passed ==> step == LockStep::TimedOut,
        attempt == LockAttempt::WouldBlock && !deadline_passed ==> step == LockStep::SleepAndRetry,
        attempt == LockAttempt::Interrupted ==> step == LockStep::Retry,
        attempt == LockAttempt::Failed ==> step == LockStep::Failed,
{
    match attempt {
        LockAttempt::Acquired => LockStep::Locked,
        LockAttempt::WouldBlock => if deadline_passed {
            LockStep::TimedOut
        } else {
            LockStep::SleepAndRetry
        },
        LockAttempt::Interrupted => LockStep::Retry,
        LockAttempt::Failed => LockStep::Failed,
    }
}

/// What to do after an attempt to take the lock that lets the system wait for
/// other holders. Where the system reports another holder all the same, the
/// attempt is repeated later, however long that takes.
pub fn lock_file_exclusive(attempt: LockAttempt) -> (step: LockStep)
    ensures
        step == match attempt {
            LockAttempt::Acquired => LockStep::Locked,
            LockAttempt::WouldBlock => LockStep::SleepAndRetry,
            LockAttempt::Interrupted => LockStep::Retry,
            LockAttempt::Failed => LockStep::Failed,
        },
{
    match attempt {
        LockAttempt::Acquired => LockStep::Locked,
        LockAttempt::WouldBlock => LockStep::SleepAndRetry,
        LockAttempt::Interrupted => LockStep::Retry,
        LockAttempt::Failed => LockStep::Failed,
    }
}

} // verus!
