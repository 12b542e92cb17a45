//! What happens on a terminating signal: the order of the cleanup, and the last
//! repair of the outbox.
use vstd::prelude::*;

use crate::outbox::append::OutboxFile;
use crate::outbox::error::OutboxError;
use crate::outbox::handle;
use crate::outbox::handle::LifecycleOutbox;
use crate::outbox::queue::OutboxInner;
use crate::outbox::reconcile;

verus! {

/// The exit code for SIGHUP.
pub const EXIT_SIGHUP: i32 = 129;

/// The exit code for SIGINT.
pub const EXIT_SIGINT: i32 = 130;

/// The exit code for SIGTERM.
pub const EXIT_SIGTERM: i32 = 143;

/// The name of the signal that an exit code stands for.
pub open spec fn signal_name_of(exit_code: i32) -> Seq<char> {
    if exit_code == EXIT_SIGTERM {
        "SIGTERM"@
    } else if exit_code == EXIT_SIGINT {
        "SIGINT"@
    } else if exit_code == EXIT_SIGHUP {
        "SIGHUP"@
    } else {
        "SIGNAL"@
    }
}

/// The name of the signal that an exit code, 128 plus its number, stands for.
pub fn signal_name(exit_code: i32) -> (name: &'static str)
    ensures
        name@ == signal_name_of(exit_code),
        exit_code == 129 ==> name@ == "SIGHUP"@,
        exit_code == 130 ==> name@ == "SIGINT"@,
        exit_code == 143 ==> name@ == "SIGTERM"@,
        exit_code != 129 && exit_code != 130 && exit_code != 143 ==> name@ == "SIGNAL"@,
{
    if exit_code == EXIT_SIGTERM {
        "SIGTERM"
    } else if exit_code == EXIT_SIGINT {
        "SIGINT"
    } else if exit_code == EXIT_SIGHUP {
        "SIGHUP"
    } else {
        "SIGNAL"
    }
}

/// The session whose open turns are ended on a signal.
pub struct SignalSession {
    pub outbox: LifecycleOutbox,
    /// The thread id that its events carry.
    pub thread_id: String,
}

/// The session registered for the signal path, if any.
pub struct SignalContext {
    pub session: Option<SignalSession>,
}

/// What the flush on a signal did.
#[derive(Debug, Clone, Copy, PartialEq, Eq, Structural)]
pub enum SignalFlush {
    /// Nothing: no session is registered, or it has no thread id.
    Skipped,
    /// It ended so many turns.
    Reconciled(usize),
    /// It could not end them all.
    Failed(OutboxError),
}

/// The flush that a reconciliation amounts to.
pub open spec fn flush_of(result: Result<usize, OutboxError>) -> SignalFlush {
    match result {
        Ok(count) => SignalFlush::Reconciled(count),
        Err(error) => SignalFlush::Failed(error),
    }
}

/// The reason that a synthetic end gives for a signal.
pub open spec fn signal_reason(signal: Seq<char>) -> Seq<char> {
    "signal:"@ + signal
}

impl SignalContext {
    /// A context without a session.
    pub fn new() -> (context: Self)
        ensures
            context.session is None,
    {
        SignalContext { session: None }
    }

    /// Registers the session, in place of an earlier one. A disabled outbox
    /// registers like any other.
    pub fn register(&mut self, outbox: LifecycleOutbox, thread_id: String)
        ensures
            final(self).session == Some(SignalSession { outbox, thread_id }),
    {
        self.session = Some(SignalSession { outbox, thread_id });
    }

    /// Ends the session's open turns before the process exits: closes the queue,
    /// then reconciles within the deadline, naming the signal as the reason.
    /// `locked` says whether the outbox's lock was had before the deadline.
    pub fn flush_open_turn_on_signal<F: Fn() -> bool>(
        &mut self,
        signal: &str,
        file: &mut OutboxFile,
        file_exists: bool,
        locked: bool,
        deadline_passed: &F,
    ) -> (flush: SignalFlush)
        requires
            old(self).session is Some ==> old(self).session->0.outbox.wf(),
            old(file).wf(),
            old(file).whole(),
            deadline_passed.requires(()),
        ensures
            match old(self).session {
                None => flush == SignalFlush::Skipped && *final(self) == *old(self)
                    && *final(file) == *old(file),
                Some(session) => if session.thread_id@.len() == 0 {
                    flush == SignalFlush::Skipped && *final(self) == *old(self) && *final(file)
                        == *old(file)
                } else {
                    &&& final(self).session is Some
                    &&& final(self).session->0.thread_id == session.thread_id
                    &&& final(self).session->0.outbox.inner == match session.outbox.inner {
                        Some(inner) => Some(OutboxInner { open: false, ..inner }),
                        None => None,
                    }
                    &&& exists|result: Result<usize, OutboxError>| #[trigger]
                        handle::bounded_reconciles(
                            session.outbox.inner is Some,
                            *old(file),
                            file_exists,
                            locked,
                            session.thread_id@,
                            signal_reason(signal@),
                            *deadline_passed,
                            result,
                            *final(file),
                        ) && flush == flush_of(result)
                    &&& reconcile::always_passes(*deadline_passed) && locked ==> flush
                        == SignalFlush::Reconciled(0) && *final(file) == *old(file)
                },
            },
            final(self).session is Some ==> final(self).session->0.outbox.wf(),
            final(file).wf(),
            final(file).settles_as(*old(file)),
    {
        match &mut self.session {
            None => SignalFlush::Skipped,
            Some(session) => {
                if session.thread_id.as_str().is_empty() {
                    return SignalFlush::Skipped;
                }
                session.outbox.close();
                let mut reason = "signal:".to_string();
                reason.append(signal);
                assert(reason@ == signal_reason(signal@));
                let result = session.outbox.reconcile_interrupted_turns_bounded(
                    file,
                    file_exists,
                    locked,
                    session.thread_id.as_str(),
                    reason.as_str(),
                    deadline_passed,
                );
                match result {
                    Ok(count) => SignalFlush::Reconciled(count),
                    Err(error) => SignalFlush::Failed(error),
                }
            },
        }
    }
}

/// How far the handling of terminating signals has come.
#[derive(Debug, Clone, Copy, PartialEq, Eq, Structural)]
pub enum CleanupState {
    /// No signal has arrived.
    Armed,
    /// The cleanup for a first signal is running.
    Cleaning(i32),
    /// The process is to exit with this code.
    Exiting(i32),
}

/// What happens while terminating signals are handled.
#[derive(Debug, Clone, Copy, PartialEq, Eq, Structural)]
pub enum CleanupEvent {
    /// A signal with this exit code arrived.
    Signal(i32),
    /// The cleanup is done.
    CleanedUp,
}

/// What is to be done about it.
#[derive(Debug, Clone, Copy, PartialEq, Eq, Structural)]
pub enum CleanupAction {
    /// Nothing.
    Ignore,
    /// Run the cleanup for the signal with this exit code, and keep listening.
    StartCleanup(i32),
    /// Restore the terminal and exit at once.
    RestoreAndExit(i32),
    /// Exit.
    Exit(i32),
}

/// The state after an event.
pub open spec fn state_after(state: CleanupState, event: CleanupEvent) -> CleanupState {
    match (state, event) {
        (CleanupState::Armed, CleanupEvent::Signal(code)) => CleanupState::Cleaning(code),
        (CleanupState::Cleaning(code), _) => CleanupState::Exiting(code),
        (_, _) => state,
    }
}

/// What an event calls for.
pub open spec fn action_for(state: CleanupState, event: CleanupEvent) -> CleanupAction {
    match (state, event) {
        (CleanupState::Armed, CleanupEvent::Signal(code)) => CleanupAction::StartCleanup(code),
        (CleanupState::Cleaning(code), CleanupEvent::Signal(_)) => CleanupAction::RestoreAndExit(
            code,
        ),
        (CleanupState::Cleaning(code), CleanupEvent::CleanedUp) => CleanupAction::Exit(code),
        (CleanupState::Exiting(code), _) => CleanupAction::Exit(code),
        (CleanupState::Armed, CleanupEvent::CleanedUp) => CleanupAction::Ignore,
    }
}

/// Handles one event: the first signal starts the cleanup, and a second one
/// exits without waiting for it.
pub fn signal_cleanup_step(state: &mut CleanupState, event: CleanupEvent) -> (action: CleanupAction)
    ensures
        action == action_for(*old(state), event),
        *final(state) == state_after(*old(state), event),
        *old(state) matches CleanupState::Exiting(code) ==> action == CleanupAction::Exit(code)
            && *final(state) == *old(state),
        *old(state) matches CleanupState::Cleaning(code) ==> *final(state) == CleanupState::Exiting(
            code,
        ) && (action == CleanupAction::Exit(code) || action == CleanupAction::RestoreAndExit(code)),
        *old(state) == CleanupState::Armed ==> (event matches CleanupEvent::Signal(code) ==> action
            == CleanupAction::StartCleanup(code) && *final(state) == CleanupState::Cleaning(code)),
{
    match *state {
        CleanupState::Armed => match event {
            CleanupEvent::Signal(code) => {
                *state = CleanupState::Cleaning(code);
                CleanupAction::StartCleanup(code)
            },
            CleanupEvent::CleanedUp => CleanupAction::Ignore,
        },
        CleanupState::Cleaning(code) => {
            *state = CleanupState::Exiting(code);
            match event {
                CleanupEvent::Signal(_) => CleanupAction::RestoreAndExit(code),
                CleanupEvent::CleanedUp => CleanupAction::Exit(code),
            }
        },
        CleanupState::Exiting(code) => CleanupAction::Exit(code),
    }
}

/// Once a first signal has arrived, the next event of any kind, a second signal
/// or the end of the cleanup, exits, and with the code of the first signal. The
/// cleanup is started once.
pub proof fn law_second_event_exits(code: i32, next: CleanupEvent)
    ensures
        ({
            let cleaning = state_after(CleanupState::Armed, CleanupEvent::Signal(code));
            &&& action_for(CleanupState::Armed, CleanupEvent::Signal(code))
                == CleanupAction::StartCleanup(code)
            &&& action_for(cleaning, next) == CleanupAction::RestoreAndExit(code) || action_for(
                cleaning,
                next,
            ) == CleanupAction::Exit(code)
            &&& state_after(cleaning, next) == CleanupState::Exiting(code)
        }),
{
}

/// How a session ended.
#[derive(Debug, Clone, Copy, PartialEq, Eq, Structural)]
pub enum ExitClass {
    /// By a signal.
    Signal,
    /// In any other way.
    Other,
}

/// What is reported of the end of a session, with whatever was counted in it.
#[derive(Debug)]
pub struct SessionEnd<C> {
    /// How long it lasted, in whole seconds.
    pub duration_secs: u64,
    pub exit_class: ExitClass,
    /// How long the start took, where an event loop ever began.
    pub cold_start_ms: Option<u64>,
    pub counters: C,
}

/// The report of the end of a session: it has lasted no time where its start
/// was never recorded, and its exit class is the one recorded, never one
/// derived from an exit code.
pub fn telemetry_session_end<C>(
    elapsed_secs: Option<u64>,
    exit_class: ExitClass,
    cold_start_ms: Option<u64>,
    counters: C,
) -> (end: SessionEnd<C>)
    ensures
        end == (SessionEnd {
            duration_secs: if elapsed_secs is Some {
                elapsed_secs->0
            } else {
                0
            },
            exit_class,
            cold_start_ms,
            counters,
        }),
{
    let duration_secs: u64 = match elapsed_secs {
        Some(secs) => secs,
        None => 0,
    };
    SessionEnd { duration_secs, exit_class, cold_start_ms, counters }
}

/// The report of the end of a session by a signal.
pub fn record_signal_session_end<C>(
    elapsed_secs: Option<u64>,
    cold_start_ms: Option<u64>,
    counters: C,
) -> (end: SessionEnd<C>)
    ensures
        end.exit_class == ExitClass::Signal,
        end.duration_secs == if elapsed_secs is Some {
            elapsed_secs->0
        } else {
            0
        },
        end.cold_start_ms == cold_start_ms,
        end.counters == counters,
{
    telemetry_session_end(elapsed_secs, ExitClass::Signal, cold_start_ms, counters)
}

} // verus!
