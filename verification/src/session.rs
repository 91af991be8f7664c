//! Playback session manager: the lifecycle of the single external
//! playback-engine instance, as a state machine over `Absent` and
//! `Present`.
//!
//! The engine itself is an outside capability that only the caller can
//! drive (create, configure, poll, quit), so the session holds an opaque
//! numeric handle chosen by the caller and every operation here is the
//! pure decision step of one lock-protected critical section: the caller
//! acquires its lock, calls one step, and performs the returned action
//! outside the lock. The steps are total and never panic.

use vstd::prelude::*;

verus! {

/// Errors of the playback subsystem, returned as values.
#[derive(Debug)]
pub enum PlaybackError {
    /// The engine could not be created or a configuration step failed;
    /// the session stays as it was.
    EngineInitFailure(String),
    /// A command, terminate or poll request arrived while the session
    /// was `Absent`.
    NotInitialized,
    /// The engine rejected a command; the session state is unaffected.
    EngineCommandFailure(String),
}

/// What one iteration of the shutdown watcher decides.
pub enum PollStep {
    /// The session is already `Absent`: someone else tore it down, and
    /// the watcher exits successfully.
    Converged,
    /// The engine reported its shutdown: the handle was taken out of the
    /// session; the caller issues a best-effort quit and exits.
    Release(u64),
    /// No shutdown event was observed: release the lock and poll again.
    KeepWaiting,
}

/// The process-wide playback session: `None` is `Absent`, `Some(handle)`
/// is `Present` with the caller's handle to the one engine instance.
pub struct PlaybackSession {
    pub instance: Option<u64>,
}

/// The `init` step: a successful engine setup stores the new handle and
/// hands any previously stored handle back so the caller terminates it
/// (never a silent replace); a failed setup reports `EngineInitFailure`
/// and leaves the session as it was, so a partially configured instance
/// is never registered.
pub open spec fn init_transition(s: Option<u64>, outcome: Result<u64, String>) -> (Option<
    u64,
>, Result<Option<u64>, PlaybackError>) {
    match outcome {
        Ok(h) => (Some(h), Ok(s)),
        Err(m) => (s, Err(PlaybackError::EngineInitFailure(m))),
    }
}

/// The `terminate` step: a `Present` session hands its handle out for an
/// explicit quit and becomes `Absent`; an `Absent` one reports
/// `NotInitialized` so the caller can tell "nothing to do" from
/// "successfully stopped".
pub open spec fn terminate_transition(s: Option<u64>) -> (Option<u64>, Result<
    u64,
    PlaybackError,
>) {
    match s {
        Some(h) => (None, Ok(h)),
        None => (None, Err(PlaybackError::NotInitialized)),
    }
}

/// One shutdown-watcher iteration: an `Absent` session means the watcher
/// is done; a `Present` one with an observed shutdown event releases the
/// handle; otherwise the watcher keeps waiting and nothing changes.
pub open spec fn poll_transition(s: Option<u64>, saw_shutdown: bool) -> (Option<
    u64,
>, PollStep) {
    match s {
        None => (None, PollStep::Converged),
        Some(h) => if saw_shutdown {
            (None, PollStep::Release(h))
        } else {
            (Some(h), PollStep::KeepWaiting)
        },
    }
}

/// Routing of an ordinary engine command: `Present` hands the stored
/// handle out, `Absent` reports `NotInitialized`.
pub open spec fn command_transition(s: Option<u64>) -> Result<u64, PlaybackError> {
    match s {
        Some(h) => Ok(h),
        None => Err(PlaybackError::NotInitialized),
    }
}

/// The verdict on a forwarded engine command: a rejection by the engine
/// is reported as `EngineCommandFailure` with the engine's cause; the
/// session state is unaffected either way.
pub open spec fn command_outcome_transition(outcome: Result<(), String>) -> Result<
    (),
    PlaybackError,
> {
    match outcome {
        Ok(u) => Ok(u),
        Err(m) => Err(PlaybackError::EngineCommandFailure(m)),
    }
}

/// Maps the engine's verdict on a forwarded command, as
/// `command_outcome_transition` describes.
pub fn apply_command_outcome(outcome: Result<(), String>) -> (r: Result<(), PlaybackError>)
    ensures
        r == command_outcome_transition(outcome),
{
    match outcome {
        Ok(u) => Ok(u),
        Err(m) => Err(PlaybackError::EngineCommandFailure(m)),
    }
}

impl PlaybackSession {
    /// A fresh session is `Absent`.
    pub fn new() -> (s: Self)
        ensures
            s.instance is None,
    {
        PlaybackSession { instance: None }
    }

    /// Applies the outcome of an engine setup (creation, configuration and
    /// the initial load-and-play command, all done by the caller) as
    /// `init_transition` describes. On `Ok` the returned previous handle,
    /// if any, must be terminated by the caller.
    pub fn apply_init(&mut self, outcome: Result<u64, String>) -> (r: Result<
        Option<u64>,
        PlaybackError,
    >)
        ensures
            final(self).instance == init_transition(old(self).instance, outcome).0,
            r == init_transition(old(self).instance, outcome).1,
    {
        match outcome {
            Ok(h) => {
                let prev = self.instance;
                self.instance = Some(h);
                Ok(prev)
            },
            Err(m) => Err(PlaybackError::EngineInitFailure(m)),
        }
    }

    /// Takes exclusive ownership of the stored instance as
    /// `terminate_transition` describes: on `Ok` the session is `Absent`
    /// before the caller ever issues the quit command.
    pub fn terminate(&mut self) -> (r: Result<u64, PlaybackError>)
        ensures
            final(self).instance == terminate_transition(old(self).instance).0,
            r == terminate_transition(old(self).instance).1,
    {
        match self.instance {
            Some(h) => {
                self.instance = None;
                Ok(h)
            },
            None => Err(PlaybackError::NotInitialized),
        }
    }

    /// The shutdown watcher's initial check: watching may only start on a
    /// `Present` session.
    pub fn watch_precheck(&self) -> (r: Result<(), PlaybackError>)
        ensures
            r is Ok <==> self.instance is Some,
            self.instance is None ==> r == Err::<(), PlaybackError>(
                PlaybackError::NotInitialized,
            ),
    {
        match self.instance {
            Some(_) => Ok(()),
            None => Err(PlaybackError::NotInitialized),
        }
    }

    /// One iteration of the shutdown watcher, as `poll_transition`
    /// describes. `saw_shutdown` is the caller's non-blocking,
    /// zero-timeout check of the engine's event queue.
    pub fn poll_step(&mut self, saw_shutdown: bool) -> (r: PollStep)
        ensures
            final(self).instance == poll_transition(old(self).instance, saw_shutdown).0,
            r == poll_transition(old(self).instance, saw_shutdown).1,
    {
        match self.instance {
            None => PollStep::Converged,
            Some(h) => {
                if saw_shutdown {
                    self.instance = None;
                    PollStep::Release(h)
                } else {
                    PollStep::KeepWaiting
                }
            },
        }
    }

    /// Hands out the stored handle for an ordinary engine command, as
    /// `command_transition` describes. The session itself is unchanged.
    pub fn command_target(&self) -> (r: Result<u64, PlaybackError>)
        ensures
            r == command_transition(self.instance),
    {
        match self.instance {
            Some(h) => Ok(h),
            None => Err(PlaybackError::NotInitialized),
        }
    }
}

/// Terminating twice in a row reports `NotInitialized` the second time,
/// whatever the starting state, and from `Absent` both times; the session
/// is `Absent` after either call. Termination is idempotent and total.
pub proof fn lemma_terminate_idempotent(s: Option<u64>)
    ensures
        terminate_transition(None).1 == Err::<u64, PlaybackError>(PlaybackError::NotInitialized),
        terminate_transition(terminate_transition(s).0).1 == Err::<u64, PlaybackError>(
            PlaybackError::NotInitialized,
        ),
        terminate_transition(s).0 is None,
        terminate_transition(terminate_transition(s).0).0 is None,
{
}

/// A released handle is unreachable afterwards: once `terminate` hands a
/// handle out, or a poll releases one, the session is `Absent`, so a
/// later command or terminate (in the lock's linear order of operations)
/// reports `NotInitialized` instead of reaching the released instance.
pub proof fn lemma_release_exclusive(s: Option<u64>, saw_shutdown: bool)
    ensures
        terminate_transition(s).1 is Ok ==> terminate_transition(s).0 is None,
        poll_transition(s, saw_shutdown).1 is Release ==> poll_transition(s, saw_shutdown).0
            is None,
        command_transition(terminate_transition(s).0) == Err::<u64, PlaybackError>(
            PlaybackError::NotInitialized,
        ),
{
}

/// The shutdown watcher converges: as soon as the session is `Absent`
/// (someone terminated it) or the engine's shutdown event is observed,
/// the iteration step exits the loop, and the session ends `Absent`;
/// and an iteration that keeps waiting changes nothing.
pub proof fn lemma_poll_converges(s: Option<u64>, saw_shutdown: bool)
    ensures
        s is None || saw_shutdown ==> !(poll_transition(s, saw_shutdown).1 is KeepWaiting),
        s is None || saw_shutdown ==> poll_transition(s, saw_shutdown).0 is None,
        poll_transition(s, saw_shutdown).1 is KeepWaiting ==> poll_transition(s, saw_shutdown).0
            == s,
{
}

/// A failed engine setup registers nothing: the session keeps its old
/// state, so a partially configured instance can never be observed as
/// `Present`; a successful one stores exactly the new handle and hands
/// the old one (if any) back for termination.
pub proof fn lemma_init_no_leak(s: Option<u64>, outcome: Result<u64, String>)
    ensures
        outcome is Err ==> init_transition(s, outcome).0 == s,
        outcome is Ok ==> init_transition(s, outcome).0 == Some(outcome->Ok_0),
        outcome is Ok ==> init_transition(s, outcome).1 == Ok::<Option<u64>, PlaybackError>(s),
{
}

} // verus!
