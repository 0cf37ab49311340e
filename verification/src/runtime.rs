//! The upload runtime state machine behind the desktop control panel: at
//! most one runtime runs, it is started only when stopped and stopped only
//! when running.

use vstd::prelude::*;

use crate::client::ClientActionState;

verus! {

/// Whether the upload runtime runs.
#[derive(Debug, Clone, Copy, PartialEq, Eq, Structural)]
pub enum RuntimeStatus {
    Stopped,
    Running,
}

/// A refused start or stop, or the failure of the work that starts or stops
/// the runtime.
#[derive(Debug)]
pub enum RuntimeError<E> {
    AlreadyRunning,
    NotRunning,
    Failed(E),
}

impl<E> RuntimeError<E> {
    /// The message of a refusal; `None` for a failure, which has its own.
    pub fn refusal_message(&self) -> (m: Option<String>)
        ensures
            match *self {
                RuntimeError::AlreadyRunning => m matches Some(s) && s@
                    == "runtime is already running"@,
                RuntimeError::NotRunning => m matches Some(s) && s@ == "runtime is not running"@,
                RuntimeError::Failed(_) => m is None,
            },
    {
        match self {
            RuntimeError::AlreadyRunning => Some(String::from_str("runtime is already running")),
            RuntimeError::NotRunning => Some(String::from_str("runtime is not running")),
            RuntimeError::Failed(_) => None,
        }
    }
}

/// Holds the running runtime, if any.
pub struct RuntimeManager<R> {
    runtime: Option<R>,
}

pub open spec fn status_of(running: bool) -> RuntimeStatus {
    if running {
        RuntimeStatus::Running
    } else {
        RuntimeStatus::Stopped
    }
}

impl<R> RuntimeManager<R> {
    /// The running runtime, if any.
    pub closed spec fn current(&self) -> Option<R> {
        self.runtime
    }

    pub open spec fn is_running(&self) -> bool {
        self.current() is Some
    }

    /// A manager with no runtime.
    pub fn new() -> (m: Self)
        ensures
            m.current() is None,
    {
        RuntimeManager { runtime: None }
    }

    /// `Running` when a runtime is held, else `Stopped`.
    pub fn status(&self) -> (s: RuntimeStatus)
        ensures
            s == status_of(self.is_running()),
    {
        if self.runtime.is_some() {
            RuntimeStatus::Running
        } else {
            RuntimeStatus::Stopped
        }
    }

    /// Starts a runtime with `launch` unless one runs already (then `launch`
    /// is not called). A runtime that `launch` hands back is kept; a question
    /// for the user or a failure leaves the manager stopped.
    pub fn start<E, F: FnOnce() -> Result<ClientActionState<R>, E>>(&mut self, launch: F) -> (r:
        Result<ClientActionState<RuntimeStatus>, RuntimeError<E>>)
        requires
            old(self).current() is None ==> call_requires(launch, ()),
        ensures
            old(self).current() is Some ==> (r matches Err(RuntimeError::AlreadyRunning)
                && final(self).current() == old(self).current()),
            old(self).current() is None ==> exists|out: Result<ClientActionState<R>, E>|
                #[trigger] call_ensures(launch, (), out) && match out {
                    Ok(ClientActionState::Ready(rt)) => r matches Ok(
                        ClientActionState::Ready(RuntimeStatus::Running),
                    ) && final(self).current() == Some(rt),
                    Ok(ClientActionState::NeedsInteraction(q)) => r matches Ok(
                        ClientActionState::NeedsInteraction(p),
                    ) && p == q && final(self).current() is None,
                    Err(e) => r matches Err(RuntimeError::Failed(f)) && f == e
                        && final(self).current() is None,
                },
    {
        if self.runtime.is_some() {
            return Err(RuntimeError::AlreadyRunning);
        }
        let out = launch();
        match out {
            Ok(ClientActionState::Ready(rt)) => {
                self.runtime = Some(rt);
                Ok(ClientActionState::Ready(RuntimeStatus::Running))
            },
            Ok(ClientActionState::NeedsInteraction(q)) => Ok(ClientActionState::NeedsInteraction(q)),
            Err(e) => Err(RuntimeError::Failed(e)),
        }
    }

    /// Stops the running runtime with `halt`; refused when none runs. The
    /// manager lets go of the runtime either way, so it is stopped afterwards
    /// even when `halt` fails.
    pub fn stop<E, F: FnOnce(R) -> Result<(), E>>(&mut self, halt: F) -> (r: Result<
        RuntimeStatus,
        RuntimeError<E>,
    >)
        requires
            old(self).current() matches Some(rt) ==> call_requires(halt, (rt,)),
        ensures
            final(self).current() is None,
            old(self).current() is None ==> (r matches Err(RuntimeError::NotRunning)),
            old(self).current() matches Some(rt) ==> exists|out: Result<(), E>|
                #[trigger] call_ensures(halt, (rt,), out) && match out {
                    Ok(()) => r == Ok::<RuntimeStatus, RuntimeError<E>>(RuntimeStatus::Stopped),
                    Err(e) => r matches Err(RuntimeError::Failed(f)) && f == e,
                },
    {
        match self.runtime.take() {
            None => Err(RuntimeError::NotRunning),
            Some(rt) => match halt(rt) {
                Ok(()) => Ok(RuntimeStatus::Stopped),
                Err(e) => Err(RuntimeError::Failed(e)),
            },
        }
    }
}

impl<R> Default for RuntimeManager<R> {
    /// A manager with no runtime.
    fn default() -> (m: Self)
        ensures
            m.current() is None,
    {
        RuntimeManager::new()
    }
}

} // verus!
