//! The runner of a session's recurring job.

use crate::registry::abort_task;
use spider::tokio::task::JoinHandle;
use vstd::prelude::*;

verus! {

/// The part of a recurring job that a session keeps track of: the task
/// that relays the job's page events, if there is one, and whether the job
/// was stopped. The scheduler itself stays with the runtime.
pub struct Cron {
    cron_handle: Option<JoinHandle<()>>,
    stopped: bool,
}

impl Cron {
    /// The relay task that belongs to the job, if there is one.
    pub closed spec fn listener(&self) -> Option<JoinHandle<()>> {
        self.cron_handle
    }

    /// Whether a relay task belongs to the job.
    pub open spec fn has_listener(&self) -> bool {
        self.listener() is Some
    }

    /// Whether the job was stopped.
    pub closed spec fn is_stopped(&self) -> bool {
        self.stopped
    }

    /// The runner of a job that has just been started, with the task that
    /// relays its page events where a listener was given.
    pub fn new(cron_handle: Option<JoinHandle<()>>) -> (cron: Cron)
        ensures
            !cron.is_stopped(),
            cron.listener() == cron_handle,
    {
        Cron { cron_handle, stopped: false }
    }

    /// Whether a relay task belongs to the job.
    pub fn listening(&self) -> (listening: bool)
        ensures
            listening == self.has_listener(),
    {
        self.cron_handle.is_some()
    }

    /// Whether the job was stopped.
    pub fn stopped(&self) -> (stopped: bool)
        ensures
            stopped == self.is_stopped(),
    {
        self.stopped
    }

    /// Stops the job once its scheduler was told to halt: the relay task,
    /// if there is one, is asked to stop, and the runner is stopped for
    /// good.
    pub fn stop(&mut self)
        ensures
            final(self).is_stopped(),
            final(self).listener() == old(self).listener(),
    {
        match &self.cron_handle {
            Some(handle) => {
                abort_task(handle);
            },
            None => {},
        }
        self.stopped = true;
    }
}

} // verus!
