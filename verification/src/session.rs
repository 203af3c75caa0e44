//! Control plane of a watch session: at most one session runs at a time,
//! stopping is cooperative, and only the worker itself clears the alive flag.
//!
//! The runtime around the library drives one `SessionControl` value: `start`
//! and `stop` are the caller-facing transitions, `setup_complete`,
//! `setup_failed` and `worker_exited` are the worker-side transitions, and
//! `status` is the lock-free view callers poll.

use vstd::prelude::*;

verus! {

/// Lifecycle of the one watch session: no session, a session that was
/// requested (and may be running), or a session asked to wind down.
pub enum SessionState {
    Idle,
    Running,
    StopRequested,
}

/// The shared control state: the session's lifecycle plus the flag that says
/// whether the background worker is currently executing.
pub struct SessionControl {
    state: SessionState,
    alive: bool,
}

impl SessionControl {
    /// The session's lifecycle state.
    pub closed spec fn spec_state(self) -> SessionState {
        self.state
    }

    /// Whether the background worker is currently executing.
    pub closed spec fn spec_alive(self) -> bool {
        self.alive
    }

    /// A worker can only be alive inside a session.
    pub open spec fn wf(self) -> bool {
        self.spec_alive() ==> !(self.spec_state() is Idle)
    }

    /// What `start` does: from `Idle` it clears any pending stop and opens a
    /// session; in any other state it is a no-op that reports `false`.
    pub open spec fn start_step(pre: Self, post: Self, r: bool) -> bool {
        if pre.spec_state() is Idle {
            r == true && post.spec_state() is Running && post.spec_alive() == pre.spec_alive()
        } else {
            r == false && post == pre
        }
    }

    /// What `stop` does: from `Running` it records the stop request and
    /// reports `true`; otherwise it is a no-op that reports `false`, and in
    /// particular leaves no stop signal behind.
    pub open spec fn stop_step(pre: Self, post: Self, r: bool) -> bool {
        if pre.spec_state() is Running {
            r == true && post.spec_state() is StopRequested && post.spec_alive()
                == pre.spec_alive()
        } else {
            r == false && post == pre
        }
    }

    /// What the worker's successful setup does: marks the worker alive.
    pub open spec fn setup_complete_step(pre: Self, post: Self) -> bool {
        post.spec_alive() == true && post.spec_state() == pre.spec_state()
    }

    /// What a failed setup does: ends the session with the worker never
    /// having been alive.
    pub open spec fn setup_failed_step(pre: Self, post: Self) -> bool {
        post.spec_state() is Idle && post.spec_alive() == false
    }

    /// What the worker's exit does: clears the alive flag and returns the
    /// session to `Idle`.
    pub open spec fn worker_exit_step(pre: Self, post: Self) -> bool {
        post.spec_state() is Idle && post.spec_alive() == false
    }

    /// A fresh control plane: no session, no worker.
    pub fn new() -> (r: Self)
        ensures
            r.spec_state() is Idle,
            !r.spec_alive(),
            r.wf(),
    {
        SessionControl { state: SessionState::Idle, alive: false }
    }

    /// Open a session if none is open. Returns whether the transition was
    /// performed; the caller spawns the worker exactly when it was.
    pub fn start(&mut self) -> (r: bool)
        requires
            old(self).wf(),
        ensures
            Self::start_step(*old(self), *final(self), r),
            final(self).wf(),
            r == (old(self).spec_state() is Idle),
            final(self).spec_alive() == old(self).spec_alive(),
    {
        match self.state {
            SessionState::Idle => {
                self.state = SessionState::Running;
                true
            },
            _ => false,
        }
    }

    /// Request that the running session wind down. Stopping is asynchronous:
    /// the worker observes the request at its next poll.
    pub fn stop(&mut self) -> (r: bool)
        requires
            old(self).wf(),
        ensures
            Self::stop_step(*old(self), *final(self), r),
            final(self).wf(),
            r == (old(self).spec_state() is Running),
            final(self).spec_alive() == old(self).spec_alive(),
    {
        match self.state {
            SessionState::Running => {
                self.state = SessionState::StopRequested;
                true
            },
            _ => false,
        }
    }

    /// Whether a worker is currently alive.
    pub fn status(&self) -> (r: bool)
        ensures
            r == self.spec_alive(),
    {
        self.alive
    }

    /// Whether the worker has been asked to wind down.
    pub fn stop_requested(&self) -> (r: bool)
        ensures
            r == (self.spec_state() is StopRequested),
    {
        match self.state {
            SessionState::StopRequested => true,
            _ => false,
        }
    }

    /// The worker finished constructing its event source: it is now alive.
    pub fn setup_complete(&mut self)
        requires
            old(self).wf(),
            !(old(self).spec_state() is Idle),
            !old(self).spec_alive(),
        ensures
            Self::setup_complete_step(*old(self), *final(self)),
            final(self).wf(),
    {
        self.alive = true;
    }

    /// The worker could not construct its event source: the session ends and
    /// the alive flag was never raised.
    pub fn setup_failed(&mut self)
        requires
            old(self).wf(),
            !old(self).spec_alive(),
        ensures
            Self::setup_failed_step(*old(self), *final(self)),
            final(self).wf(),
    {
        self.state = SessionState::Idle;
    }

    /// The worker's loop ended, by stop request or by a fatal disconnect:
    /// this is the only transition that clears the alive flag.
    pub fn worker_exited(&mut self)
        requires
            old(self).wf(),
            old(self).spec_alive(),
        ensures
            Self::worker_exit_step(*old(self), *final(self)),
            final(self).wf(),
    {
        self.alive = false;
        self.state = SessionState::Idle;
    }
}

/// Starting twice without an intervening stop or exit opens the session once:
/// the first call reports `true`, the second reports `false` and changes
/// nothing.
pub proof fn lemma_no_double_session(
    s0: SessionControl,
    s1: SessionControl,
    s2: SessionControl,
    r1: bool,
    r2: bool,
)
    requires
        s0.spec_state() is Idle,
        SessionControl::start_step(s0, s1, r1),
        SessionControl::start_step(s1, s2, r2),
    ensures
        r1 == true,
        r2 == false,
        s2 == s1,
{
}

/// Stopping when no session is running reports `false` and leaves the whole
/// control state, the stop signal included, exactly as it was.
pub proof fn lemma_stop_idempotent(s0: SessionControl, s1: SessionControl, r: bool)
    requires
        !(s0.spec_state() is Running),
        SessionControl::stop_step(s0, s1, r),
    ensures
        r == false,
        s1 == s0,
{
}

/// Once `stop` has reported `true`, the stop request is visible to the
/// worker's next poll, and as soon as the worker exits on it the status
/// callers read is `false`.
pub proof fn lemma_bounded_shutdown(
    s0: SessionControl,
    s1: SessionControl,
    s2: SessionControl,
)
    requires
        SessionControl::stop_step(s0, s1, true),
        SessionControl::worker_exit_step(s1, s2),
    ensures
        s1.spec_state() is StopRequested,
        !s2.spec_alive(),
{
}

/// When setup fails, the alive flag is never raised: status reads `false`
/// when the session is opened, while the worker fails, and after it ends.
pub proof fn lemma_setup_failure_never_alive(
    s0: SessionControl,
    s1: SessionControl,
    s2: SessionControl,
)
    requires
        s0.wf(),
        s0.spec_state() is Idle,
        SessionControl::start_step(s0, s1, true),
        SessionControl::setup_failed_step(s1, s2),
    ensures
        !s0.spec_alive(),
        !s1.spec_alive(),
        !s2.spec_alive(),
        s2.spec_state() is Idle,
{
}

} // verus!
