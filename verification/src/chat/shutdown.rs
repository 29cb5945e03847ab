//! Coordinates the way from "accepting" to "fully stopped".
use vstd::prelude::*;

verus! {

/// How far a shutdown has come.
#[derive(Debug, PartialEq, Eq, Clone, Copy, Structural)]
pub enum ShutdownPhase {
    /// Connections are accepted.
    Accepting,
    /// Shutdown was initiated; some units of execution still run.
    Draining,
    /// Shutdown was initiated and every unit of execution has terminated.
    Stopped,
}

/// Mathematical value of a [`ShutdownController`].
pub struct ShutdownView {
    /// Whether shutdown was initiated.
    pub initiated: bool,
    /// Number of units of execution that were started and have not terminated.
    pub running: nat,
}

/// The phase that `v` stands for.
pub open spec fn phase_of(v: ShutdownView) -> ShutdownPhase {
    if !v.initiated {
        ShutdownPhase::Accepting
    } else if v.running > 0 {
        ShutdownPhase::Draining
    } else {
        ShutdownPhase::Stopped
    }
}

/// The state after `n` more units have terminated.
pub open spec fn after_terminations(v: ShutdownView, n: nat) -> ShutdownView {
    ShutdownView {
        running: if n >= v.running {
            0
        } else {
            (v.running - n) as nat
        },
        ..v
    }
}

/// The state after shutdown was initiated.
pub open spec fn after_shutdown(v: ShutdownView) -> ShutdownView {
    ShutdownView { initiated: true, ..v }
}

/// Initiating shutdown twice is initiating it once.
pub proof fn lemma_shutdown_idempotent(v: ShutdownView)
    ensures
        after_shutdown(after_shutdown(v)) == after_shutdown(v),
{
}

/// Once shutdown is initiated, the controller is stopped exactly when all
/// units that were running have terminated, and not before.
pub proof fn lemma_stops_after_all_terminate(v: ShutdownView, n: nat)
    ensures
        phase_of(after_terminations(after_shutdown(v), n)) == ShutdownPhase::Stopped <==> n
            >= v.running,
{
}

/// Tracks the units of execution (threads, tasks, a polling loop) that the
/// server has started, and whether it was asked to shut down.
pub struct ShutdownController {
    initiated: bool,
    running: usize,
}

impl View for ShutdownController {
    type V = ShutdownView;

    closed spec fn view(&self) -> ShutdownView {
        ShutdownView { initiated: self.initiated, running: self.running as nat }
    }
}

impl ShutdownController {
    /// A controller of a server that accepts connections and runs no unit yet.
    pub fn new() -> (ctl: ShutdownController)
        ensures
            ctl@ == (ShutdownView { initiated: false, running: 0 }),
    {
        ShutdownController { initiated: false, running: 0 }
    }

    /// How far the shutdown has come.
    pub fn phase(&self) -> (phase: ShutdownPhase)
        ensures
            phase == phase_of(self@),
    {
        if !self.initiated {
            ShutdownPhase::Accepting
        } else if self.running > 0 {
            ShutdownPhase::Draining
        } else {
            ShutdownPhase::Stopped
        }
    }

    /// Whether new connections may be accepted.
    pub fn is_accepting(&self) -> (b: bool)
        ensures
            b == !self@.initiated,
    {
        !self.initiated
    }

    /// Whether the caller of the shutdown may return: shutdown was initiated
    /// and no unit of execution is left.
    pub fn is_stopped(&self) -> (b: bool)
        ensures
            b == (phase_of(self@) == ShutdownPhase::Stopped),
    {
        self.initiated && self.running == 0
    }

    /// Number of units of execution that are running.
    pub fn running(&self) -> (n: usize)
        ensures
            n == self@.running,
    {
        self.running
    }

    /// Asks to start a unit of execution. Refused, with nothing changed, once
    /// shutdown was initiated or when no further unit can be counted.
    pub fn unit_started(&mut self) -> (started: bool)
        ensures
            started <==> !old(self)@.initiated && old(self)@.running < usize::MAX,
            final(self)@ == if started {
                ShutdownView { running: old(self)@.running + 1, ..old(self)@ }
            } else {
                old(self)@
            },
    {
        if self.initiated || self.running == usize::MAX {
            false
        } else {
            self.running = self.running + 1;
            true
        }
    }

    /// Records that one unit of execution has terminated.
    pub fn unit_terminated(&mut self)
        ensures
            final(self)@ == after_terminations(old(self)@, 1),
    {
        if self.running > 0 {
            self.running = self.running - 1;
        }
    }

    /// Initiates shutdown. Returns whether this call was the one that did;
    /// later calls change nothing.
    pub fn initiate_shutdown(&mut self) -> (first: bool)
        ensures
            first == !old(self)@.initiated,
            final(self)@ == after_shutdown(old(self)@),
    {
        let first = !self.initiated;
        self.initiated = true;
        first
    }
}

} // verus!
