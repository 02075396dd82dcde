//! Readiness-driven retry state machine.
//!
//! An asynchronous socket operation suspends until its side of the
//! descriptor signals readiness, then attempts the underlying call exactly
//! once. If the attempt still reports would-block, the stale readiness
//! token is discarded and the operation suspends again: retries are driven
//! strictly by real readiness events, never by polling. The machine below
//! is that loop's decision core; the shell around it only awaits the events
//! and performs the one call per attempt.
//!
//! Cancellation before readiness fires is dropping the machine: no call has
//! been performed and no partial transfer exists. A socket supports one
//! pending operation per side; overlapping waiters on the same side race
//! the same readiness token and are a caller error, not handled here.

use vstd::prelude::*;

verus! {

/// Outcome of one attempt of the underlying socket call: either the
/// non-fatal would-block report, or a carried final result, a success or
/// any other error.
#[derive(Clone, Copy, Debug, PartialEq, Eq)]
pub enum Attempt<T> {
    WouldBlock,
    Finished(T),
}

/// Phase of one asynchronous operation.
#[derive(Clone, Copy, Debug, PartialEq, Eq, Structural)]
pub enum Phase {
    /// Suspended until the descriptor signals readiness.
    WaitingReadiness,
    /// Readiness fired; the one attempt of the call is owed.
    Attempting,
    /// The attempt returned something other than would-block.
    Done,
}

/// One asynchronous operation, from its first suspension to its final
/// result.
pub struct AsyncOp<T> {
    phase: Phase,
    wakeups: Ghost<nat>,
    attempts: Ghost<nat>,
    marker: core::marker::PhantomData<T>,
}

impl<T> AsyncOp<T> {
    /// Phase the operation is in.
    pub closed spec fn state(&self) -> Phase {
        self.phase
    }

    /// How many readiness notifications the operation has consumed.
    pub closed spec fn wakeups(&self) -> nat {
        self.wakeups@
    }

    /// How many times the underlying call has been attempted.
    pub closed spec fn attempts(&self) -> nat {
        self.attempts@
    }

    /// Invariant: every attempt consumes exactly one readiness
    /// notification, and the operation finishes only out of an attempt.
    pub closed spec fn wf(&self) -> bool {
        &&& (self.phase is Attempting ==> self.wakeups@ == self.attempts@ + 1)
        &&& (!(self.phase is Attempting) ==> self.wakeups@ == self.attempts@)
        &&& (self.phase is Done ==> self.attempts@ >= 1)
    }

    /// Starts an operation: suspended, no readiness seen, no call
    /// attempted.
    pub fn new() -> (r: Self)
        ensures
            r.wf(),
            r.state() is WaitingReadiness,
            r.wakeups() == 0,
            r.attempts() == 0,
    {
        AsyncOp {
            phase: Phase::WaitingReadiness,
            wakeups: Ghost(0),
            attempts: Ghost(0),
            marker: core::marker::PhantomData,
        }
    }

    /// A readiness notification fired for this operation's side: the one
    /// attempt of the underlying call is now owed.
    pub fn on_readiness(&mut self)
        requires
            old(self).wf(),
            old(self).state() is WaitingReadiness,
        ensures
            final(self).wf(),
            final(self).state() is Attempting,
            final(self).wakeups() == old(self).wakeups() + 1,
            final(self).attempts() == old(self).attempts(),
    {
        self.phase = Phase::Attempting;
        self.wakeups = Ghost(self.wakeups@ + 1);
    }

    /// The owed attempt of the underlying call ran, with this outcome.
    /// Would-block discards the stale readiness token and suspends again,
    /// handing nothing up; any other outcome finishes the operation and is
    /// handed up unchanged.
    pub fn on_attempt(&mut self, outcome: Attempt<T>) -> (r: Option<T>)
        requires
            old(self).wf(),
            old(self).state() is Attempting,
        ensures
            final(self).wf(),
            final(self).attempts() == old(self).attempts() + 1,
            final(self).wakeups() == old(self).wakeups(),
            match outcome {
                Attempt::WouldBlock => r is None && final(self).state() is WaitingReadiness,
                Attempt::Finished(t) => r == Some(t) && final(self).state() is Done,
            },
    {
        self.attempts = Ghost(self.attempts@ + 1);
        match outcome {
            Attempt::WouldBlock => {
                self.phase = Phase::WaitingReadiness;
                None
            },
            Attempt::Finished(t) => {
                self.phase = Phase::Done;
                Some(t)
            },
        }
    }

    /// Whether the operation is suspended waiting for readiness.
    pub fn is_waiting(&self) -> (r: bool)
        ensures
            r == (self.state() is WaitingReadiness),
    {
        matches!(self.phase, Phase::WaitingReadiness)
    }

    /// Whether the operation owes an attempt of the underlying call.
    pub fn is_attempting(&self) -> (r: bool)
        ensures
            r == (self.state() is Attempting),
    {
        matches!(self.phase, Phase::Attempting)
    }

    /// Whether the operation has finished.
    pub fn is_done(&self) -> (r: bool)
        ensures
            r == (self.state() is Done),
    {
        matches!(self.phase, Phase::Done)
    }
}

/// An operation never busy-loops and never returns early: the attempts made
/// stay within one of the readiness events consumed, every attempt after a
/// real notification, and a finished operation went through at least one
/// attempt, so nothing completes before the underlying call has run.
pub proof fn lemma_no_busy_wait<T>(op: AsyncOp<T>)
    requires
        op.wf(),
    ensures
        op.attempts() <= op.wakeups() <= op.attempts() + 1,
        op.state() is Done ==> op.attempts() >= 1,
{
}

} // verus!
