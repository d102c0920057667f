//! The supervisor for the long-lived main execution context.
//!
//! The embedder runs: initialize the context, run its loop, hand the
//! outcome here, and do what the returned action says. Clean completion
//! and a closed inbound queue shut down; a failure — of the loop or of
//! initialization — is retried after a fixed backoff, up to a bound;
//! past the bound it is fatal: an operator-visible explanation must be
//! presented before the host process terminates. Child worker contexts
//! are not retried by this policy: their crashes surface to whoever
//! manages them.

use vstd::prelude::*;

verus! {

/// How many times the main context is reinitialized after failures
/// before the host gives up.
pub const MAX_RETRIES: u32 = 5;

/// How long to wait before reinitializing, in milliseconds.
pub const RETRY_DELAY_MS: u64 = 1000;

/// How one run of the main execution context ended.
#[derive(Debug, Clone)]
pub enum RunOutcome {
    /// The event loop completed normally.
    Completed,
    /// The inbound host-event queue closed: an intentional shutdown
    /// signal, not an error.
    InboundClosed,
    /// The event loop failed with this message.
    LoopFailure(String),
    /// The context could not be initialized; the message says why.
    InitFailure(String),
}

/// What the embedder does next.
#[derive(Debug, Clone)]
pub enum SupervisorAction {
    /// Exit the supervising loop cleanly.
    Shutdown,
    /// Sleep this many milliseconds, then reinitialize the context.
    RetryAfter(u64),
    /// Retries are exhausted: show the operator this explanation, then
    /// terminate the host process.
    Fatal(String),
}

/// The retry state of the supervising loop: an explicit machine, so the
/// retry policy stands on its own.
#[derive(Debug, Clone, PartialEq, Eq, Structural)]
pub struct Supervisor {
    /// Failures seen so far in this supervising loop.
    pub retries: u32,
    /// The bound past which the supervisor gives up.
    pub max_retries: u32,
    /// The fixed backoff before each reinitialization, in milliseconds.
    pub backoff_ms: u64,
}

impl Supervisor {
    /// A supervisor that has seen no failures.
    pub fn new(max_retries: u32, backoff_ms: u64) -> (r: Self)
        ensures
            r.retries == 0,
            r.max_retries == max_retries,
            r.backoff_ms == backoff_ms,
    {
        Supervisor { retries: 0, max_retries: max_retries, backoff_ms: backoff_ms }
    }

    /// Decides what follows one run of the main context. Clean completion
    /// and inbound-queue closure shut down. A failure within the bound
    /// counts a retry and backs off; past the bound, any failure is
    /// fatal with its message.
    pub fn next_action(&mut self, outcome: RunOutcome) -> (r: SupervisorAction)
        ensures
            outcome is Completed || outcome is InboundClosed ==> r is Shutdown && *final(self) == *old(self),
            outcome matches RunOutcome::LoopFailure(m) ==> (if old(self).retries < old(self).max_retries {
                r matches SupervisorAction::RetryAfter(d) && d == old(self).backoff_ms && *final(self) == (Supervisor { retries: (old(self).retries + 1) as u32, ..*old(self) })
            } else {
                (r matches SupervisorAction::Fatal(f) && f@ == m@) && *final(self) == *old(self)
            }),
            outcome matches RunOutcome::InitFailure(m) ==> (if old(self).retries < old(self).max_retries {
                r matches SupervisorAction::RetryAfter(d) && d == old(self).backoff_ms && *final(self) == (Supervisor { retries: (old(self).retries + 1) as u32, ..*old(self) })
            } else {
                (r matches SupervisorAction::Fatal(f) && f@ == m@) && *final(self) == *old(self)
            }),
    {
        match outcome {
            RunOutcome::Completed => SupervisorAction::Shutdown,
            RunOutcome::InboundClosed => SupervisorAction::Shutdown,
            RunOutcome::LoopFailure(m) => {
                if self.retries < self.max_retries {
                    self.retries = self.retries + 1;
                    SupervisorAction::RetryAfter(self.backoff_ms)
                } else {
                    SupervisorAction::Fatal(m)
                }
            },
            RunOutcome::InitFailure(m) => {
                if self.retries < self.max_retries {
                    self.retries = self.retries + 1;
                    SupervisorAction::RetryAfter(self.backoff_ms)
                } else {
                    SupervisorAction::Fatal(m)
                }
            },
        }
    }
}

} // verus!
