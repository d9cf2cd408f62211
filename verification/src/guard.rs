//! The concurrency guard: exactly one termination batch may be in
//! flight. A trigger that arrives while one is active is dropped, not
//! queued, and the drop is observable as a distinct no-op decision.
//! After a batch completes, a short cooldown keeps structural UI
//! refresh suppressed before the guard returns to idle.

use vstd::prelude::*;

verus! {

/// A kill trigger, as the shell hands it in: stable tagged variants
/// rather than reconstructed menu offsets.
#[derive(Debug, Clone, Copy, PartialEq, Eq, Structural)]
pub enum KillRequest {
    /// Kill every currently displayed process.
    KillAll,
    /// Kill the one process with this pid; the port it was triggered
    /// from rides along for the kill-time ignore re-check.
    KillOne { pid: i32, port: u16 },
}

/// Where the guard stands.
#[derive(Debug, Clone, Copy, PartialEq, Eq, Structural)]
pub enum GuardState {
    /// No batch in flight: triggers are admitted.
    Idle,
    /// A batch is in flight: triggers are dropped.
    Active,
    /// The batch completed; refresh stays suppressed until the
    /// cooldown elapses.
    Cooldown,
}

/// What became of a trigger.
#[derive(Debug, Clone, Copy, PartialEq, Eq, Structural)]
pub enum TriggerDecision {
    /// The trigger was admitted and a batch is now in flight.
    Admitted,
    /// A batch was already in flight (or cooling down): the trigger
    /// is dropped as a no-op.
    GuardRejected,
}

/// What submitting a trigger does to the guard: accepted only from
/// idle, and then the guard turns active; otherwise nothing changes.
pub open spec fn spec_submit(s: GuardState) -> (GuardState, TriggerDecision) {
    match s {
        GuardState::Idle => (GuardState::Active, TriggerDecision::Admitted),
        _ => (s, TriggerDecision::GuardRejected),
    }
}

/// The guard itself: one shared batch-in-flight token.
pub struct KillGuard {
    state: GuardState,
}

impl KillGuard {
    /// Where the guard stands.
    pub closed spec fn state(&self) -> GuardState {
        self.state
    }

    /// A fresh guard: idle, nothing in flight.
    pub fn new() -> (r: KillGuard)
        ensures
            r.state() == GuardState::Idle,
    {
        KillGuard { state: GuardState::Idle }
    }

    /// Hand in a trigger. It is admitted exactly when no batch is in
    /// flight and no cooldown is pending; any other trigger is
    /// dropped, never queued, and leaves the guard as it was.
    pub fn submit(&mut self, _req: &KillRequest) -> (r: TriggerDecision)
        ensures
            (final(self).state(), r) == spec_submit(old(self).state()),
    {
        match self.state {
            GuardState::Idle => {
                self.state = GuardState::Active;
                TriggerDecision::Admitted
            },
            _ => TriggerDecision::GuardRejected,
        }
    }

    /// The in-flight batch has produced all its outcomes: enter the
    /// cooldown during which refresh stays suppressed.
    pub fn finish_batch(&mut self)
        requires
            old(self).state() == GuardState::Active,
        ensures
            final(self).state() == GuardState::Cooldown,
    {
        self.state = GuardState::Cooldown;
    }

    /// The cooldown has elapsed: the guard returns to idle. Elsewhere
    /// this changes nothing.
    pub fn cooldown_elapsed(&mut self)
        ensures
            old(self).state() == GuardState::Cooldown ==> final(self).state() == GuardState::Idle,
            old(self).state() != GuardState::Cooldown ==> final(self).state() == old(self).state(),
    {
        match self.state {
            GuardState::Cooldown => {
                self.state = GuardState::Idle;
            },
            _ => {},
        }
    }

    /// May the UI rebuild its structural menu right now? Only when
    /// nothing is in flight and no cooldown is pending, so that menu
    /// positions never reference processes being torn down.
    pub fn refresh_allowed(&self) -> (r: bool)
        ensures
            r == (self.state() == GuardState::Idle),
    {
        match self.state {
            GuardState::Idle => true,
            _ => false,
        }
    }
}

/// Law of the concurrency guard: of two triggers handed in while no
/// batch has finished in between, the first is admitted and the
/// second is dropped with `GuardRejected`, leaving the guard exactly
/// as the first trigger left it. The rejected trigger therefore
/// starts no session and duplicates no outcome for a pid the first
/// batch already targets.
pub proof fn lemma_guard_serializes(s0: GuardState)
    requires
        s0 == GuardState::Idle,
    ensures
        ({
            let first = spec_submit(s0);
            let second = spec_submit(first.0);
            first.1 == TriggerDecision::Admitted && second.1 == TriggerDecision::GuardRejected
                && second.0 == first.0
        }),
{
}

} // verus!
