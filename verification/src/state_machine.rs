//! The settle/backoff state machine that paces the polling.
use crate::types::{BackoffConfig, PollPhase};
use vstd::prelude::*;

verus! {

/// Explicit settle/backoff state machine.
///
/// - working:  no suspected transition, cruise at the long interval.
/// - settling: output just changed (or keeps changing); poll fast until it
///             stops moving for the settle window.
/// - settled:  output stopped moving; one confirmation tick, then back to
///             working if the pause was a normal mid-task lull.
pub struct SettleMachine {
    backoff: BackoffConfig,
    settle_window_ms: u64,
    phase: PollPhase,
    ms_since_last_change: u64,
    interval_ms: u64,
}

/// The state of the machine: its settings, its phase, and how long the output
/// has been quiet while settling.
#[verifier::ext_equal]
pub struct SettleState {
    pub backoff: BackoffConfig,
    pub window_ms: nat,
    pub phase: PollPhase,
    pub quiet_ms: nat,
}

/// The poll interval of a phase.
pub open spec fn interval_of(backoff: BackoffConfig, phase: PollPhase) -> u64 {
    match phase {
        PollPhase::Working => backoff.working_ms,
        PollPhase::Settling => backoff.settling_ms,
        PollPhase::Settled => backoff.settled_ms,
    }
}

impl SettleState {
    /// The state before the first poll.
    pub open spec fn initial(backoff: BackoffConfig, window_ms: nat) -> SettleState {
        SettleState { backoff, window_ms, phase: PollPhase::Working, quiet_ms: 0 }
    }

    /// The time until the next poll.
    pub open spec fn interval_ms(self) -> u64 {
        interval_of(self.backoff, self.phase)
    }

    /// The state after a poll that did or did not see a change.
    pub open spec fn after(self, changed: bool) -> SettleState {
        if changed {
            SettleState { phase: PollPhase::Settling, quiet_ms: 0, ..self }
        } else {
            match self.phase {
                PollPhase::Working => self,
                PollPhase::Settling => {
                    let quiet_ms = self.quiet_ms + self.interval_ms() as nat;
                    if quiet_ms >= self.window_ms {
                        SettleState { phase: PollPhase::Settled, quiet_ms, ..self }
                    } else {
                        SettleState { quiet_ms, ..self }
                    }
                },
                PollPhase::Settled => SettleState {
                    phase: PollPhase::Working,
                    quiet_ms: 0,
                    ..self
                },
            }
        }
    }

    /// The state after a run of polls that saw no change.
    pub open spec fn after_quiet(self, polls: nat) -> SettleState
        decreases polls,
    {
        if polls == 0 {
            self
        } else {
            self.after_quiet((polls - 1) as nat).after(false)
        }
    }

    /// The quiet time that the next poll reaches can be counted.
    pub open spec fn can_poll(self, changed: bool) -> bool {
        !changed && self.phase == PollPhase::Settling ==> self.quiet_ms + self.interval_ms()
            <= u64::MAX
    }

    /// Outside of settling no quiet time is under way, and while settling the
    /// window is not yet over.
    pub open spec fn valid(self) -> bool {
        match self.phase {
            PollPhase::Working => self.quiet_ms == 0,
            PollPhase::Settling => self.quiet_ms == 0 || self.quiet_ms < self.window_ms,
            PollPhase::Settled => self.quiet_ms >= self.window_ms,
        }
    }
}

impl View for SettleMachine {
    type V = SettleState;

    closed spec fn view(&self) -> SettleState {
        SettleState {
            backoff: self.backoff,
            window_ms: self.settle_window_ms as nat,
            phase: self.phase,
            quiet_ms: self.ms_since_last_change as nat,
        }
    }
}

impl SettleMachine {
    /// The stored interval is that of the phase, and the state is valid.
    pub closed spec fn wf(&self) -> bool {
        self.interval_ms == interval_of(self.backoff, self.phase) && self@.valid()
    }

    /// A machine in order is in a valid state, so that what holds of every valid
    /// state holds of it.
    pub proof fn wf_is_valid(&self)
        requires
            self.wf(),
        ensures
            self@.valid(),
    {
    }

    pub fn new(backoff: BackoffConfig, settle_window_ms: u64) -> (r: Self)
        ensures
            r.wf(),
            r@ == SettleState::initial(backoff, settle_window_ms as nat),
    {
        let phase = PollPhase::Working;
        let interval_ms: u64 = interval_for(&backoff, phase);
        SettleMachine { backoff, settle_window_ms, phase, ms_since_last_change: 0, interval_ms }
    }

    pub fn phase(&self) -> (r: PollPhase)
        ensures
            r == self@.phase,
    {
        self.phase
    }

    pub fn interval_ms(&self) -> (r: u64)
        requires
            self.wf(),
        ensures
            r == self@.interval_ms(),
    {
        self.interval_ms
    }

    pub fn ms_since_last_change(&self) -> (r: u64)
        ensures
            r == self@.quiet_ms,
    {
        self.ms_since_last_change
    }

    /// Whether a poll can be counted without running over the clock's range.
    pub fn can_poll(&self, changed: bool) -> (r: bool)
        requires
            self.wf(),
        ensures
            r == self@.can_poll(changed),
    {
        changed || self.phase != PollPhase::Settling || self.ms_since_last_change <= u64::MAX
            - self.interval_ms
    }

    /// Advances by one poll tick. `changed` reports whether the captured content
    /// differed from the previous capture.
    pub fn on_poll(&mut self, changed: bool)
        requires
            old(self).wf(),
            old(self)@.can_poll(changed),
        ensures
            final(self).wf(),
            final(self)@ == old(self)@.after(changed),
    {
        if changed {
            self.phase = PollPhase::Settling;
            self.ms_since_last_change = 0;
        } else {
            match self.phase {
                PollPhase::Working => {},
                PollPhase::Settling => {
                    self.ms_since_last_change = self.ms_since_last_change + self.interval_ms;
                    if self.ms_since_last_change >= self.settle_window_ms {
                        self.phase = PollPhase::Settled;
                    }
                },
                PollPhase::Settled => {
                    self.phase = PollPhase::Working;
                    self.ms_since_last_change = 0;
                },
            }
        }
        self.interval_ms = interval_for(&self.backoff, self.phase);
    }
}

fn interval_for(backoff: &BackoffConfig, phase: PollPhase) -> (r: u64)
    ensures
        r == interval_of(*backoff, phase),
{
    match phase {
        PollPhase::Working => backoff.working_ms,
        PollPhase::Settling => backoff.settling_ms,
        PollPhase::Settled => backoff.settled_ms,
    }
}

/// A change drops every phase to settling at once and restarts the quiet time.
pub proof fn change_restarts_settling(s: SettleState)
    ensures
        s.after(true).phase == PollPhase::Settling,
        s.after(true).quiet_ms == 0,
        s.after(true).interval_ms() == s.backoff.settling_ms,
{
}

/// `Settled` is entered only from settling, by a quiet poll that completes the
/// settle window.
pub proof fn settled_only_after_the_window(s: SettleState, changed: bool)
    ensures
        s.after(changed).phase == PollPhase::Settled <==> !changed && s.phase
            == PollPhase::Settling && s.quiet_ms + s.backoff.settling_ms >= s.window_ms,
{
}

/// After a change, quiet polls keep settling while they have not filled the
/// window, the poll that fills it settles, and the one after that is back at
/// work.
pub proof fn quiet_polls_after_a_change(s: SettleState, polls: nat)
    requires
        s.phase == PollPhase::Settling,
        s.quiet_ms == 0,
    ensures
        polls == 0 || polls * s.backoff.settling_ms < s.window_ms ==> s.after_quiet(polls).phase
            == PollPhase::Settling && s.after_quiet(polls).quiet_ms == polls
            * s.backoff.settling_ms,
        polls > 0 && (polls == 1 || (polls - 1) * s.backoff.settling_ms < s.window_ms) && polls
            * s.backoff.settling_ms >= s.window_ms ==> s.after_quiet(polls).phase
            == PollPhase::Settled && s.after_quiet(polls + 1).phase == PollPhase::Working,
        s.after_quiet(polls).backoff == s.backoff,
        s.after_quiet(polls).window_ms == s.window_ms,
    decreases polls,
{
    if polls > 0 {
        let before = (polls - 1) as nat;
        quiet_polls_after_a_change(s, before);
        let step = s.backoff.settling_ms;
        assert(polls * step == before * step + step) by (nonlinear_arith)
            requires
                polls == before + 1,
        ;
        assert(s.after_quiet(polls) == s.after_quiet(before).after(false));
        assert(s.after_quiet(polls + 1) == s.after_quiet(polls).after(false));
    }
}

/// While nothing changes a working machine stays at the long interval.
pub proof fn quiet_working_stays_working(s: SettleState, polls: nat)
    requires
        s.phase == PollPhase::Working,
    ensures
        s.after_quiet(polls) == s,
    decreases polls,
{
    if polls > 0 {
        quiet_working_stays_working(s, (polls - 1) as nat);
    }
}

/// Every poll keeps the state valid, and a window that leaves room for one more
/// settling interval is never run over.
pub proof fn polls_keep_valid(s: SettleState, changed: bool)
    requires
        s.valid(),
    ensures
        s.after(changed).valid(),
        s.window_ms + s.backoff.settling_ms <= u64::MAX ==> s.can_poll(changed),
{
}

/// A machine starts at work with no quiet time, and polls at the interval of its
/// phase: the long one at work, the short one while settling, and the one to confirm
/// once settled.
pub proof fn intervals_go_with_the_phase(s: SettleState, backoff: BackoffConfig, window_ms: nat)
    ensures
        s.phase == PollPhase::Working ==> s.interval_ms() == s.backoff.working_ms,
        s.phase == PollPhase::Settling ==> s.interval_ms() == s.backoff.settling_ms,
        s.phase == PollPhase::Settled ==> s.interval_ms() == s.backoff.settled_ms,
        SettleState::initial(backoff, window_ms).phase == PollPhase::Working,
        SettleState::initial(backoff, window_ms).quiet_ms == 0,
        SettleState::initial(backoff, window_ms).backoff == backoff,
        SettleState::initial(backoff, window_ms).window_ms == window_ms,
{
}

/// A quiet poll leaves work as it is, lets the quiet time of a settling pane grow by
/// one short interval, and sends a settled pane back to work; no poll changes the
/// settings.
pub proof fn quiet_polls_step_by_step(s: SettleState, changed: bool)
    ensures
        s.after(changed).backoff == s.backoff,
        s.after(changed).window_ms == s.window_ms,
        s.phase == PollPhase::Working ==> s.after(false).phase == PollPhase::Working,
        s.phase == PollPhase::Settling ==> s.after(false).quiet_ms == s.quiet_ms
            + s.backoff.settling_ms,
        s.phase == PollPhase::Settling && s.quiet_ms + s.backoff.settling_ms < s.window_ms
            ==> s.after(false).phase == PollPhase::Settling,
        s.phase == PollPhase::Settling && s.quiet_ms + s.backoff.settling_ms >= s.window_ms
            ==> s.after(false).phase == PollPhase::Settled,
        s.phase == PollPhase::Settled ==> s.after(false).phase == PollPhase::Working && s.after(
            false,
        ).quiet_ms == 0,
{
}

} // verus!
