//! What the watch command does after each step of the loop: where an event goes,
//! when the command ends, and when crashes stop it.
use crate::changelog;
use crate::changelog::ChangelogEntry;
use crate::circuit_breaker;
use crate::circuit_breaker::{BreakerState, CircuitBreaker};
use crate::text;
use crate::types::CircuitBreakerConfig;
use vstd::prelude::*;
use vstd::string::StringExecFns;

verus! {

/// Where the line of an event goes.
#[derive(Debug, Clone, Copy, PartialEq, Eq, Structural)]
pub enum EventSink {
    /// To the decide loop, which reads one line for each decision point.
    DecideLoop,
    /// To the file of the dry run and the error output.
    DryRunLog,
}

/// How the command goes on.
#[derive(Debug, Clone, Copy, PartialEq, Eq, Structural)]
pub enum Next {
    Exit { code: i32 },
    Sleep { ms: u64 },
}

/// What follows a step that went through.
#[derive(Debug, Clone, Copy, PartialEq, Eq, Structural)]
pub struct AfterStep {
    pub sink: Option<EventSink>,
    pub next: Next,
}

/// What follows a crash.
pub struct AfterCrash {
    pub crashes_in_window: usize,
    /// The incident that is announced where the breaker has tripped.
    pub incident: Option<ChangelogEntry>,
    pub next: Next,
}

/// The switches of the watch command and the count of its crashes.
pub struct Supervisor {
    session: String,
    profile: String,
    dry_run: bool,
    once: bool,
    working_ms: u64,
    breaker: CircuitBreaker,
}

/// The state of a supervisor.
#[verifier::ext_equal]
pub struct SupervisorState {
    pub session: Seq<char>,
    pub profile: Seq<char>,
    pub dry_run: bool,
    pub once: bool,
    pub working_ms: u64,
    pub breaker: BreakerState,
}

impl View for Supervisor {
    type V = SupervisorState;

    closed spec fn view(&self) -> SupervisorState {
        SupervisorState {
            session: self.session@,
            profile: self.profile@,
            dry_run: self.dry_run,
            once: self.once,
            working_ms: self.working_ms,
            breaker: self.breaker@,
        }
    }
}

/// The incident that is announced when the breaker trips.
pub open spec fn incident(
    session: Seq<char>,
    profile: Seq<char>,
    crashes: nat,
) -> changelog::EntryView {
    changelog::EntryView {
        what: "tmux-watch circuit breaker tripped for session "@ + session + " (profile "@ + profile
            + ")"@,
        why: text::decimal(crashes) + " crashes within the configured window"@,
        how_to_replicate: "n/a — this is an incident notification, not a pattern change"@,
    }
}

impl SupervisorState {
    /// What follows a step: an event goes to its sink, and ends the command that
    /// was asked for one only; else the loop sleeps for the interval.
    pub open spec fn after_step(self, has_event: bool, interval_ms: u64) -> AfterStep {
        AfterStep {
            sink: if !has_event {
                None
            } else if self.dry_run {
                Some(EventSink::DryRunLog)
            } else {
                Some(EventSink::DecideLoop)
            },
            next: if has_event && self.once {
                Next::Exit { code: 0 }
            } else {
                Next::Sleep { ms: interval_ms }
            },
        }
    }

    /// The state after a crash.
    pub open spec fn after_crash(self, now: u128) -> SupervisorState {
        SupervisorState { breaker: self.breaker.after_crash(now), ..self }
    }

    /// How the command goes on after a crash: it ends where the breaker has
    /// tripped, else it backs off for the long interval.
    pub open spec fn next_after_crash(self, now: u128) -> Next {
        if self.breaker.after_crash(now).tripped {
            Next::Exit { code: 1 }
        } else {
            Next::Sleep { ms: self.working_ms }
        }
    }

    /// The state after a row of crashes.
    pub open spec fn after_crashes(self, times: Seq<u128>) -> SupervisorState {
        SupervisorState { breaker: self.breaker.after_crashes(times), ..self }
    }
}

impl Supervisor {
    pub fn new(
        session: &str,
        profile: &str,
        dry_run: bool,
        once: bool,
        working_ms: u64,
        breaker: CircuitBreakerConfig,
    ) -> (r: Self)
        ensures
            r@ == (SupervisorState {
                session: session@,
                profile: profile@,
                dry_run,
                once,
                working_ms,
                breaker: BreakerState::initial(breaker),
            }),
    {
        Supervisor {
            session: session.to_owned(),
            profile: profile.to_owned(),
            dry_run,
            once,
            working_ms,
            breaker: CircuitBreaker::new(breaker),
        }
    }

    /// Goes on after a step that went through.
    pub fn on_step(&self, has_event: bool, interval_ms: u64) -> (r: AfterStep)
        ensures
            r == self@.after_step(has_event, interval_ms),
    {
        let sink = if !has_event {
            None
        } else if self.dry_run {
            Some(EventSink::DryRunLog)
        } else {
            Some(EventSink::DecideLoop)
        };
        let next = if has_event && self.once {
            Next::Exit { code: 0 }
        } else {
            Next::Sleep { ms: interval_ms }
        };
        AfterStep { sink, next }
    }

    /// Counts a crash. Only unexpected panics come here; a capture that fails is
    /// told as an event.
    pub fn on_crash(&mut self, now_ms: u128) -> (r: AfterCrash)
        ensures
            final(self)@ == old(self)@.after_crash(now_ms),
            r.crashes_in_window == final(self)@.breaker.crashes.len(),
            r.next == old(self)@.next_after_crash(now_ms),
            match r.incident {
                Some(entry) => final(self)@.breaker.tripped && entry@ == incident(
                    old(self)@.session,
                    old(self)@.profile,
                    final(self)@.breaker.crashes.len(),
                ),
                None => !final(self)@.breaker.tripped,
            },
            r.incident matches Some(entry) ==> {
                &&& entry@.what == "tmux-watch circuit breaker tripped for session "@ + old(
                    self,
                )@.session + " (profile "@ + old(self)@.profile + ")"@
                &&& entry@.why == text::decimal(r.crashes_in_window as nat)
                    + " crashes within the configured window"@
                &&& entry@.how_to_replicate
                    == "n/a — this is an incident notification, not a pattern change"@
            },
    {
        let crash = self.breaker.record_crash(now_ms);
        let crashes_in_window: usize = crash.crashes_in_window;
        if crash.tripped {
            let mut what = text::concat3(
                "tmux-watch circuit breaker tripped for session ",
                self.session.as_str(),
                " (profile ",
            );
            what.append(self.profile.as_str());
            what.append(")");
            let entry = ChangelogEntry {
                what,
                why: text::concat2(
                    text::decimal_text(crashes_in_window as u128).as_str(),
                    " crashes within the configured window",
                ),
                how_to_replicate:
                    "n/a — this is an incident notification, not a pattern change".to_owned(),
            };
            AfterCrash {
                crashes_in_window,
                incident: Some(entry),
                next: Next::Exit { code: 1 },
            }
        } else {
            AfterCrash {
                crashes_in_window,
                incident: None,
                next: Next::Sleep { ms: self.working_ms },
            }
        }
    }
}

/// A dry run tells the decide loop nothing, and a real run writes nothing to the
/// file of the dry run; without an event nothing is told at all.
pub proof fn dry_run_stays_apart(s: SupervisorState, has_event: bool, interval_ms: u64)
    ensures
        s.after_step(has_event, interval_ms).sink == Some(EventSink::DecideLoop) <==> has_event
            && !s.dry_run,
        s.after_step(has_event, interval_ms).sink == Some(EventSink::DryRunLog) <==> has_event
            && s.dry_run,
{
}

/// The command ends well exactly on the first event of a run that asked for one.
pub proof fn once_ends_on_an_event(s: SupervisorState, has_event: bool, interval_ms: u64)
    ensures
        s.after_step(has_event, interval_ms).next == (Next::Exit { code: 0 }) <==> has_event
            && s.once,
        !(has_event && s.once) ==> s.after_step(has_event, interval_ms).next == (Next::Sleep {
            ms: interval_ms,
        }),
{
}

/// A crash stops the command exactly when there have been as many as the limit in
/// the window of that crash or of an earlier one.
pub proof fn crashes_stop_at_the_limit(
    s: SupervisorState,
    config: CircuitBreakerConfig,
    times: Seq<u128>,
    now: u128,
)
    requires
        s.breaker == BreakerState::initial(config),
        circuit_breaker::in_order(times.push(now)),
    ensures
        s.after_crashes(times).next_after_crash(now) == (Next::Exit { code: 1 })
            <==> circuit_breaker::crowded(times.push(now), config),
{
    let all = times.push(now);
    assert(all.drop_last() =~= times);
    circuit_breaker::trips_at_the_limit(config, all);
}

/// A crash either ends the command with an error, which is where the breaker has
/// tripped, or is slept off for the long interval; it changes nothing but the count.
pub proof fn crashes_are_slept_off_or_end_it(s: SupervisorState, now: u128)
    ensures
        s.after_crash(now).breaker.tripped ==> s.next_after_crash(now) == (Next::Exit { code: 1 }),
        !s.after_crash(now).breaker.tripped ==> s.next_after_crash(now) == (Next::Sleep {
            ms: s.working_ms,
        }),
        s.after_crash(now).session == s.session,
        s.after_crash(now).profile == s.profile,
        s.after_crash(now).dry_run == s.dry_run,
        s.after_crash(now).once == s.once,
        s.after_crash(now).working_ms == s.working_ms,
        s.after_crash(now).breaker == s.breaker.after_crash(now),
{
}

} // verus!
