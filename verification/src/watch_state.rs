//! The watch loop as mathematics: its state, and what each input leads to.
use crate::auto_respond;
use crate::changelog;
use crate::classifier;
use crate::rolling_context::RollingState;
use crate::state_machine::SettleState;
use crate::text;
use crate::text_diff;
use crate::types::{
    DecisionReason, EventView, PaneState, PatternSources, PollPhase, WatchDecideConfig,
};
use vstd::prelude::*;

verus! {

/// Where in a step the loop stands, as plain text.
#[verifier::ext_equal]
pub enum StageView {
    Idle,
    Rechecking { rule_index: int, keys: Seq<Seq<char>> },
    Sending { rule_index: int, keys: Seq<Seq<char>> },
}

/// An input as plain text.
#[verifier::ext_equal]
pub enum InputView {
    Captured { content: Seq<char> },
    CaptureFailed { message: Seq<char> },
    Rechecked { fresh: Option<Seq<char>> },
    KeysSent,
    KeysFailed,
}

/// An action as plain text.
#[verifier::ext_equal]
pub enum ActionView {
    Recheck { wait_ms: u64 },
    SendKeys { keys: Seq<Seq<char>> },
    Finish { interval_ms: u64, event: Option<EventView> },
}

/// A changelog record as plain text.
#[verifier::ext_equal]
pub struct RecordView {
    pub entry: changelog::EntryView,
    pub timestamp: Seq<char>,
    pub notify_telegram: bool,
}

/// An output as plain text.
#[verifier::ext_equal]
pub struct OutputView {
    pub log_text: Option<Seq<char>>,
    pub changelog: Option<RecordView>,
    pub notice: Option<Seq<char>>,
    pub action: ActionView,
}

/// Readings as plain text.
#[verifier::ext_equal]
pub struct ReadingsView {
    pub added: Seq<Seq<char>>,
    pub state: PaneState,
    pub hits: Seq<bool>,
    pub allowed: Seq<bool>,
    pub still_hits: bool,
    pub timeout_state: PaneState,
}

/// The delta of an event: how many lines came, never the lines.
pub open spec fn line_count_text(n: nat) -> Seq<char> {
    if n == 1 {
        "+1 line desde última captura"@
    } else {
        "+"@ + text::decimal(n) + " lines desde última captura"@
    }
}

/// The path that events name for the raw log.
pub open spec fn full_path(log_path: Option<Seq<char>>, session: Seq<char>) -> Seq<char> {
    match log_path {
        Some(path) => path,
        None => "~/.hermes/logs/tmux-"@ + session + ".log"@,
    }
}

/// The number of capture failures in a row that is reported, at least one.
pub open spec fn failure_threshold(config: WatchDecideConfig) -> nat {
    if config.max_capture_failures == 0 {
        1
    } else {
        config.max_capture_failures as nat
    }
}

/// The state of the loop.
#[verifier::ext_equal]
pub struct LoopState {
    pub session: Seq<char>,
    pub patterns: PatternSources,
    pub config: WatchDecideConfig,
    pub log_path: Option<Seq<char>>,
    pub full_log_path: Seq<char>,
    pub machine: SettleState,
    pub rolling: RollingState,
    pub prev: Option<Seq<char>>,
    pub pending: Seq<Seq<char>>,
    pub failures: nat,
    pub ms_since_event: nat,
    pub last_interval: u64,
    pub responder: auto_respond::ResponderState,
    pub stage: StageView,
}

impl LoopState {
    /// The state before the first step.
    pub open spec fn initial(
        session: Seq<char>,
        patterns: PatternSources,
        config: WatchDecideConfig,
        log_path: Option<Seq<char>>,
        responder: auto_respond::ResponderState,
    ) -> LoopState {
        LoopState {
            session,
            patterns,
            config,
            log_path,
            full_log_path: full_path(log_path, session),
            machine: SettleState::initial(config.backoff, config.settle_window_ms as nat),
            rolling: RollingState::initial(config.rolling_context_every_n as nat),
            prev: None,
            pending: Seq::empty(),
            failures: 0,
            ms_since_event: 0,
            last_interval: 0,
            responder,
            stage: StageView::Idle,
        }
    }

    /// The failures are below the threshold, the settle machine is in order, and
    /// an answer under way is that of a rule which the session has room for.
    pub open spec fn valid(self) -> bool {
        &&& self.failures < failure_threshold(self.config)
        &&& self.machine.valid()
        &&& match self.stage {
            StageView::Idle => true,
            StageView::Rechecking { rule_index, keys } => self.may_answer(rule_index, keys),
            StageView::Sending { rule_index, keys } => self.may_answer(rule_index, keys),
        }
    }

    /// The keys are those of the rule, and the session has room for the answer.
    pub open spec fn may_answer(self, rule_index: int, keys: Seq<Seq<char>>) -> bool {
        &&& !self.responder.off()
        &&& 0 <= rule_index < self.responder.rules.len()
        &&& keys == self.responder.rules[rule_index].rule.keys
        &&& !self.responder.spent()
        &&& self.failures == 0
    }

    /// The lines that a capture adds to the one before it. The first capture adds
    /// none.
    pub open spec fn added(self, content: Seq<char>) -> Seq<Seq<char>> {
        match self.prev {
            Some(prev) => text_diff::added(text_diff::lines(prev), text_diff::lines(content)),
            None => Seq::empty(),
        }
    }

    /// The step that the input belongs to is under way, and neither clock runs
    /// over.
    pub open spec fn can_step(self, input: InputView) -> bool {
        match input {
            InputView::Captured { content } => {
                &&& self.stage is Idle
                &&& self.ms_since_event + self.last_interval <= u64::MAX
                &&& self.machine.can_poll(self.added(content).len() > 0)
            },
            InputView::CaptureFailed { .. } => {
                &&& self.stage is Idle
                &&& self.ms_since_event + self.last_interval <= u64::MAX
            },
            InputView::Rechecked { .. } => self.stage is Rechecking,
            InputView::KeysSent => self.stage is Sending,
            InputView::KeysFailed => self.stage is Sending,
        }
    }

    /// The readings can be used for the input: the flags are one for each rule
    /// where they are needed, and the clocks do not run over.
    pub open spec fn fits(self, input: InputView, g: ReadingsView) -> bool {
        match input {
            InputView::Captured { .. } => {
                &&& self.stage is Idle
                &&& self.ms_since_event + self.last_interval <= u64::MAX
                &&& self.machine.can_poll(g.added.len() > 0)
                &&& self.settles(g.added) && g.state == PaneState::WaitingInput ==> {
                    &&& g.hits.len() == self.responder.rules.len()
                    &&& g.allowed.len() == self.responder.rules.len()
                }
            },
            _ => self.can_step(input),
        }
    }

    /// A check-in is due.
    pub open spec fn overdue(self) -> bool {
        self.ms_since_event >= self.config.safety_timeout_ms
    }

    /// The lines that no event has covered yet.
    pub open spec fn pending_text(self) -> Seq<char> {
        text::joined(self.pending, "\n"@)
    }

    /// The state with a capture taken in.
    pub open spec fn absorbed(self, content: Seq<char>, added: Seq<Seq<char>>) -> LoopState {
        LoopState {
            prev: Some(content),
            pending: self.pending + added,
            failures: 0,
            ms_since_event: self.ms_since_event + self.last_interval as nat,
            machine: self.machine.after(added.len() > 0),
            ..self
        }
    }

    /// The capture is the one with which the output settles.
    pub open spec fn settles(self, added: Seq<Seq<char>>) -> bool {
        self.machine.phase != PollPhase::Settled && self.machine.after(added.len() > 0).phase
            == PollPhase::Settled
    }

    /// The state with the pending lines dropped.
    pub open spec fn cleared(self) -> LoopState {
        LoopState { pending: Seq::empty(), ..self }
    }

    /// What is appended to the raw log, where one is kept.
    pub open spec fn raw_log(self, lines: Seq<Seq<char>>) -> Option<Seq<char>> {
        if self.log_path is Some && lines.len() > 0 {
            Some(text::joined(lines, "\n"@) + "\n"@)
        } else {
            None
        }
    }

    /// An event of this session.
    pub open spec fn event(
        self,
        state: PaneState,
        delta: Seq<char>,
        summary: Seq<char>,
        reason: DecisionReason,
        now: u128,
    ) -> EventView {
        EventView {
            session: self.session,
            state,
            delta,
            summary,
            full_log_path: self.full_log_path,
            timestamp_ms: now,
            reason,
        }
    }

    /// The event on the pending lines.
    pub open spec fn pending_event(
        self,
        state: PaneState,
        reason: DecisionReason,
        now: u128,
    ) -> EventView {
        self.event(
            state,
            line_count_text(self.pending.len()),
            self.rolling.summary_of(self.pending_text(), state),
            reason,
            now,
        )
    }

    /// The state once the pending lines were told.
    pub open spec fn reported(self, state: PaneState) -> LoopState {
        LoopState {
            rolling: self.rolling.after(self.pending_text(), state),
            pending: Seq::empty(),
            ms_since_event: 0,
            ..self
        }
    }

    /// The end of a step: where nothing was told and a check-in is due, the
    /// pending lines are told.
    pub open spec fn finished(
        self,
        event: Option<EventView>,
        timeout_state: PaneState,
        now: u128,
    ) -> (ActionView, LoopState) {
        let due = event is None && self.overdue();
        let told = if due {
            Some(self.pending_event(timeout_state, DecisionReason::SafetyTimeout, now))
        } else {
            event
        };
        let after = if due {
            self.reported(timeout_state)
        } else {
            self
        };
        (
            ActionView::Finish { interval_ms: self.machine.interval_ms(), event: told },
            LoopState {
                last_interval: self.machine.interval_ms(),
                stage: StageView::Idle,
                ..after
            },
        )
    }

    /// The end of a step with an event on the pending lines.
    pub open spec fn told(self, state: PaneState, now: u128) -> (ActionView, LoopState) {
        self.reported(state).finished(
            Some(self.pending_event(state, DecisionReason::StateTransition, now)),
            state,
            now,
        )
    }

    /// What follows once the output has settled.
    pub open spec fn settled(self, g: ReadingsView, now: u128) -> (ActionView, LoopState) {
        match g.state {
            PaneState::Working => self.cleared().finished(None, g.timeout_state, now),
            PaneState::WaitingInput => {
                let (decision, responder) = self.responder.decided(g.hits, g.allowed, now);
                let after = LoopState { responder, ..self };
                match decision {
                    auto_respond::DecisionView::ShouldFire { rule_index, keys } => (
                        ActionView::Recheck { wait_ms: responder.limits.require_stable_idle_ms },
                        LoopState { stage: StageView::Rechecking { rule_index, keys }, ..after },
                    ),
                    _ => after.told(g.state, now),
                }
            },
            _ => self.told(g.state, now),
        }
    }

    /// The changelog entry on the rule that a settled prompt puts to rest, if it
    /// does.
    pub open spec fn suspension(self, g: ReadingsView, now: u128) -> Option<changelog::EntryView> {
        if self.settles(g.added) && g.state == PaneState::WaitingInput {
            match self.responder.put_to_rest(g.hits, g.allowed, now) {
                Some(i) => Some(
                    auto_respond::suspension_entry(
                        self.responder.rules[i].rule.id,
                        self.responder.limits.max_auto_responses_per_rule_per_hour as nat,
                    ),
                ),
                None => None,
            }
        } else {
            None
        }
    }

    /// What follows a capture.
    pub open spec fn after_capture(self, content: Seq<char>, g: ReadingsView, now: u128) -> (
        OutputView,
        LoopState,
    ) {
        let taken = self.absorbed(content, g.added);
        let (action, after) = if self.settles(g.added) {
            taken.settled(g, now)
        } else {
            taken.finished(None, g.timeout_state, now)
        };
        let suspension = self.suspension(g, now);
        (
            OutputView {
                log_text: self.raw_log(g.added),
                changelog: if self.log_path is Some && suspension is Some {
                    Some(
                        RecordView {
                            entry: suspension->0,
                            timestamp: "rate-limit-suspension"@,
                            notify_telegram: false,
                        },
                    )
                } else {
                    None
                },
                notice: match suspension {
                    Some(entry) => Some(entry.what),
                    None => None,
                },
                action,
            },
            after,
        )
    }

    /// What follows a capture that failed.
    pub open spec fn after_failure(self, message: Seq<char>, now: u128) -> (OutputView, LoopState) {
        let text = "tmux capture failed: "@ + message;
        let reached = self.failures + 1 == failure_threshold(self.config);
        let event = if reached {
            Some(self.event(PaneState::Error, text, text, DecisionReason::CaptureFailure, now))
        } else {
            None
        };
        let interval_ms = self.config.backoff.settling_ms;
        let after = if reached {
            LoopState {
                pending: Seq::empty(),
                failures: 0,
                ms_since_event: 0,
                last_interval: interval_ms,
                ..self
            }
        } else {
            LoopState {
                failures: self.failures + 1,
                ms_since_event: self.ms_since_event + self.last_interval as nat,
                last_interval: interval_ms,
                ..self
            }
        };
        (
            OutputView {
                log_text: None,
                changelog: None,
                notice: None,
                action: ActionView::Finish { interval_ms, event },
            },
            after,
        )
    }

    /// What follows the fresh capture: the keys are sent to the prompt that was
    /// seen, or to none.
    pub open spec fn after_recheck(
        self,
        rule_index: int,
        keys: Seq<Seq<char>>,
        g: ReadingsView,
        now: u128,
    ) -> (OutputView, LoopState) {
        let (action, after) = if g.still_hits {
            (
                ActionView::SendKeys { keys },
                LoopState { stage: StageView::Sending { rule_index, keys }, ..self },
            )
        } else {
            self.cleared().finished(None, g.timeout_state, now)
        };
        (OutputView { log_text: None, changelog: None, notice: None, action }, after)
    }

    /// The rule and the keys of an answer.
    pub open spec fn answer_text(id: Seq<char>, keys: Seq<Seq<char>>) -> Seq<char> {
        "rule="@ + id + " keys="@ + text::joined(keys, " "@)
    }

    /// What follows once the keys were sent.
    pub open spec fn after_keys_sent(
        self,
        rule_index: int,
        keys: Seq<Seq<char>>,
        g: ReadingsView,
        now: u128,
    ) -> (OutputView, LoopState) {
        let id = self.responder.rules[rule_index].rule.id;
        let answered = LoopState { responder: self.responder.committed(rule_index, now), ..self };
        let (action, after) = if self.responder.notify.emit_event_to_decide_loop {
            LoopState { ms_since_event: 0, ..answered.cleared() }.finished(
                Some(
                    self.event(
                        PaneState::WaitingInput,
                        "+"@ + text::decimal(self.pending.len()) + " lines since last capture"@,
                        "auto_responded: "@ + Self::answer_text(id, keys),
                        DecisionReason::AutoResponded,
                        now,
                    ),
                ),
                g.timeout_state,
                now,
            )
        } else {
            answered.cleared().finished(None, g.timeout_state, now)
        };
        (
            OutputView {
                log_text: self.raw_log(seq!["[auto-respond] "@ + Self::answer_text(id, keys)]),
                changelog: if self.log_path is Some {
                    Some(
                        RecordView {
                            entry: auto_respond::answer_entry(id, keys),
                            timestamp: auto_respond::answer_stamp(id, now),
                            notify_telegram: self.responder.notify.telegram_on_every_auto_response,
                        },
                    )
                } else {
                    None
                },
                notice: None,
                action,
            },
            after,
        )
    }

    /// What an input leads to, given what was read of the pane.
    pub open spec fn stepped_given(self, input: InputView, g: ReadingsView, now: u128) -> (
        OutputView,
        LoopState,
    ) {
        match input {
            InputView::Captured { content } => self.after_capture(content, g, now),
            InputView::CaptureFailed { message } => self.after_failure(message, now),
            InputView::Rechecked { .. } => self.after_recheck(
                self.stage->Rechecking_rule_index,
                self.stage->Rechecking_keys,
                g,
                now,
            ),
            InputView::KeysSent => self.after_keys_sent(
                self.stage->Sending_rule_index,
                self.stage->Sending_keys,
                g,
                now,
            ),
            InputView::KeysFailed => {
                let (action, after) = self.told(PaneState::WaitingInput, now);
                (OutputView { log_text: None, changelog: None, notice: None, action }, after)
            },
        }
    }

    /// What the text is recognised as.
    pub open spec fn recognised(self, delta: Seq<char>) -> PaneState {
        classifier::classified(self.patterns, delta).0
    }

    /// The summary that the context of a rule is held against.
    pub open spec fn current_summary(self) -> Seq<char> {
        match self.rolling.last_summary {
            Some(summary) => summary,
            None => Seq::empty(),
        }
    }

    /// What is read of the pane for an input: only the new delta, and only once
    /// it has settled or a check-in is due.
    pub open spec fn readings(self, input: InputView) -> ReadingsView {
        let blank = ReadingsView {
            added: Seq::empty(),
            state: PaneState::Working,
            hits: Seq::empty(),
            allowed: Seq::empty(),
            still_hits: false,
            timeout_state: PaneState::Working,
        };
        match input {
            InputView::Captured { content } => {
                let added = self.added(content);
                let taken = self.absorbed(content, added);
                let settles = self.settles(added);
                let state = if settles {
                    self.recognised(taken.pending_text())
                } else {
                    PaneState::Working
                };
                let prompt = settles && state == PaneState::WaitingInput;
                ReadingsView {
                    added,
                    state,
                    hits: if prompt {
                        self.responder.hits(taken.pending_text())
                    } else {
                        Seq::empty()
                    },
                    allowed: if prompt {
                        self.responder.allowances(self.current_summary())
                    } else {
                        Seq::empty()
                    },
                    still_hits: false,
                    timeout_state: if !taken.overdue() {
                        PaneState::Working
                    } else if settles {
                        self.recognised(Seq::empty())
                    } else {
                        self.recognised(taken.pending_text())
                    },
                }
            },
            InputView::CaptureFailed { .. } => blank,
            InputView::Rechecked { fresh } => ReadingsView {
                still_hits: match fresh {
                    Some(content) => self.stage matches StageView::Rechecking { rule_index, .. }
                        && 0 <= rule_index < self.responder.rules.len() && auto_respond::hits(
                        self.responder.rules[rule_index].rule,
                        content,
                    ),
                    None => false,
                },
                timeout_state: if self.overdue() {
                    self.recognised(Seq::empty())
                } else {
                    PaneState::Working
                },
                ..blank
            },
            InputView::KeysSent => ReadingsView {
                timeout_state: if self.overdue() {
                    self.recognised(Seq::empty())
                } else {
                    PaneState::Working
                },
                ..blank
            },
            InputView::KeysFailed => blank,
        }
    }

    /// What an input leads to.
    pub open spec fn stepped(self, input: InputView, now: u128) -> (OutputView, LoopState) {
        self.stepped_given(input, self.readings(input), now)
    }
}

} // verus!
