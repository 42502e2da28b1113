//! The watch loop as a state machine. The caller captures the pane, waits,
//! sends keys and writes files; the loop is told what came of it, and answers
//! what to do next.
//!
//! One step begins with a capture and ends with `Finish`. In between, where a
//! rule wants to answer a prompt, the loop asks for a fresh capture and then
//! for the keys to be sent.
use crate::auto_respond;
use crate::auto_respond::{AutoRespondDecision, AutoResponder};
use crate::changelog::ChangelogEntry;
use crate::classifier;
use crate::classifier::CompiledPatterns;
use crate::rolling_context::RollingContextAccumulator;
use crate::state_machine::SettleMachine;
use crate::text;
use crate::text_diff;
use crate::types;
use crate::types::{
    AutoRespondConfig, DecisionEvent, DecisionReason, EventView, PaneState, PollPhase,
    WatchDecideConfig,
};
use crate::watch_laws;
use crate::watch_state::{
    ActionView, InputView, LoopState, OutputView, ReadingsView, RecordView, StageView,
};
use vstd::prelude::*;
use vstd::string::StringExecFns;

verus! {

/// What a watch loop is made of.
pub struct WatchLoopDeps {
    pub session: String,
    pub patterns: CompiledPatterns,
    pub config: WatchDecideConfig,
    pub auto_respond_config: AutoRespondConfig,
    /// The path of the raw log of this session, if one is kept.
    pub log_path: Option<String>,
}

/// What a step came to: when to poll again, and what to tell the decide loop.
pub struct WatchStepResult {
    pub interval_ms: u64,
    pub event: Option<DecisionEvent>,
}

/// What the caller reports.
pub enum StepInput {
    /// The pane was captured.
    Captured { content: String },
    /// The pane could not be captured.
    CaptureFailed { message: String },
    /// The wait is over and the pane was captured once more, if it could be.
    Rechecked { fresh: Option<String> },
    /// The keys were sent.
    KeysSent,
    /// The keys could not be sent.
    KeysFailed,
}

/// What the caller does next.
pub enum StepAction {
    /// Wait, capture the pane once more and report it.
    Recheck { wait_ms: u64 },
    /// Send the keys and report whether that went well.
    SendKeys { keys: Vec<String> },
    /// The step is over.
    Finish { result: WatchStepResult },
}

/// An entry for the changelog, with its heading.
pub struct ChangelogRecord {
    pub entry: ChangelogEntry,
    pub timestamp: String,
    pub notify_telegram: bool,
}

/// What is to be written, and what is to be done next.
pub struct StepOutput {
    /// Text to append to the raw log.
    pub log_text: Option<String>,
    pub changelog: Option<ChangelogRecord>,
    /// A line for the error output.
    pub notice: Option<String>,
    pub action: StepAction,
}

/// What was read from the pane and the patterns before a step is taken.
pub struct Readings {
    /// The lines that the capture added.
    pub added_lines: Vec<String>,
    /// What the settled delta is recognised as.
    pub state: PaneState,
    /// Which rules hit the settled delta.
    pub hits: Vec<bool>,
    /// Which rules the rolling summary allows.
    pub allowed: Vec<bool>,
    /// Whether the rule still hits the pane.
    pub still_hits: bool,
    /// What the lines that are left are recognised as when a check-in is due.
    pub timeout_state: PaneState,
}

/// Where in a step the loop stands.
enum Stage {
    Idle,
    Rechecking { rule_index: usize, keys: Vec<String> },
    Sending { rule_index: usize, keys: Vec<String> },
}

/// Watch loop without any call of a language model. It compares captures by
/// content, recognises only the new delta, and runs it through the settle and
/// backoff machine. A `DecisionEvent` is made only on a settled transition, on
/// a check-in after the safety timeout, when captures keep failing, and when a
/// prompt was answered.
pub struct WatchLoop {
    session: String,
    patterns: CompiledPatterns,
    config: WatchDecideConfig,
    log_path: Option<String>,
    full_log_path: String,
    machine: SettleMachine,
    rolling_context: RollingContextAccumulator,
    prev_content: Option<String>,
    pending_delta_lines: Vec<String>,
    consecutive_capture_failures: u64,
    ms_since_last_event: u64,
    last_interval_ms: u64,
    auto_responder: AutoResponder,
    auto_respond_error: Option<String>,
    stage: Stage,
}

impl View for Stage {
    type V = StageView;

    closed spec fn view(&self) -> StageView {
        match self {
            Stage::Idle => StageView::Idle,
            Stage::Rechecking { rule_index, keys } => StageView::Rechecking {
                rule_index: *rule_index as int,
                keys: text::views(keys@),
            },
            Stage::Sending { rule_index, keys } => StageView::Sending {
                rule_index: *rule_index as int,
                keys: text::views(keys@),
            },
        }
    }
}

impl View for StepInput {
    type V = InputView;

    open spec fn view(&self) -> InputView {
        match self {
            StepInput::Captured { content } => InputView::Captured { content: content@ },
            StepInput::CaptureFailed { message } => InputView::CaptureFailed { message: message@ },
            StepInput::Rechecked { fresh } => InputView::Rechecked {
                fresh: text::option_view(*fresh),
            },
            StepInput::KeysSent => InputView::KeysSent,
            StepInput::KeysFailed => InputView::KeysFailed,
        }
    }
}

/// The event as plain text, if there is one.
pub open spec fn event_view(event: Option<DecisionEvent>) -> Option<EventView> {
    match event {
        Some(e) => Some(e@),
        None => None,
    }
}

impl View for StepAction {
    type V = ActionView;

    open spec fn view(&self) -> ActionView {
        match self {
            StepAction::Recheck { wait_ms } => ActionView::Recheck { wait_ms: *wait_ms },
            StepAction::SendKeys { keys } => ActionView::SendKeys { keys: text::views(keys@) },
            StepAction::Finish { result } => ActionView::Finish {
                interval_ms: result.interval_ms,
                event: event_view(result.event),
            },
        }
    }
}

impl View for ChangelogRecord {
    type V = RecordView;

    open spec fn view(&self) -> RecordView {
        RecordView {
            entry: self.entry@,
            timestamp: self.timestamp@,
            notify_telegram: self.notify_telegram,
        }
    }
}

impl View for StepOutput {
    type V = OutputView;

    open spec fn view(&self) -> OutputView {
        OutputView {
            log_text: text::option_view(self.log_text),
            changelog: match self.changelog {
                Some(record) => Some(record@),
                None => None,
            },
            notice: text::option_view(self.notice),
            action: self.action@,
        }
    }
}

impl View for Readings {
    type V = ReadingsView;

    open spec fn view(&self) -> ReadingsView {
        ReadingsView {
            added: text::views(self.added_lines@),
            state: self.state,
            hits: self.hits@,
            allowed: self.allowed@,
            still_hits: self.still_hits,
            timeout_state: self.timeout_state,
        }
    }
}

impl View for WatchLoop {
    type V = LoopState;

    closed spec fn view(&self) -> LoopState {
        LoopState {
            session: self.session@,
            patterns: self.patterns@,
            config: self.config,
            log_path: text::option_view(self.log_path),
            full_log_path: self.full_log_path@,
            machine: self.machine@,
            rolling: self.rolling_context@,
            prev: text::option_view(self.prev_content),
            pending: text::views(self.pending_delta_lines@),
            failures: self.consecutive_capture_failures as nat,
            ms_since_event: self.ms_since_last_event as nat,
            last_interval: self.last_interval_ms,
            responder: self.auto_responder@,
            stage: self.stage@,
        }
    }
}

/// The settings of automatic answers that are switched off.
pub open spec fn switched_off(config: AutoRespondConfig) -> auto_respond::ResponderState {
    auto_respond::ResponderState {
        enabled: false,
        lists_rules: false,
        limits: config.limits,
        notify: config.notify,
        rules: Seq::empty(),
        session_total: 0,
        last_response_ms: None,
    }
}

impl WatchLoop {
    /// The machine, the rolling context and the responder are in order.
    closed spec fn parts_wf(&self) -> bool {
        &&& self.machine.wf()
        &&& self.rolling_context.wf()
        &&& self.auto_responder.wf()
        &&& self.machine@.window_ms == self.config.settle_window_ms
    }

    /// The parts are in order and the state is valid.
    pub closed spec fn wf(&self) -> bool {
        self.parts_wf() && self@.valid()
    }

    /// A loop in order is in a valid state, so that what holds of every valid state
    /// holds of it.
    pub proof fn wf_is_valid(&self)
        requires
            self.wf(),
        ensures
            self@.valid(),
    {
    }

    /// The error for which automatic answers were switched off, if any.
    pub closed spec fn responder_error(&self) -> Option<Seq<char>> {
        text::option_view(self.auto_respond_error)
    }

    /// A loop at its start. Rules that are refused do not stop it: automatic
    /// answers are then switched off and the error is kept.
    pub fn new(deps: WatchLoopDeps) -> (r: Self)
        ensures
            r.wf(),
            r.responder_error() == auto_respond::config_error(
                types::rule_views(deps.auto_respond_config.rules@),
            ),
            r.responder_error() is Some ==> !r@.responder.enabled && r@.responder.rules.len() == 0
                && r@.responder.limits == deps.auto_respond_config.limits && r@.responder.notify
                == deps.auto_respond_config.notify,
            r.responder_error() is None ==> r@.responder == auto_respond::ResponderState::initial(
                deps.auto_respond_config,
            ),
            r@ == LoopState::initial(
                deps.session@,
                deps.patterns@,
                deps.config,
                text::option_view(deps.log_path),
                if auto_respond::config_error(
                    types::rule_views(deps.auto_respond_config.rules@),
                ) is None {
                    auto_respond::ResponderState::initial(deps.auto_respond_config)
                } else {
                    switched_off(deps.auto_respond_config)
                },
            ),
    {
        let ghost given = deps;
        let machine = SettleMachine::new(deps.config.backoff, deps.config.settle_window_ms);
        let rolling_context = RollingContextAccumulator::new(deps.config.rolling_context_every_n);
        let full_log_path = match &deps.log_path {
            Some(path) => path.clone(),
            None => text::concat3("~/.hermes/logs/tmux-", deps.session.as_str(), ".log"),
        };
        let limits = deps.auto_respond_config.limits;
        let notify = deps.auto_respond_config.notify;
        let (auto_responder, auto_respond_error) = match AutoResponder::new(
            deps.auto_respond_config,
        ) {
            Ok(responder) => (responder, None),
            Err(message) => (AutoResponder::switched_off(limits, notify), Some(message)),
        };
        let r = WatchLoop {
            session: deps.session,
            patterns: deps.patterns,
            config: deps.config,
            log_path: deps.log_path,
            full_log_path,
            machine,
            rolling_context,
            prev_content: None,
            pending_delta_lines: Vec::new(),
            consecutive_capture_failures: 0,
            ms_since_last_event: 0,
            last_interval_ms: 0,
            auto_responder,
            auto_respond_error,
            stage: Stage::Idle,
        };
        proof {
            assert(text::views(r.pending_delta_lines@) =~= Seq::empty());
        }
        r
    }

    /// The error for which automatic answers were switched off, if any.
    pub fn auto_respond_error(&self) -> (r: Option<String>)
        ensures
            text::option_view(r) == self.responder_error(),
    {
        match &self.auto_respond_error {
            Some(message) => Some(message.clone()),
            None => None,
        }
    }

    /// The lines that the capture adds.
    fn added_lines(&self, content: &str) -> (r: Vec<String>)
        ensures
            text::views(r@) == self@.added(content@),
    {
        match &self.prev_content {
            Some(prev) => text_diff::diff_lines(prev.as_str(), content).added_lines,
            None => {
                let r: Vec<String> = Vec::new();
                assert(text::views(r@) =~= Seq::empty());
                r
            },
        }
    }

    /// Whether the input belongs to the step under way and neither clock runs
    /// over.
    pub fn can_step(&self, input: &StepInput) -> (r: bool)
        requires
            self.wf(),
        ensures
            r == self@.can_step(input@),
    {
        let idle = matches!(self.stage, Stage::Idle);
        let in_range = self.ms_since_last_event <= u64::MAX - self.last_interval_ms;
        match input {
            StepInput::Captured { content } => {
                let added = self.added_lines(content.as_str());
                assert(text::views(added@).len() == added@.len());
                idle && in_range && self.machine.can_poll(added.len() > 0)
            },
            StepInput::CaptureFailed { .. } => idle && in_range,
            StepInput::Rechecked { .. } => matches!(self.stage, Stage::Rechecking { .. }),
            StepInput::KeysSent => matches!(self.stage, Stage::Sending { .. }),
            StepInput::KeysFailed => matches!(self.stage, Stage::Sending { .. }),
        }
    }

    fn recognise(&self, delta: &str) -> (r: PaneState)
        ensures
            r == self@.recognised(delta@),
    {
        classifier::classify(delta, &self.patterns).state
    }

    fn raw_log(&self, lines: &[String]) -> (r: Option<String>)
        ensures
            text::option_view(r) == self@.raw_log(text::views(lines@)),
    {
        if self.log_path.is_none() || lines.len() == 0 {
            assert(text::views(lines@).len() == lines@.len());
            return None;
        }
        let mut body = text::join(lines, "\n");
        body.append("\n");
        Some(body)
    }

    fn build_event(
        &self,
        state: PaneState,
        delta: String,
        summary: String,
        reason: DecisionReason,
        now_ms: u128,
    ) -> (r: DecisionEvent)
        ensures
            r@ == self@.event(state, delta@, summary@, reason, now_ms),
    {
        DecisionEvent {
            session: self.session.clone(),
            state,
            delta,
            summary,
            full_log_path: self.full_log_path.clone(),
            timestamp_ms: now_ms,
            reason,
        }
    }

    /// Tells the pending lines.
    fn report(&mut self, state: PaneState, reason: DecisionReason, now_ms: u128) -> (r:
        DecisionEvent)
        requires
            old(self).parts_wf(),
        ensures
            final(self).parts_wf(),
            final(self).responder_error() == old(self).responder_error(),
            final(self)@ == old(self)@.reported(state),
            r@ == old(self)@.pending_event(state, reason, now_ms),
    {
        assert(text::views(self.pending_delta_lines@).len() == self.pending_delta_lines@.len());
        let delta_text = text::join(self.pending_delta_lines.as_slice(), "\n");
        let n: usize = self.pending_delta_lines.len();
        let delta = if n == 1 {
            "+1 line desde última captura".to_owned()
        } else {
            text::concat3(
                "+",
                text::decimal_text(n as u128).as_str(),
                " lines desde última captura",
            )
        };
        let summary = self.rolling_context.record(delta_text.as_str(), state).summary;
        let event = self.build_event(state, delta, summary, reason, now_ms);
        self.pending_delta_lines = Vec::new();
        self.ms_since_last_event = 0;
        assert(self@ =~= old(self)@.reported(state));
        event
    }

    fn clear_pending(&mut self)
        requires
            old(self).parts_wf(),
        ensures
            final(self).parts_wf(),
            final(self).responder_error() == old(self).responder_error(),
            final(self)@ == old(self)@.cleared(),
    {
        self.pending_delta_lines = Vec::new();
        assert(self@ =~= old(self)@.cleared());
    }

    /// Ends the step.
    fn finish(
        &mut self,
        event: Option<DecisionEvent>,
        timeout_state: PaneState,
        now_ms: u128,
    ) -> (r: StepAction)
        requires
            old(self).parts_wf(),
        ensures
            final(self).parts_wf(),
            final(self).responder_error() == old(self).responder_error(),
            (r@, final(self)@) == old(self)@.finished(event_view(event), timeout_state, now_ms),
    {
        let told = if event.is_none() && self.ms_since_last_event
            >= self.config.safety_timeout_ms {
            Some(self.report(timeout_state, DecisionReason::SafetyTimeout, now_ms))
        } else {
            event
        };
        let interval_ms: u64 = self.machine.interval_ms();
        self.last_interval_ms = interval_ms;
        self.stage = Stage::Idle;
        StepAction::Finish { result: WatchStepResult { interval_ms, event: told } }
    }

    /// Tells the pending lines as a transition and ends the step.
    fn tell(&mut self, state: PaneState, now_ms: u128) -> (r: StepAction)
        requires
            old(self).parts_wf(),
        ensures
            final(self).parts_wf(),
            final(self).responder_error() == old(self).responder_error(),
            (r@, final(self)@) == old(self)@.told(state, now_ms),
    {
        let event = self.report(state, DecisionReason::StateTransition, now_ms);
        self.finish(Some(event), state, now_ms)
    }

    /// Reads the pane for a capture.
    #[verifier::rlimit(40)]
    fn read_capture(&self, content: &str) -> (r: Readings)
        requires
            self.wf(),
            self@.can_step(InputView::Captured { content: content@ }),
        ensures
            r@ == self@.readings(InputView::Captured { content: content@ }),
    {
        let added_lines = self.added_lines(content);
        let ghost added = text::views(added_lines@);
        let ghost taken = self@.absorbed(content@, added);
        assert(added.len() == added_lines@.len());
        let mut pending = types::copy_strings(self.pending_delta_lines.as_slice());
        let mut i: usize = 0;
        proof {
            assert(text::views(pending@) =~= self@.pending + added.take(0));
        }
        while i < added_lines.len()
            invariant
                i <= added_lines@.len(),
                added == text::views(added_lines@),
                text::views(pending@) == self@.pending + added.take(i as int),
            decreases added_lines@.len() - i,
        {
            let ghost before = text::views(pending@);
            pending.push(added_lines[i].clone());
            proof {
                assert(text::views(pending@) =~= before.push(added[i as int]));
                assert(added.take(i + 1) =~= added.take(i as int).push(added[i as int]));
                assert(before.push(added[i as int]) =~= self@.pending + added.take(i + 1));
            }
            i += 1;
        }
        proof {
            assert(added.take(i as int) =~= added);
            assert(text::views(pending@) == taken.pending);
        }
        let delta_text = text::join(pending.as_slice(), "\n");
        let settles = self.settles_with(added_lines.len() > 0);
        let state = if settles {
            self.recognise(delta_text.as_str())
        } else {
            PaneState::Working
        };
        let prompt = settles && state == PaneState::WaitingInput;
        let (hits, allowed) = if prompt {
            let summary = match self.rolling_context.peek_summary() {
                Some(summary) => summary,
                None => String::new(),
            };
            (
                self.auto_responder.rule_hits(delta_text.as_str()),
                self.auto_responder.rule_allowances(summary.as_str()),
            )
        } else {
            (Vec::new(), Vec::new())
        };
        let overdue = self.ms_since_last_event + self.last_interval_ms
            >= self.config.safety_timeout_ms;
        let timeout_state = if !overdue {
            PaneState::Working
        } else if settles {
            self.recognise("")
        } else {
            self.recognise(delta_text.as_str())
        };
        let r = Readings { added_lines, state, hits, allowed, still_hits: false, timeout_state };
        proof {
            reveal_strlit("");
            assert(""@ =~= Seq::<char>::empty());
            assert(r@ =~= self@.readings(InputView::Captured { content: content@ }));
        }
        r
    }

    /// Whether a poll that did or did not see a change settles the output.
    fn settles_with(&self, changed: bool) -> (r: bool)
        requires
            self.wf(),
            self@.machine.can_poll(changed),
        ensures
            r == (self@.machine.phase != PollPhase::Settled && self@.machine.after(changed).phase
                == PollPhase::Settled),
    {
        !changed && self.machine.phase() == PollPhase::Settling
            && self.machine.ms_since_last_change() + self.machine.interval_ms()
            >= self.config.settle_window_ms
    }

    /// What nothing is recognised as, where a check-in is due.
    fn read_blank(&self) -> (r: PaneState)
        ensures
            r == (if self@.overdue() {
                self@.recognised(Seq::empty())
            } else {
                PaneState::Working
            }),
    {
        proof {
            reveal_strlit("");
            assert(""@ =~= Seq::<char>::empty());
        }
        if self.ms_since_last_event >= self.config.safety_timeout_ms {
            self.recognise("")
        } else {
            PaneState::Working
        }
    }

    /// Reads the pane for an input.
    pub fn read(&self, input: &StepInput) -> (r: Readings)
        requires
            self.wf(),
            self@.can_step(input@),
        ensures
            r@ == self@.readings(input@),
    {
        let mut still_hits = false;
        let mut timeout_state = PaneState::Working;
        match input {
            StepInput::Captured { content } => {
                return self.read_capture(content.as_str());
            },
            StepInput::CaptureFailed { .. } => {},
            StepInput::Rechecked { fresh } => {
                if let Some(content) = fresh {
                    if let Stage::Rechecking { rule_index, .. } = &self.stage {
                        still_hits = self.auto_responder.rule_still_matches(
                            *rule_index,
                            content.as_str(),
                        );
                    }
                }
                timeout_state = self.read_blank();
            },
            StepInput::KeysSent => {
                timeout_state = self.read_blank();
            },
            StepInput::KeysFailed => {},
        }
        let r = Readings {
            added_lines: Vec::new(),
            state: PaneState::Working,
            hits: Vec::new(),
            allowed: Vec::new(),
            still_hits,
            timeout_state,
        };
        assert(r@ =~= self@.readings(input@));
        r
    }

    /// Takes in a capture.
    fn absorb(&mut self, content: String, added_lines: &Vec<String>)
        requires
            old(self).parts_wf(),
            old(self)@.ms_since_event + old(self)@.last_interval <= u64::MAX,
            old(self)@.machine.can_poll(added_lines@.len() > 0),
        ensures
            final(self).parts_wf(),
            final(self).responder_error() == old(self).responder_error(),
            final(self)@ == old(self)@.absorbed(content@, text::views(added_lines@)),
    {
        let ghost before = self@;
        let ghost added = text::views(added_lines@);
        assert(added.len() == added_lines@.len());
        let mut i: usize = 0;
        proof {
            assert(before.pending + added.take(0) =~= before.pending);
        }
        while i < added_lines.len()
            invariant
                i <= added_lines@.len(),
                added == text::views(added_lines@),
                self.parts_wf(),
                self.responder_error() == old(self).responder_error(),
                self@ == (LoopState { pending: before.pending + added.take(i as int), ..before }),
            decreases added_lines@.len() - i,
        {
            let ghost pending = text::views(self.pending_delta_lines@);
            self.pending_delta_lines.push(added_lines[i].clone());
            proof {
                assert(text::views(self.pending_delta_lines@) =~= pending.push(added[i as int]));
                assert(pending.push(added[i as int]) =~= before.pending + added.take(i + 1));
            }
            i += 1;
        }
        proof {
            assert(added.take(i as int) =~= added);
        }
        self.prev_content = Some(content);
        self.consecutive_capture_failures = 0;
        self.ms_since_last_event = self.ms_since_last_event + self.last_interval_ms;
        self.machine.on_poll(added_lines.len() > 0);
    }

    /// Goes on once the output has settled, with the changelog entry on a rule that
    /// was put to rest.
    fn settle(&mut self, readings: Readings, now_ms: u128) -> (r: (
        StepAction,
        Option<ChangelogEntry>,
    ))
        requires
            old(self).parts_wf(),
            readings.state == PaneState::WaitingInput ==> readings.hits@.len()
                == old(self)@.responder.rules.len() && readings.allowed@.len()
                == old(self)@.responder.rules.len(),
        ensures
            final(self).parts_wf(),
            final(self).responder_error() == old(self).responder_error(),
            (r.0@, final(self)@) == old(self)@.settled(readings@, now_ms),
            match r.1 {
                Some(entry) => readings.state == PaneState::WaitingInput && (old(
                    self,
                )@.responder.put_to_rest(readings@.hits, readings@.allowed, now_ms) matches Some(i)
                    && entry@ == auto_respond::suspension_entry(
                    old(self)@.responder.rules[i].rule.id,
                    old(self)@.responder.limits.max_auto_responses_per_rule_per_hour as nat,
                )),
                None => readings.state == PaneState::WaitingInput ==> old(
                    self,
                )@.responder.put_to_rest(readings@.hits, readings@.allowed, now_ms) is None,
            },
    {
        match readings.state {
            PaneState::Working => {
                self.clear_pending();
                (self.finish(None, readings.timeout_state, now_ms), None)
            },
            PaneState::WaitingInput => {
                let (decision, resting) = self.auto_responder.decide_and_note(
                    readings.hits.as_slice(),
                    readings.allowed.as_slice(),
                    now_ms,
                );
                let entry = match resting {
                    Some(rule_index) => Some(self.auto_responder.suspension(rule_index)),
                    None => None,
                };
                let action = match decision {
                    AutoRespondDecision::ShouldFire { rule_index, keys } => {
                        let wait_ms: u64 = self.auto_responder.require_stable_idle_ms();
                        self.stage = Stage::Rechecking { rule_index, keys };
                        StepAction::Recheck { wait_ms }
                    },
                    AutoRespondDecision::Disabled => self.tell(readings.state, now_ms),
                    AutoRespondDecision::NoMatch => self.tell(readings.state, now_ms),
                };
                (action, entry)
            },
            PaneState::Done => (self.tell(readings.state, now_ms), None),
            PaneState::Error => (self.tell(readings.state, now_ms), None),
        }
    }

    fn on_captured(&mut self, content: String, readings: Readings, now_ms: u128) -> (r: StepOutput)
        requires
            old(self).wf(),
            old(self)@.fits(InputView::Captured { content: content@ }, readings@),
        ensures
            final(self).parts_wf(),
            final(self).responder_error() == old(self).responder_error(),
            (r@, final(self)@) == old(self)@.after_capture(content@, readings@, now_ms),
    {
        assert(readings@.added.len() == readings.added_lines@.len());
        let log_text = self.raw_log(readings.added_lines.as_slice());
        let settles = self.settles_with(readings.added_lines.len() > 0);
        self.absorb(content, &readings.added_lines);
        let (action, suspension) = if settles {
            self.settle(readings, now_ms)
        } else {
            (self.finish(None, readings.timeout_state, now_ms), None)
        };
        let (changelog, notice) = match suspension {
            Some(entry) => {
                let notice = Some(entry.what.clone());
                if self.log_path.is_some() {
                    let timestamp = auto_respond::suspension_stamp();
                    (Some(ChangelogRecord { entry, timestamp, notify_telegram: false }), notice)
                } else {
                    (None, notice)
                }
            },
            None => (None, None),
        };
        StepOutput { log_text, changelog, notice, action }
    }

    fn on_capture_failed(&mut self, message: &str, now_ms: u128) -> (r: StepOutput)
        requires
            old(self).wf(),
            old(self)@.ms_since_event + old(self)@.last_interval <= u64::MAX,
        ensures
            final(self).parts_wf(),
            final(self).responder_error() == old(self).responder_error(),
            (r@, final(self)@) == old(self)@.after_failure(message@, now_ms),
    {
        let threshold: u64 = if self.config.max_capture_failures == 0 {
            1
        } else {
            self.config.max_capture_failures as u64
        };
        let interval_ms: u64 = self.config.backoff.settling_ms;
        let event = if self.consecutive_capture_failures + 1 == threshold {
            let failure = text::concat2("tmux capture failed: ", message);
            let event = self.build_event(
                PaneState::Error,
                failure.clone(),
                failure,
                DecisionReason::CaptureFailure,
                now_ms,
            );
            self.pending_delta_lines = Vec::new();
            self.consecutive_capture_failures = 0;
            self.ms_since_last_event = 0;
            Some(event)
        } else {
            self.consecutive_capture_failures = self.consecutive_capture_failures + 1;
            self.ms_since_last_event = self.ms_since_last_event + self.last_interval_ms;
            None
        };
        self.last_interval_ms = interval_ms;
        proof {
            assert(self@ =~= old(self)@.after_failure(message@, now_ms).1);
        }
        StepOutput {
            log_text: None,
            changelog: None,
            notice: None,
            action: StepAction::Finish { result: WatchStepResult { interval_ms, event } },
        }
    }

    fn on_rechecked(
        &mut self,
        rule_index: usize,
        keys: Vec<String>,
        readings: Readings,
        now_ms: u128,
    ) -> (r: StepOutput)
        requires
            old(self).parts_wf(),
        ensures
            final(self).parts_wf(),
            final(self).responder_error() == old(self).responder_error(),
            (r@, final(self)@) == old(self)@.after_recheck(
                rule_index as int,
                text::views(keys@),
                readings@,
                now_ms,
            ),
    {
        let action = if readings.still_hits {
            let sent = types::copy_strings(keys.as_slice());
            self.stage = Stage::Sending { rule_index, keys };
            StepAction::SendKeys { keys: sent }
        } else {
            self.clear_pending();
            self.finish(None, readings.timeout_state, now_ms)
        };
        StepOutput { log_text: None, changelog: None, notice: None, action }
    }

    #[verifier::rlimit(40)]
    fn on_keys_sent(
        &mut self,
        rule_index: usize,
        keys: Vec<String>,
        readings: Readings,
        now_ms: u128,
    ) -> (r: StepOutput)
        requires
            old(self).parts_wf(),
            old(self)@.may_answer(rule_index as int, text::views(keys@)),
        ensures
            final(self).parts_wf(),
            final(self).responder_error() == old(self).responder_error(),
            (r@, final(self)@) == old(self)@.after_keys_sent(
                rule_index as int,
                text::views(keys@),
                readings@,
                now_ms,
            ),
    {
        let ghost before = self@;
        let ghost id = before.responder.rules[rule_index as int].rule.id;
        let outcome = self.auto_responder.commit(rule_index, keys.as_slice(), now_ms);
        let rule_id = outcome.rule_id;
        let mut answer = text::concat3("rule=", rule_id.as_str(), " keys=");
        answer.append(text::join(keys.as_slice(), " ").as_str());
        let mut lines: Vec<String> = Vec::new();
        lines.push(text::concat2("[auto-respond] ", answer.as_str()));
        proof {
            assert(answer@ == LoopState::answer_text(id, text::views(keys@)));
            assert(text::views(lines@) =~= seq!["[auto-respond] "@ + answer@]);
        }
        let log_text = self.raw_log(lines.as_slice());
        let changelog = if self.log_path.is_some() {
            Some(
                ChangelogRecord {
                    entry: auto_respond::build_answer_entry(rule_id.as_str(), keys.as_slice()),
                    timestamp: auto_respond::build_answer_stamp(rule_id.as_str(), now_ms),
                    notify_telegram: self.auto_responder.telegram_on_every_auto_response(),
                },
            )
        } else {
            None
        };
        let event = if self.auto_responder.emit_event_to_decide_loop() {
            let n: usize = self.pending_delta_lines.len();
            assert(before.pending.len() == n);
            let delta = text::concat3(
                "+",
                text::decimal_text(n as u128).as_str(),
                " lines since last capture",
            );
            let summary = text::concat2("auto_responded: ", answer.as_str());
            let event = self.build_event(
                PaneState::WaitingInput,
                delta,
                summary,
                DecisionReason::AutoResponded,
                now_ms,
            );
            self.ms_since_last_event = 0;
            Some(event)
        } else {
            None
        };
        self.clear_pending();
        let action = self.finish(event, readings.timeout_state, now_ms);
        StepOutput { log_text, changelog, notice: None, action }
    }

    /// Takes one step with what was read of the pane.
    #[verifier::rlimit(40)]
    pub fn step_given(&mut self, input: StepInput, readings: Readings, now_ms: u128) -> (r:
        StepOutput)
        requires
            old(self).wf(),
            old(self)@.fits(input@, readings@),
        ensures
            final(self).wf(),
            final(self).responder_error() == old(self).responder_error(),
            (r@, final(self)@) == old(self)@.stepped_given(input@, readings@, now_ms),
    {
        proof {
            watch_laws::steps_keep_valid(self@, input@, readings@, now_ms);
        }
        match input {
            StepInput::Captured { content } => self.on_captured(content, readings, now_ms),
            StepInput::CaptureFailed { message } => self.on_capture_failed(
                message.as_str(),
                now_ms,
            ),
            StepInput::Rechecked { .. } => {
                let (rule_index, keys) = self.take_answer();
                self.on_rechecked(rule_index, keys, readings, now_ms)
            },
            StepInput::KeysSent => {
                let (rule_index, keys) = self.take_answer();
                self.on_keys_sent(rule_index, keys, readings, now_ms)
            },
            StepInput::KeysFailed => {
                let action = self.tell(PaneState::WaitingInput, now_ms);
                StepOutput { log_text: None, changelog: None, notice: None, action }
            },
        }
    }

    /// The rule and the keys of the answer under way.
    fn take_answer(&mut self) -> (r: (usize, Vec<String>))
        requires
            old(self).parts_wf(),
            !(old(self)@.stage is Idle),
        ensures
            final(self).parts_wf(),
            final(self).responder_error() == old(self).responder_error(),
            final(self)@ == (LoopState { stage: StageView::Idle, ..old(self)@ }),
            match old(self)@.stage {
                StageView::Idle => true,
                StageView::Rechecking { rule_index, keys } => rule_index == r.0 && keys
                    == text::views(r.1@),
                StageView::Sending { rule_index, keys } => rule_index == r.0 && keys
                    == text::views(r.1@),
            },
    {
        let mut stage = Stage::Idle;
        std::mem::swap(&mut stage, &mut self.stage);
        match stage {
            Stage::Idle => (0, Vec::new()),
            Stage::Rechecking { rule_index, keys } => (rule_index, keys),
            Stage::Sending { rule_index, keys } => (rule_index, keys),
        }
    }

    /// Gives up an answer under way, for a caller that could not report on it. The
    /// next capture starts a new step.
    pub fn abandon_answer(&mut self)
        requires
            old(self).wf(),
        ensures
            final(self).wf(),
            final(self).responder_error() == old(self).responder_error(),
            final(self)@ == (LoopState { stage: StageView::Idle, ..old(self)@ }),
    {
        self.stage = Stage::Idle;
    }

    /// Takes one step: reads what the input asks for and goes on from there.
    pub fn step(&mut self, input: StepInput, now_ms: u128) -> (r: StepOutput)
        requires
            old(self).wf(),
            old(self)@.can_step(input@),
        ensures
            final(self).wf(),
            final(self).responder_error() == old(self).responder_error(),
            (r@, final(self)@) == old(self)@.stepped(input@, now_ms),
    {
        let readings = self.read(&input);
        self.step_given(input, readings, now_ms)
    }
}

} // verus!
