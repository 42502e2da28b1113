//! The values that the watch loop, its configuration and its callers exchange.
use crate::text;
use vstd::prelude::*;

verus! {

/// What the watched pane is doing.
#[derive(Debug, Clone, Copy, PartialEq, Eq, Structural)]
pub enum PaneState {
    Working,
    WaitingInput,
    Done,
    Error,
}

impl PaneState {
    /// The name under which the state is written.
    pub open spec fn name(self) -> Seq<char> {
        match self {
            PaneState::Working => "working"@,
            PaneState::WaitingInput => "waiting_input"@,
            PaneState::Done => "done"@,
            PaneState::Error => "error"@,
        }
    }

    pub fn as_str(&self) -> (r: &'static str)
        ensures
            r@ == self.name(),
            r@ == match *self {
                PaneState::Working => "working"@,
                PaneState::WaitingInput => "waiting_input"@,
                PaneState::Done => "done"@,
                PaneState::Error => "error"@,
            },
    {
        match self {
            PaneState::Working => "working",
            PaneState::WaitingInput => "waiting_input",
            PaneState::Done => "done",
            PaneState::Error => "error",
        }
    }
}

/// How eagerly the pane is polled.
#[derive(Debug, Clone, Copy, PartialEq, Eq, Structural)]
pub enum PollPhase {
    Working,
    Settling,
    Settled,
}

/// The sources of the patterns that tell the states apart.
#[derive(Debug, Clone, PartialEq)]
pub struct PatternConfig {
    pub error: Vec<String>,
    pub waiting_input: Vec<String>,
    pub done: Vec<String>,
    pub working: Vec<String>,
}

/// Four lists of pattern sources, one for each state.
#[verifier::ext_equal]
pub struct PatternSources {
    pub error: Seq<Seq<char>>,
    pub waiting_input: Seq<Seq<char>>,
    pub done: Seq<Seq<char>>,
    pub working: Seq<Seq<char>>,
}

impl View for PatternConfig {
    type V = PatternSources;

    open spec fn view(&self) -> PatternSources {
        PatternSources {
            error: text::views(self.error@),
            waiting_input: text::views(self.waiting_input@),
            done: text::views(self.done@),
            working: text::views(self.working@),
        }
    }
}

impl Default for PatternConfig {
    fn default() -> (r: Self)
        ensures
            r.error@.len() == 0,
            r.waiting_input@.len() == 0,
            r.done@.len() == 0,
            r.working@.len() == 0,
    {
        PatternConfig {
            error: Vec::new(),
            waiting_input: Vec::new(),
            done: Vec::new(),
            working: Vec::new(),
        }
    }
}

/// The poll interval of each phase.
#[derive(Debug, Clone, Copy, PartialEq, Eq, Structural)]
pub struct BackoffConfig {
    pub working_ms: u64,
    pub settling_ms: u64,
    pub settled_ms: u64,
}

/// How large the raw log may grow and how many rotated files are kept.
#[derive(Debug, Clone, Copy, PartialEq, Eq, Structural)]
pub struct LogRotationConfig {
    pub max_bytes: u64,
    pub max_files: u32,
}

/// How many crashes within a sliding window trip the breaker.
#[derive(Debug, Clone, Copy, PartialEq, Eq, Structural)]
pub struct CircuitBreakerConfig {
    pub max_crashes: u32,
    pub window_ms: u64,
}

/// Every threshold of the watch loop.
#[derive(Debug, Clone, Copy, PartialEq, Eq, Structural)]
pub struct WatchDecideConfig {
    pub settle_window_ms: u64,
    pub backoff: BackoffConfig,
    pub max_capture_failures: u32,
    pub rolling_context_every_n: u32,
    pub log_rotation: LogRotationConfig,
    pub safety_timeout_ms: u64,
    pub circuit_breaker: CircuitBreakerConfig,
    pub telegram_notify_on_auto_improve: bool,
}

/// The number of capture failures in a row that is reported where the
/// configuration names none.
pub fn default_max_capture_failures() -> (r: u32)
    ensures
        r == 3,
{
    3
}

/// What a delta was recognised as, and by which pattern.
#[derive(Debug, Clone)]
pub struct ClassificationResult {
    pub state: PaneState,
    pub matched_pattern: Option<String>,
}

/// The difference between two snapshots of the pane.
#[derive(Debug, Clone)]
pub struct DeltaResult {
    /// New lines added since the previous snapshot (never the full buffer).
    pub added_lines: Vec<String>,
    pub changed: bool,
}

/// Why a decision event was made.
#[derive(Debug, Clone, Copy, PartialEq, Eq, Structural)]
pub enum DecisionReason {
    StateTransition,
    SafetyTimeout,
    CaptureFailure,
    /// The loop answered a `waiting_input` prompt itself. The `summary` of the
    /// event names the rule and the keys.
    AutoResponded,
}

/// How much a rule needs before it may answer.
#[derive(Debug, Clone, Copy, PartialEq, Eq, Structural)]
pub enum RuleRisk {
    /// Fires when `match_pattern` hits the delta.
    Safe,
    /// Fires when `match_pattern` hits the delta and one of
    /// `requires_context_allow` hits the rolling summary.
    Confirm,
}

/// One rule of the automatic answers.
#[derive(Debug)]
pub struct AutoRespondRule {
    pub id: String,
    /// Pattern applied to the settled delta, in multiline mode.
    pub match_pattern: String,
    /// Key names, each its own argument of the send command.
    pub keys: Vec<String>,
    pub risk: RuleRisk,
    /// For `Confirm` rules: at least one must match the rolling summary.
    pub requires_context_allow: Vec<String>,
    pub enabled: bool,
}

/// A rule as plain text.
#[verifier::ext_equal]
pub struct RuleView {
    pub id: Seq<char>,
    pub match_pattern: Seq<char>,
    pub keys: Seq<Seq<char>>,
    pub risk: RuleRisk,
    pub requires_context_allow: Seq<Seq<char>>,
    pub enabled: bool,
}

impl View for AutoRespondRule {
    type V = RuleView;

    open spec fn view(&self) -> RuleView {
        RuleView {
            id: self.id@,
            match_pattern: self.match_pattern@,
            keys: text::views(self.keys@),
            risk: self.risk,
            requires_context_allow: text::views(self.requires_context_allow@),
            enabled: self.enabled,
        }
    }
}

impl Clone for AutoRespondRule {
    fn clone(&self) -> (r: Self)
        ensures
            r@ == self@,
    {
        AutoRespondRule {
            id: self.id.clone(),
            match_pattern: self.match_pattern.clone(),
            keys: copy_strings(self.keys.as_slice()),
            risk: self.risk,
            requires_context_allow: copy_strings(self.requires_context_allow.as_slice()),
            enabled: self.enabled,
        }
    }
}

/// A vector with the same strings.
pub fn copy_strings(items: &[String]) -> (r: Vec<String>)
    ensures
        r@ == items@,
{
    let mut r: Vec<String> = Vec::new();
    let mut i: usize = 0;
    while i < items.len()
        invariant
            i <= items@.len(),
            r@ == items@.take(i as int),
        decreases items@.len() - i,
    {
        r.push(items[i].clone());
        proof {
            assert(items@.take(i + 1) =~= items@.take(i as int).push(items@[i as int]));
        }
        i += 1;
    }
    proof {
        assert(items@.take(i as int) =~= items@);
    }
    r
}

/// A rule is enabled where the configuration does not say.
pub fn default_true() -> (r: bool)
    ensures
        r,
{
    true
}

/// What bounds the automatic answers.
#[derive(Debug, Clone, Copy, PartialEq, Eq, Structural)]
pub struct AutoRespondLimits {
    pub max_auto_responses_per_session: usize,
    pub max_auto_responses_per_rule_per_hour: usize,
    pub cooldown_ms_after_response: u128,
    pub require_stable_idle_ms: u64,
}

/// Who hears of an automatic answer.
#[derive(Debug, Clone, Copy, PartialEq, Eq, Structural)]
pub struct AutoRespondNotify {
    pub telegram_on_every_auto_response: bool,
    pub emit_event_to_decide_loop: bool,
}

/// The automatic answers of one profile.
#[derive(Debug, Clone)]
pub struct AutoRespondConfig {
    pub enabled: bool,
    pub rules: Vec<AutoRespondRule>,
    pub limits: AutoRespondLimits,
    pub notify: AutoRespondNotify,
}

/// The rules of a configuration as plain text.
pub open spec fn rule_views(rules: Seq<AutoRespondRule>) -> Seq<RuleView> {
    rules.map_values(|r: AutoRespondRule| r@)
}

/// What the decide loop is told: bounded, never the transcript.
#[derive(Debug, Clone)]
pub struct DecisionEvent {
    pub session: String,
    pub state: PaneState,
    pub delta: String,
    pub summary: String,
    pub full_log_path: String,
    pub timestamp_ms: u128,
    pub reason: DecisionReason,
}

/// An event as plain text.
#[verifier::ext_equal]
pub struct EventView {
    pub session: Seq<char>,
    pub state: PaneState,
    pub delta: Seq<char>,
    pub summary: Seq<char>,
    pub full_log_path: Seq<char>,
    pub timestamp_ms: u128,
    pub reason: DecisionReason,
}

impl View for DecisionEvent {
    type V = EventView;

    open spec fn view(&self) -> EventView {
        EventView {
            session: self.session@,
            state: self.state,
            delta: self.delta@,
            summary: self.summary@,
            full_log_path: self.full_log_path@,
            timestamp_ms: self.timestamp_ms,
            reason: self.reason,
        }
    }
}

} // verus!
