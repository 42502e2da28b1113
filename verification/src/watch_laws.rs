//! What holds of the watch loop as a whole.
use crate::auto_respond;
use crate::auto_respond_laws;
use crate::auto_respond_laws::Attempt;
use crate::rolling_context;
use crate::text;
use crate::types::{DecisionReason, PaneState, PatternSources, PollPhase, WatchDecideConfig};
use crate::watch_state;
use crate::watch_state::{
    ActionView, InputView, LoopState, OutputView, ReadingsView, RecordView, StageView,
};
use vstd::prelude::*;

verus! {

/// Every step keeps the state valid.
pub proof fn steps_keep_valid(s: LoopState, input: InputView, g: ReadingsView, now: u128)
    requires
        s.valid(),
        s.fits(input, g),
    ensures
        s.stepped_given(input, g, now).1.valid(),
{
    if let InputView::Captured { .. } = input {
        auto_respond_laws::firing_is_justified(s.responder, g.hits, g.allowed, now);
    }
}

/// Every event has its cause: a transition is told only once the output has
/// settled on something other than work, or when the keys of an answer could not
/// be sent; a check-in only when the safety timeout has passed; a failure when
/// the captures failed as often in a row as the threshold says; an answer only
/// when its keys were sent.
pub proof fn events_have_their_cause(
    s: LoopState,
    input: InputView,
    g: ReadingsView,
    now: u128,
)
    requires
        s.fits(input, g),
    ensures
        s.stepped_given(input, g, now).0.action matches ActionView::Finish {
            event: Some(e),
            ..
        } ==> match e.reason {
            DecisionReason::StateTransition => {
                ||| input is Captured && s.settles(g.added) && g.state != PaneState::Working
                    && e.state == g.state
                ||| input is KeysFailed && e.state == PaneState::WaitingInput
            },
            DecisionReason::SafetyTimeout => if input is Captured {
                s.ms_since_event + s.last_interval >= s.config.safety_timeout_ms
            } else {
                s.ms_since_event >= s.config.safety_timeout_ms
            },
            DecisionReason::CaptureFailure => input is CaptureFailed && s.failures + 1
                == watch_state::failure_threshold(s.config) && e.state == PaneState::Error,
            DecisionReason::AutoResponded => input is KeysSent && e.state
                == PaneState::WaitingInput,
        },
{
}

/// No decision point is passed over: output that settles on a finished task or an
/// error is told at once, and so is a prompt unless a rule takes it on.
pub proof fn settled_transitions_are_told(
    s: LoopState,
    content: Seq<char>,
    g: ReadingsView,
    now: u128,
)
    requires
        s.fits(InputView::Captured { content }, g),
        s.settles(g.added),
        g.state != PaneState::Working,
    ensures
        match s.stepped_given(InputView::Captured { content }, g, now).0.action {
            ActionView::Finish { event, .. } => event == Some(
                s.absorbed(content, g.added).pending_event(
                    g.state,
                    DecisionReason::StateTransition,
                    now,
                ),
            ),
            ActionView::Recheck { .. } => g.state == PaneState::WaitingInput
                && s.responder.decided(g.hits, g.allowed, now).0 is ShouldFire,
            ActionView::SendKeys { .. } => false,
        },
{
}

/// What the loop does about a prompt is one attempt of the responder, sent when
/// the keys were sent and else not; so the limits that hold of every row of
/// attempts hold of the loop.
pub proof fn prompt_is_one_attempt(
    s: LoopState,
    content: Seq<char>,
    g: ReadingsView,
    now: u128,
    rechecked: InputView,
    fresh: ReadingsView,
    rechecked_at: u128,
    last: ReadingsView,
    sent_at: u128,
)
    requires
        s.fits(InputView::Captured { content }, g),
        s.settles(g.added),
        g.state == PaneState::WaitingInput,
        rechecked is Rechecked,
    ensures
        ({
            let attempt = Attempt { hits: g.hits, allowed: g.allowed, now, sent_at: None };
            let sent = Attempt { sent_at: Some(sent_at), ..attempt };
            let (first, seen) = s.stepped_given(InputView::Captured { content }, g, now);
            let (second, checked) = seen.stepped_given(rechecked, fresh, rechecked_at);
            &&& first.action is Finish ==> seen.responder == s.responder.after_attempt(attempt)
            &&& first.action is Recheck && second.action is Finish ==> checked.responder
                == s.responder.after_attempt(attempt)
            &&& first.action is Recheck && second.action is SendKeys ==> {
                &&& checked.stepped_given(InputView::KeysSent, last, sent_at).1.responder
                    == s.responder.after_attempt(sent)
                &&& checked.stepped_given(InputView::KeysFailed, last, sent_at).1.responder
                    == s.responder.after_attempt(attempt)
            }
        }),
{
    auto_respond_laws::firing_is_justified(s.responder, g.hits, g.allowed, now);
}

/// The decide loop is never woken for a transition to work.
pub proof fn work_is_no_transition(s: LoopState, input: InputView, g: ReadingsView, now: u128)
    requires
        s.fits(input, g),
    ensures
        s.stepped_given(input, g, now).0.action matches ActionView::Finish {
            event: Some(e),
            ..
        } ==> e.reason == DecisionReason::StateTransition ==> e.state != PaneState::Working,
{
}

/// An event closes the book: nothing is pending after it and the time to the
/// next check-in starts anew.
pub proof fn events_close_the_book(s: LoopState, input: InputView, g: ReadingsView, now: u128)
    requires
        s.fits(input, g),
    ensures
        s.stepped_given(input, g, now).0.action matches ActionView::Finish {
            event: Some(_),
            ..
        } ==> {
            let after = s.stepped_given(input, g, now).1;
            after.pending.len() == 0 && after.ms_since_event == 0
        },
{
}

/// The loop never waits past the safety timeout: a step that ends without an
/// event, other than by a failed capture, ends before the timeout has passed.
pub proof fn check_ins_are_never_missed(s: LoopState, input: InputView, g: ReadingsView, now: u128)
    requires
        s.fits(input, g),
        !(input is CaptureFailed),
    ensures
        s.stepped_given(input, g, now).0.action matches ActionView::Finish {
            event: None,
            ..
        } ==> s.stepped_given(input, g, now).1.ms_since_event < s.config.safety_timeout_ms,
{
}

/// A pane that shows nothing new while the loop cruises wakes nobody and is
/// polled at the long interval.
pub proof fn quiet_pane_is_silent(s: LoopState, content: Seq<char>, g: ReadingsView, now: u128)
    requires
        s.fits(InputView::Captured { content }, g),
        g.added.len() == 0,
        s.machine.phase == PollPhase::Working,
        s.ms_since_event + s.last_interval < s.config.safety_timeout_ms,
    ensures
        s.stepped_given(InputView::Captured { content }, g, now).0.action == (ActionView::Finish {
            interval_ms: s.machine.backoff.working_ms,
            event: None,
        }),
{
}

/// A lull in the middle of the work wakes nobody: where the settled delta is
/// recognised as work and no check-in is due, no event is made, and the next
/// quiet capture is followed by the long interval.
pub proof fn lull_is_silent(
    s: LoopState,
    content: Seq<char>,
    g: ReadingsView,
    now: u128,
    next: Seq<char>,
    next_g: ReadingsView,
    later: u128,
)
    requires
        s.fits(InputView::Captured { content }, g),
        s.settles(g.added),
        g.state == PaneState::Working,
        s.ms_since_event + s.last_interval + s.machine.backoff.settled_ms
            < s.config.safety_timeout_ms,
        next_g.added.len() == 0,
    ensures
        ({
            let (output, after) = s.stepped_given(InputView::Captured { content }, g, now);
            &&& output.action matches ActionView::Finish { event: None, .. }
            &&& after.pending.len() == 0
            &&& after.stepped_given(
                InputView::Captured { content: next },
                next_g,
                later,
            ).0.action == (ActionView::Finish {
                interval_ms: s.machine.backoff.working_ms,
                event: None,
            })
        }),
{
}

/// Switched off or without rules, automatic answers change nothing: a capture always ends its
/// step, and a settled prompt is told as a transition.
pub proof fn switched_off_answers_nothing(
    s: LoopState,
    content: Seq<char>,
    g: ReadingsView,
    now: u128,
)
    requires
        s.fits(InputView::Captured { content }, g),
        s.responder.off(),
    ensures
        s.stepped_given(InputView::Captured { content }, g, now).0.action is Finish,
        s.stepped_given(InputView::Captured { content }, g, now).1.responder == s.responder,
        s.settles(g.added) && g.state == PaneState::WaitingInput ==> (s.stepped_given(
            InputView::Captured { content },
            g,
            now,
        ).0.action matches ActionView::Finish { event: Some(e), .. } && e.reason
            == DecisionReason::StateTransition && e.state == PaneState::WaitingInput),
{
}

/// Keys are sent only for a rule that still hits a fresh capture of the pane, and
/// they are the keys of that rule. A fresh capture is asked for only when a
/// settled prompt is answered by a rule.
pub proof fn keys_follow_a_recheck(s: LoopState, input: InputView, now: u128)
    requires
        s.valid(),
        s.can_step(input),
    ensures
        s.stepped(input, now).0.action matches ActionView::SendKeys { keys } ==> {
            &&& s.stage matches StageView::Rechecking { rule_index, .. }
            &&& input matches InputView::Rechecked { fresh: Some(content) }
            &&& auto_respond::hits(s.responder.rules[rule_index].rule, content)
            &&& keys == s.responder.rules[rule_index].rule.keys
        },
        s.stepped(input, now).0.action is Recheck ==> {
            &&& input matches InputView::Captured { content }
            &&& s.settles(s.added(content))
            &&& s.recognised(text::joined(s.pending + s.added(content), "\n"@))
                == PaneState::WaitingInput
            &&& !s.responder.off()
        },
{
}

/// Where a prompt is gone by the time of the fresh capture, nothing is sent and
/// nothing is told, unless a check-in is due.
pub proof fn gone_prompt_is_left_alone(s: LoopState, input: InputView, g: ReadingsView, now: u128)
    requires
        input is Rechecked,
        s.fits(input, g),
        !g.still_hits,
        !s.overdue(),
    ensures
        s.stepped_given(input, g, now).0.action == (ActionView::Finish {
            interval_ms: s.machine.interval_ms(),
            event: None,
        }),
        s.stepped_given(input, g, now).1.responder == s.responder,
{
}

/// The answers of a session stay within its limit.
pub proof fn answers_stay_within_the_limit(
    s: LoopState,
    input: InputView,
    g: ReadingsView,
    now: u128,
)
    requires
        s.valid(),
        s.fits(input, g),
        s.responder.session_total <= s.responder.limits.max_auto_responses_per_session,
    ensures
        ({
            let after = s.stepped_given(input, g, now).1.responder;
            &&& after.limits == s.responder.limits
            &&& after.session_total <= after.limits.max_auto_responses_per_session
            &&& after.session_total > s.responder.session_total ==> input is KeysSent
        }),
{
}

/// A rule that is put to rest is written up, where a log is kept, and announced;
/// nothing else makes a capture write to the changelog.
pub proof fn suspensions_are_written_up(
    s: LoopState,
    content: Seq<char>,
    g: ReadingsView,
    now: u128,
    i: int,
)
    requires
        s.fits(InputView::Captured { content }, g),
        0 <= i < s.responder.rules.len(),
        !s.responder.rules[i].suspended,
    ensures
        ({
            let (output, after) = s.stepped_given(InputView::Captured { content }, g, now);
            let entry = auto_respond::suspension_entry(
                s.responder.rules[i].rule.id,
                s.responder.limits.max_auto_responses_per_rule_per_hour as nat,
            );
            &&& after.responder.rules[i].suspended ==> {
                &&& output.notice == Some(entry.what)
                &&& s.log_path is Some ==> output.changelog == Some(
                    RecordView {
                        entry,
                        timestamp: "rate-limit-suspension"@,
                        notify_telegram: false,
                    },
                )
            }
            &&& after.responder == s.responder ==> output.notice is None && output.changelog is None
        }),
{
    let flags = s.responder.eligible_rules(g.hits, g.allowed);
    auto_respond_laws::first_set_is_first(flags, 0);
    if let Some(k) = s.responder.put_to_rest(g.hits, g.allowed, now) {
        assert(flags[k]);
        assert(!s.responder.rules[k].suspended);
        assert(s.responder.decided(g.hits, g.allowed, now).1.rules[k].suspended);
    }
}

/// Every line that a capture adds goes to the raw log, where one is kept.
pub proof fn added_lines_are_logged(s: LoopState, content: Seq<char>, g: ReadingsView, now: u128)
    requires
        s.log_path is Some,
        g.added.len() > 0,
    ensures
        s.stepped_given(InputView::Captured { content }, g, now).0.log_text == Some(
            text::joined(g.added, "\n"@) + "\n"@,
        ),
{
}

impl LoopState {
    /// The state after a row of failed captures.
    pub open spec fn after_failures(self, n: nat, message: Seq<char>, now: u128) -> LoopState
        decreases n,
    {
        if n == 0 {
            self
        } else {
            self.after_failures((n - 1) as nat, message, now).after_failure(message, now).1
        }
    }
}

/// Captures that keep failing are told exactly at every threshold, and a
/// successful capture starts the count anew.
pub proof fn failures_are_told_at_the_threshold(
    s: LoopState,
    n: nat,
    message: Seq<char>,
    now: u128,
)
    requires
        s.failures == 0,
    ensures
        s.after_failures(n, message, now).failures == n % watch_state::failure_threshold(s.config),
        s.after_failures(n, message, now).config == s.config,
        s.after_failures(n, message, now).after_failure(message, now).0.action
            matches ActionView::Finish { event, .. } && (event is Some <==> (n + 1)
            % watch_state::failure_threshold(s.config) == 0),
        forall|content: Seq<char>, g: ReadingsView|
            (#[trigger] s.after_failures(n, message, now).after_capture(content, g, now)).1.failures
                == 0,
    decreases n,
{
    let threshold = watch_state::failure_threshold(s.config) as int;
    if n > 0 {
        failures_are_told_at_the_threshold(s, (n - 1) as nat, message, now);
        rolling_context::one_more(n - 1, threshold);
    }
    rolling_context::one_more(n as int, threshold);
}

impl LoopState {
    /// No interval is longer than `longest`, and the time since the last event
    /// exceeds the safety timeout by no more than the failed captures account
    /// for.
    pub open spec fn paced(self, longest: nat) -> bool {
        &&& self.machine.backoff == self.config.backoff
        &&& self.machine.window_ms == self.config.settle_window_ms
        &&& self.config.backoff.working_ms <= longest
        &&& self.config.backoff.settling_ms <= longest
        &&& self.config.backoff.settled_ms <= longest
        &&& self.last_interval <= longest
        &&& self.ms_since_event <= self.config.safety_timeout_ms + (if self.stage is Idle {
            self.failures
        } else {
            watch_state::failure_threshold(self.config)
        }) * longest
    }
}

/// The clocks have room for the safety timeout, a run of failures and the settle
/// window.
pub open spec fn roomy(config: WatchDecideConfig, longest: nat) -> bool {
    &&& config.safety_timeout_ms + watch_state::failure_threshold(config) * longest <= u64::MAX
    &&& config.settle_window_ms + config.backoff.settling_ms <= u64::MAX
}

/// With settings that leave the clocks room, every input that belongs to the
/// step under way can be taken, from the first step on.
pub proof fn clocks_never_run_over(
    s: LoopState,
    input: InputView,
    g: ReadingsView,
    now: u128,
    longest: nat,
)
    requires
        s.valid(),
        s.paced(longest),
        roomy(s.config, longest),
    ensures
        s.stage is Idle ==> s.ms_since_event + s.last_interval <= u64::MAX,
        forall|changed: bool| s.machine.can_poll(changed),
        s.fits(input, g) ==> s.stepped_given(input, g, now).1.paced(longest),
{
    let threshold = watch_state::failure_threshold(s.config);
    assert(s.failures * longest + longest == (s.failures + 1) * longest) by (nonlinear_arith);
    assert((s.failures + 1) * longest <= threshold * longest) by (nonlinear_arith)
        requires
            s.failures + 1 <= threshold,
    ;
    assert(0 * longest == 0);
    assert(s.failures * longest >= 0) by (nonlinear_arith);
    assert(threshold * longest >= 0) by (nonlinear_arith);
}

/// A loop starts valid and paced.
pub proof fn start_is_valid(
    session: Seq<char>,
    patterns: PatternSources,
    config: WatchDecideConfig,
    log_path: Option<Seq<char>>,
    responder: auto_respond::ResponderState,
    longest: nat,
)
    requires
        config.backoff.working_ms <= longest,
        config.backoff.settling_ms <= longest,
        config.backoff.settled_ms <= longest,
    ensures
        LoopState::initial(session, patterns, config, log_path, responder).valid(),
        LoopState::initial(session, patterns, config, log_path, responder).paced(longest),
{
}

/// An event tells how many lines came, never the lines themselves.
pub proof fn deltas_tell_only_the_count(s: LoopState, input: InputView, g: ReadingsView, now: u128)
    requires
        s.fits(input, g),
    ensures
        s.stepped_given(input, g, now).0.action matches ActionView::Finish {
            event: Some(e),
            ..
        } ==> match e.reason {
            DecisionReason::StateTransition => exists|n: nat|
                e.delta == #[trigger] watch_state::line_count_text(n),
            DecisionReason::SafetyTimeout => exists|n: nat|
                e.delta == #[trigger] watch_state::line_count_text(n),
            DecisionReason::CaptureFailure => input matches InputView::CaptureFailed { message }
                && e.delta == "tmux capture failed: "@ + message,
            DecisionReason::AutoResponded => e.delta == "+"@ + text::decimal(s.pending.len())
                + " lines since last capture"@,
        },
{
    if let InputView::Captured { content } = input {
        let taken = s.absorbed(content, g.added);
        let n = watch_state::line_count_text(taken.pending.len());
        let none = watch_state::line_count_text(0);
        assert(taken.cleared().pending.len() == 0);
    } else {
        let n = watch_state::line_count_text(s.pending.len());
        let none = watch_state::line_count_text(0);
        assert(s.cleared().pending.len() == 0);
    }
}

/// One capture with what was read of it, and when.
#[verifier::ext_equal]
pub struct Poll {
    pub content: Seq<char>,
    pub readings: ReadingsView,
    pub now: u128,
}

impl LoopState {
    /// What follows a poll.
    pub open spec fn polled(self, poll: Poll) -> (OutputView, LoopState) {
        self.stepped_given(InputView::Captured { content: poll.content }, poll.readings, poll.now)
    }

    /// The state after a row of polls.
    pub open spec fn after_polls(self, polls: Seq<Poll>) -> LoopState
        decreases polls.len(),
    {
        if polls.len() == 0 {
            self
        } else {
            self.after_polls(polls.drop_last()).polled(polls.last()).1
        }
    }

    /// Every poll of the row can be taken and ends its step without an event.
    pub open spec fn silent(self, polls: Seq<Poll>) -> bool
        decreases polls.len(),
    {
        polls.len() > 0 ==> {
            let before = self.after_polls(polls.drop_last());
            let poll = polls.last();
            &&& self.silent(polls.drop_last())
            &&& before.fits(InputView::Captured { content: poll.content }, poll.readings)
            &&& before.polled(poll).0.action matches ActionView::Finish { event: None, .. }
        }
    }
}

/// The decide loop always hears again: a row of polls without an event is over
/// before the safety timeout has passed, each poll counting for at least the
/// shortest interval.
pub proof fn silence_ends_before_the_timeout(s: LoopState, polls: Seq<Poll>, shortest: nat)
    requires
        s.silent(polls),
        polls.len() > 0,
        shortest <= s.last_interval,
        shortest <= s.machine.backoff.working_ms,
        shortest <= s.machine.backoff.settling_ms,
        shortest <= s.machine.backoff.settled_ms,
    ensures
        s.ms_since_event + polls.len() * shortest < s.config.safety_timeout_ms,
{
    silence_is_counted(s, polls, shortest);
}

/// The time since the last event grows by at least the shortest interval with
/// each silent poll.
proof fn silence_is_counted(s: LoopState, polls: Seq<Poll>, shortest: nat)
    requires
        s.silent(polls),
        shortest <= s.last_interval,
        shortest <= s.machine.backoff.working_ms,
        shortest <= s.machine.backoff.settling_ms,
        shortest <= s.machine.backoff.settled_ms,
    ensures
        ({
            let after = s.after_polls(polls);
            &&& after.ms_since_event >= s.ms_since_event + polls.len() * shortest
            &&& shortest <= after.last_interval
            &&& after.machine.backoff == s.machine.backoff
            &&& after.config == s.config
            &&& polls.len() > 0 ==> after.ms_since_event < s.config.safety_timeout_ms
        }),
    decreases polls.len(),
{
    if polls.len() > 0 {
        let front = polls.drop_last();
        silence_is_counted(s, front, shortest);
        assert(polls.len() * shortest == front.len() * shortest + shortest) by (nonlinear_arith)
            requires
                polls.len() == front.len() + 1,
        ;
    } else {
        assert(0 * shortest == 0);
    }
}

} // verus!
