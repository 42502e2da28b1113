//! What one step of the watch loop does, said of the lines of the pane, of what is
//! found in them, and of the event that is told.
use crate::auto_respond;
use crate::auto_respond_laws;
use crate::classifier;
use crate::pattern;
use crate::state_machine;
use crate::text;
use crate::text_diff;
use crate::types::{
    DecisionReason, EventView, PaneState, PatternSources, PollPhase, RuleRisk, WatchDecideConfig,
};
use crate::watch_state::{ActionView, InputView, LoopState, StageView};
use vstd::prelude::*;

verus! {

/// A loop starts with nothing seen, nothing pending, nothing counted and no answer
/// under way, and names the raw log in its events, or where it would lie.
pub proof fn loops_start_blank(
    session: Seq<char>,
    patterns: PatternSources,
    config: WatchDecideConfig,
    log_path: Option<Seq<char>>,
    responder: auto_respond::ResponderState,
)
    ensures
        ({
            let s = LoopState::initial(session, patterns, config, log_path, responder);
            &&& s.session == session
            &&& s.patterns == patterns
            &&& s.config == config
            &&& s.log_path == log_path
            &&& s.full_log_path == match log_path {
                Some(path) => path,
                None => "~/.hermes/logs/tmux-"@ + session + ".log"@,
            }
            &&& s.machine.phase == PollPhase::Working
            &&& s.machine.quiet_ms == 0
            &&& s.machine.backoff == config.backoff
            &&& s.machine.window_ms == config.settle_window_ms
            &&& s.rolling.every_n == config.rolling_context_every_n
            &&& s.rolling.window.len() == 0
            &&& s.rolling.last_summary is None
            &&& s.prev is None
            &&& s.pending.len() == 0
            &&& s.failures == 0
            &&& s.ms_since_event == 0
            &&& s.last_interval == 0
            &&& s.responder == responder
            &&& s.stage is Idle
        }),
{
}

/// A capture is compared with the one before it; the lines it adds go to the raw log
/// at once, and behind the lines that wait already. Where the output does not settle
/// with it and no check-in is due, nothing is told, nothing is dropped, and the next
/// poll comes soon while the output moves and after the long interval where it does
/// not.
pub proof fn lines_wait_until_they_settle(s: LoopState, content: Seq<char>, now: u128)
    requires
        s.can_step(InputView::Captured { content }),
    ensures
        ({
            let added = match s.prev {
                Some(prev) => text_diff::added(text_diff::lines(prev), text_diff::lines(content)),
                None => Seq::empty(),
            };
            let settles = s.machine.phase == PollPhase::Settling && added.len() == 0
                && s.machine.quiet_ms + s.machine.backoff.settling_ms >= s.machine.window_ms;
            let due = s.ms_since_event + s.last_interval >= s.config.safety_timeout_ms;
            let (output, after) = s.stepped(InputView::Captured { content }, now);
            &&& after.prev == Some(content)
            &&& after.failures == 0
            &&& settles <==> s.machine.phase != PollPhase::Settled && after.machine.phase
                == PollPhase::Settled
            &&& after.machine == s.machine.after(added.len() > 0)
            &&& added.len() > 0 ==> after.machine.phase == PollPhase::Settling
                && after.machine.quiet_ms == 0
            &&& output.log_text == if s.log_path is Some && added.len() > 0 {
                Some(text::joined(added, "\n"@) + "\n"@)
            } else {
                None
            }
            &&& !settles && !due ==> {
                &&& after.pending == s.pending + added
                &&& output.action == (ActionView::Finish {
                    interval_ms: if added.len() > 0 || s.machine.phase == PollPhase::Settling {
                        s.machine.backoff.settling_ms
                    } else {
                        s.machine.backoff.working_ms
                    },
                    event: None,
                })
                &&& after.rolling == s.rolling
                &&& after.responder == s.responder
                &&& after.stage is Idle
                &&& after.ms_since_event == s.ms_since_event + s.last_interval
                &&& output.changelog is None && output.notice is None
            }
        }),
{
    state_machine::settled_only_after_the_window(s.machine, s.added(content).len() > 0);
}

/// One capture, and when it was made.
#[verifier::ext_equal]
pub struct Capture {
    pub content: Seq<char>,
    pub now: u128,
}

/// The lines that a row of captures adds, each to the one before it, end to end.
pub open spec fn lines_added(prev: Option<Seq<char>>, row: Seq<Capture>) -> Seq<Seq<char>>
    decreases row.len(),
{
    if row.len() == 0 {
        Seq::empty()
    } else {
        let before = if row.len() == 1 {
            prev
        } else {
            Some(row[row.len() - 2].content)
        };
        lines_added(prev, row.drop_last()) + match before {
            Some(shown) => text_diff::added(
                text_diff::lines(shown),
                text_diff::lines(row.last().content),
            ),
            None => Seq::empty(),
        }
    }
}

impl LoopState {
    /// The state after a row of captures.
    pub open spec fn after_captures(self, row: Seq<Capture>) -> LoopState
        decreases row.len(),
    {
        if row.len() == 0 {
            self
        } else {
            self.after_captures(row.drop_last()).stepped(
                InputView::Captured { content: row.last().content },
                row.last().now,
            ).1
        }
    }

    /// Every capture of the row can be taken, ends its step without an event, and
    /// does not find the output settled.
    pub open spec fn undecided(self, row: Seq<Capture>) -> bool
        decreases row.len(),
    {
        row.len() > 0 ==> {
            let before = self.after_captures(row.drop_last());
            let input = InputView::Captured { content: row.last().content };
            let (output, after) = before.stepped(input, row.last().now);
            &&& self.undecided(row.drop_last())
            &&& before.can_step(input)
            &&& output.action matches ActionView::Finish { event: None, .. }
            &&& before.machine.phase == PollPhase::Settled || after.machine.phase
                != PollPhase::Settled
        }
    }
}

/// Over any row of captures that leads to no decision, the lines that wait are those
/// that waited before and all that the captures added, in order; what was told
/// before stays as it was.
pub proof fn waiting_lines_are_all_that_came(s: LoopState, row: Seq<Capture>)
    requires
        s.undecided(row),
    ensures
        s.after_captures(row).pending == s.pending + lines_added(s.prev, row),
        s.after_captures(row).prev == if row.len() == 0 {
            s.prev
        } else {
            Some(row.last().content)
        },
        s.after_captures(row).rolling == s.rolling,
        s.after_captures(row).patterns == s.patterns,
    decreases row.len(),
{
    if row.len() == 0 {
        assert(s.pending + Seq::<Seq<char>>::empty() =~= s.pending);
    } else {
        let front = row.drop_last();
        waiting_lines_are_all_that_came(s, front);
        let before = s.after_captures(front);
        let content = row.last().content;
        lines_wait_until_they_settle(before, content, row.last().now);
        let added = before.added(content);
        assert(s.pending + (lines_added(s.prev, front) + added) =~= s.pending + lines_added(
            s.prev,
            front,
        ) + added);
        if front.len() > 0 {
            assert(front.last() == row[row.len() - 2]);
        }
    }
}

/// When the output settles, the lines that wait are taken together: what is found in
/// all of them decides. An error or a finished task is told at once, with the number
/// of the lines and a summary of them, and so is a prompt that no rule takes on; mere
/// work is dropped without a word, unless a check-in is due.
pub proof fn settled_lines_decide_together(s: LoopState, content: Seq<char>, now: u128)
    requires
        s.can_step(InputView::Captured { content }),
        s.machine.phase != PollPhase::Settled,
        s.stepped(InputView::Captured { content }, now).1.machine.phase == PollPhase::Settled,
    ensures
        ({
            let added = match s.prev {
                Some(prev) => text_diff::added(text_diff::lines(prev), text_diff::lines(content)),
                None => Seq::empty(),
            };
            let lines = s.pending + added;
            let whole = text::joined(lines, "\n"@);
            let state = classifier::classified(s.patterns, whole).0;
            let due = s.ms_since_event + s.last_interval >= s.config.safety_timeout_ms;
            let told = EventView {
                session: s.session,
                state,
                delta: if lines.len() == 1 {
                    "+1 line desde última captura"@
                } else {
                    "+"@ + text::decimal(lines.len()) + " lines desde última captura"@
                },
                summary: s.rolling.summary_of(whole, state),
                full_log_path: s.full_log_path,
                timestamp_ms: now,
                reason: DecisionReason::StateTransition,
            };
            let (output, after) = s.stepped(InputView::Captured { content }, now);
            &&& state == PaneState::Error || state == PaneState::Done ==> output.action
                == (ActionView::Finish {
                interval_ms: s.machine.backoff.settled_ms,
                event: Some(told),
            })
            &&& state == PaneState::WaitingInput ==> output.action is Recheck || output.action
                == (ActionView::Finish {
                interval_ms: s.machine.backoff.settled_ms,
                event: Some(told),
            })
            &&& state == PaneState::Working && !due ==> output.action == (ActionView::Finish {
                interval_ms: s.machine.backoff.settled_ms,
                event: None,
            }) && after.rolling == s.rolling && after.ms_since_event == s.ms_since_event
                + s.last_interval
            &&& output.action is Recheck ==> after.pending == lines && after.rolling == s.rolling
                && after.ms_since_event == s.ms_since_event + s.last_interval
                && after.last_interval == s.last_interval
            &&& state != PaneState::WaitingInput ==> after.responder == s.responder
                && output.changelog is None && output.notice is None
            &&& output.action is Finish ==> after.pending.len() == 0 && after.stage is Idle
            &&& output.action is Finish && state != PaneState::Working ==> after.rolling
                == s.rolling.after(whole, state) && after.ms_since_event == 0
        }),
{
    state_machine::settled_only_after_the_window(s.machine, s.added(content).len() > 0);
}

/// A check-in tells what is found in the lines that it covers: those that wait when
/// it is made, which are none where the output has just settled on work or an answer
/// was given up or sent. It counts and summarizes the same lines.
pub proof fn check_ins_tell_what_they_cover(s: LoopState, input: InputView, now: u128)
    requires
        s.valid(),
        s.can_step(input),
    ensures
        s.stepped(input, now).0.action matches ActionView::Finish { event: Some(e), .. } ==> e.reason
            == DecisionReason::SafetyTimeout ==> {
            let added = match (input, s.prev) {
                (InputView::Captured { content }, Some(prev)) => text_diff::added(
                    text_diff::lines(prev),
                    text_diff::lines(content),
                ),
                _ => Seq::empty(),
            };
            let settles = s.machine.phase == PollPhase::Settling && added.len() == 0
                && s.machine.quiet_ms + s.machine.backoff.settling_ms >= s.machine.window_ms;
            let covered = if input is Captured && !settles {
                s.pending + added
            } else {
                Seq::empty()
            };
            let whole = text::joined(covered, "\n"@);
            let after = s.stepped(input, now).1;
            &&& e.state == classifier::classified(s.patterns, whole).0
            &&& e.summary == s.rolling.summary_of(whole, e.state)
            &&& e.delta == if covered.len() == 1 {
                "+1 line desde última captura"@
            } else {
                "+"@ + text::decimal(covered.len()) + " lines desde última captura"@
            }
            &&& e.session == s.session && e.full_log_path == s.full_log_path && e.timestamp_ms
                == now
            &&& after.rolling == s.rolling.after(whole, e.state)
            &&& after.pending.len() == 0
            &&& after.ms_since_event == 0
            &&& input is Captured && settles ==> classifier::classified(
                s.patterns,
                text::joined(s.pending + added, "\n"@),
            ).0 == PaneState::Working
            &&& input is Captured || input is Rechecked || input is KeysSent
        },
{
    state_machine::settled_only_after_the_window(s.machine, match input {
        InputView::Captured { content } => s.added(content).len() > 0,
        _ => false,
    });
    reveal_with_fuel(text::joined, 1);
    assert(text::joined(Seq::<Seq<char>>::empty(), "\n"@) =~= Seq::<char>::empty());
}

/// A check-in is made exactly where the safety timeout has passed at the end of a
/// step that tells nothing else.
pub proof fn check_ins_come_when_they_are_due(s: LoopState, content: Seq<char>, now: u128)
    requires
        s.can_step(InputView::Captured { content }),
        s.ms_since_event + s.last_interval >= s.config.safety_timeout_ms,
    ensures
        s.stepped(InputView::Captured { content }, now).0.action is Recheck || (s.stepped(
            InputView::Captured { content },
            now,
        ).0.action matches ActionView::Finish { event: Some(e), .. } && (e.reason
            == DecisionReason::SafetyTimeout || e.reason == DecisionReason::StateTransition)),
{
}

/// What is remembered as the summary so far is that of the last event on waiting
/// lines, a transition or a check-in; nothing else touches it.
pub proof fn the_last_event_is_the_context(s: LoopState, input: InputView, now: u128)
    requires
        s.can_step(input),
    ensures
        ({
            let (output, after) = s.stepped(input, now);
            match output.action {
                ActionView::Finish { event: Some(e), .. } => if e.reason
                    == DecisionReason::StateTransition || e.reason
                    == DecisionReason::SafetyTimeout {
                    after.rolling.last_summary == Some(e.summary)
                } else {
                    after.rolling == s.rolling
                },
                _ => after.rolling == s.rolling,
            }
        }),
{
}

/// One input, and when it came.
#[verifier::ext_equal]
pub struct Turn {
    pub input: InputView,
    pub now: u128,
}

impl LoopState {
    /// The state after a row of inputs.
    pub open spec fn after_turns(self, row: Seq<Turn>) -> LoopState
        decreases row.len(),
    {
        if row.len() == 0 {
            self
        } else {
            self.after_turns(row.drop_last()).stepped(row.last().input, row.last().now).1
        }
    }

    /// Every input of the row belongs to the step under way.
    pub open spec fn takes(self, row: Seq<Turn>) -> bool
        decreases row.len(),
    {
        row.len() > 0 ==> self.takes(row.drop_last()) && self.after_turns(
            row.drop_last(),
        ).can_step(row.last().input)
    }

    /// The event that the last input of the row leads to, if any.
    pub open spec fn told_last(self, row: Seq<Turn>) -> Option<EventView> {
        match self.after_turns(row.drop_last()).stepped(
            row.last().input,
            row.last().now,
        ).0.action {
            ActionView::Finish { event, .. } => event,
            _ => None,
        }
    }
}

/// Over any row of inputs, the context that rules are held against is the summary of
/// the last transition or check-in that was told, however long ago that was; before
/// the first one it is what it was at the start.
pub proof fn the_context_is_the_last_summary_told(s: LoopState, row: Seq<Turn>, n: int)
    requires
        s.takes(row),
        0 <= n <= row.len(),
        forall|k: int|
            n < k <= row.len() ==> !(s.told_last(#[trigger] row.take(k)) is Some && (s.told_last(
                row.take(k),
            )->0.reason == DecisionReason::StateTransition || s.told_last(row.take(k))->0.reason
                == DecisionReason::SafetyTimeout)),
        n > 0 ==> s.told_last(row.take(n)) is Some && (s.told_last(row.take(n))->0.reason
            == DecisionReason::StateTransition || s.told_last(row.take(n))->0.reason
            == DecisionReason::SafetyTimeout),
    ensures
        s.after_turns(row).rolling.last_summary == if n > 0 {
            Some(s.told_last(row.take(n))->0.summary)
        } else {
            s.rolling.last_summary
        },
    decreases row.len(),
{
    if row.len() > 0 {
        let front = row.drop_last();
        the_last_event_is_the_context(
            s.after_turns(front),
            row.last().input,
            row.last().now,
        );
        assert(row.take(row.len() as int) =~= row);
        if n < row.len() {
            assert forall|k: int| 0 <= k <= front.len() implies #[trigger] front.take(k)
                == row.take(k) by {
                assert(front.take(k) =~= row.take(k));
            }
            assert forall|k: int| n < k <= front.len() implies !(s.told_last(
                #[trigger] front.take(k),
            ) is Some && (s.told_last(front.take(k))->0.reason == DecisionReason::StateTransition
                || s.told_last(front.take(k))->0.reason == DecisionReason::SafetyTimeout)) by {
                assert(front.take(k) == row.take(k));
            }
            assert(front.take(n) == row.take(n));
            the_context_is_the_last_summary_told(s, front, n);
        }
    }
}

/// A prompt goes to the first rule that may answer it: one that does not rest, whose
/// pattern is found in the lines that wait, and, where it has to be confirmed, one of
/// whose context patterns is found in the summary of the last event on waiting lines.
/// It is taken on exactly where answers are switched on and the session, the cooldown
/// and the hour leave room for it; else the prompt is told.
pub proof fn prompts_go_to_the_first_rule_that_may_answer(
    s: LoopState,
    content: Seq<char>,
    now: u128,
    whole: Seq<char>,
    summary: Seq<char>,
    i: int,
)
    requires
        s.can_step(InputView::Captured { content }),
        s.machine.phase != PollPhase::Settled,
        s.stepped(InputView::Captured { content }, now).1.machine.phase == PollPhase::Settled,
        whole == text::joined(
            s.pending + match s.prev {
                Some(prev) => text_diff::added(text_diff::lines(prev), text_diff::lines(content)),
                None => Seq::empty(),
            },
            "\n"@,
        ),
        summary == match s.rolling.last_summary {
            Some(last) => last,
            None => Seq::empty(),
        },
        classifier::classified(s.patterns, whole).0 == PaneState::WaitingInput,
    ensures
        ({
            let may = |k: int|
                !s.responder.rules[k].suspended && pattern::regex_finds(
                    "(?m)"@ + s.responder.rules[k].rule.match_pattern,
                    whole,
                ) && (s.responder.rules[k].rule.risk == RuleRisk::Confirm ==> exists|c: int|
                    0 <= c < s.responder.rules[k].rule.requires_context_allow.len()
                        && pattern::regex_finds(
                        "(?m)"@ + #[trigger] s.responder.rules[k].rule.requires_context_allow[c],
                        summary,
                    ));
            let first = 0 <= i < s.responder.rules.len() && may(i) && forall|k: int|
                0 <= k < i ==> !#[trigger] may(k);
            let limits = s.responder.limits;
            let open = s.responder.enabled && s.responder.lists_rules && s.responder.session_total
                < limits.max_auto_responses_per_session && (s.responder.last_response_ms is Some
                ==> (if now >= s.responder.last_response_ms->0 {
                now - s.responder.last_response_ms->0
            } else {
                0
            }) >= limits.cooldown_ms_after_response);
            let lately = s.responder.rules[i].answered.filter(
                |t: u128| t + 3_600_000 >= now,
            ).len();
            let (output, after) = s.stepped(InputView::Captured { content }, now);
            &&& (output.action is Recheck && after.stage is Rechecking
                && after.stage->Rechecking_rule_index == i) <==> open && first && lately
                < limits.max_auto_responses_per_rule_per_hour
            &&& output.action matches ActionView::Recheck { wait_ms } ==> wait_ms
                == limits.require_stable_idle_ms && (after.stage matches StageView::Rechecking {
                rule_index,
                keys,
            } && 0 <= rule_index < s.responder.rules.len() && keys
                == s.responder.rules[rule_index].rule.keys)
            &&& !(output.action is Recheck) ==> (output.action matches ActionView::Finish {
                event: Some(e),
                ..
            } && e.reason == DecisionReason::StateTransition && e.state
                == PaneState::WaitingInput)
            &&& after.responder == s.responder.decided(
                s.responder.hits(whole),
                s.responder.allowances(summary),
                now,
            ).1
        }),
{
    let g = s.readings(InputView::Captured { content });
    let r = s.responder;
    state_machine::settled_only_after_the_window(s.machine, s.added(content).len() > 0);
    assert(g.hits == r.hits(whole) && g.allowed == r.allowances(summary));
    assert(g.state == PaneState::WaitingInput);
    let decision = r.decided(g.hits, g.allowed, now).0;
    auto_respond_laws::a_rule_fires_exactly_when_it_may(r, g.hits, g.allowed, now, i);
    if let auto_respond::DecisionView::ShouldFire { rule_index, .. } = decision {
        auto_respond_laws::a_rule_fires_exactly_when_it_may(
            r,
            g.hits,
            g.allowed,
            now,
            rule_index,
        );
    }
    let by_flags = |k: int|
        !r.rules[k].suspended && g.hits[k] && (r.rules[k].rule.risk == RuleRisk::Confirm
            ==> g.allowed[k] && r.rules[k].rule.requires_context_allow.len() > 0);
    let may = |k: int|
        !s.responder.rules[k].suspended && pattern::regex_finds(
            "(?m)"@ + s.responder.rules[k].rule.match_pattern,
            whole,
        ) && (s.responder.rules[k].rule.risk == RuleRisk::Confirm ==> exists|c: int|
            0 <= c < s.responder.rules[k].rule.requires_context_allow.len()
                && pattern::regex_finds(
                "(?m)"@ + #[trigger] s.responder.rules[k].rule.requires_context_allow[c],
                summary,
            ));
    assert forall|k: int| 0 <= k < r.rules.len() implies #[trigger] by_flags(k) == #[trigger] may(
        k,
    ) by {
        auto_respond_laws::flags_are_what_the_patterns_find(r, whole, summary, k);
    }
    let by_flags_first = 0 <= i < r.rules.len() && by_flags(i) && forall|k: int|
        0 <= k < i ==> !#[trigger] by_flags(k);
    let first = 0 <= i < r.rules.len() && may(i) && forall|k: int|
        0 <= k < i ==> !#[trigger] may(k);
    assert(by_flags_first == first) by {
        if by_flags_first {
            assert forall|k: int| 0 <= k < i implies !#[trigger] may(k) by {
                assert(!by_flags(k));
            }
        }
        if first {
            assert forall|k: int| 0 <= k < i implies !#[trigger] by_flags(k) by {
                assert(!may(k));
            }
        }
    }
    let (output, after) = s.stepped(InputView::Captured { content }, now);
    assert(output.action is Recheck <==> decision is ShouldFire);
    assert(output.action is Recheck ==> after.stage is Rechecking
        && after.stage->Rechecking_rule_index == decision->rule_index);
}

/// The keys of a rule are sent exactly where its pattern is still found in the fresh
/// capture; else nothing is sent, the lines that waited are dropped, and nothing is
/// told unless a check-in is due.
pub proof fn keys_go_to_the_prompt_that_is_still_there(
    s: LoopState,
    fresh: Option<Seq<char>>,
    now: u128,
)
    requires
        s.valid(),
        s.can_step(InputView::Rechecked { fresh }),
    ensures
        s.stage matches StageView::Rechecking { rule_index, keys } && {
            let there = fresh is Some && pattern::regex_finds(
                "(?m)"@ + s.responder.rules[rule_index].rule.match_pattern,
                fresh->0,
            );
            let (output, after) = s.stepped(InputView::Rechecked { fresh }, now);
            &&& there ==> output.action == (ActionView::SendKeys { keys }) && after
                == (LoopState { stage: StageView::Sending { rule_index, keys }, ..s })
            &&& !there ==> {
                &&& output.action is Finish
                &&& after.pending.len() == 0
                &&& after.stage is Idle
                &&& after.responder == s.responder
                &&& s.ms_since_event < s.config.safety_timeout_ms ==> (
                output.action matches ActionView::Finish { event: None, .. }) && after.rolling
                    == s.rolling
            }
            &&& output.log_text is None && output.changelog is None && output.notice is None
        },
{
}

/// Once the keys were sent, the answer is counted for its rule, written to the raw
/// log and the changelog where a log is kept, and told to the decide loop where that
/// is asked for; the lines that waited are done with.
pub proof fn answers_are_written_up(s: LoopState, now: u128)
    requires
        s.valid(),
        s.can_step(InputView::KeysSent),
    ensures
        s.stage matches StageView::Sending { rule_index, keys } && {
            let id = s.responder.rules[rule_index].rule.id;
            let answer = "rule="@ + id + " keys="@ + text::joined(keys, " "@);
            let (output, after) = s.stepped(InputView::KeysSent, now);
            &&& after.responder == s.responder.committed(rule_index, now)
            &&& after.pending.len() == 0
            &&& after.stage is Idle
            &&& output.log_text == if s.log_path is Some {
                Some("[auto-respond] "@ + answer + "\n"@)
            } else {
                None
            }
            &&& s.log_path is None ==> output.changelog is None
            &&& s.log_path is Some ==> output.changelog is Some && output.changelog->0.entry
                == auto_respond::answer_entry(id, keys) && output.changelog->0.timestamp
                == auto_respond::answer_stamp(id, now) && output.changelog->0.notify_telegram
                == s.responder.notify.telegram_on_every_auto_response
            &&& output.notice is None
            &&& s.responder.notify.emit_event_to_decide_loop ==> {
                &&& after.ms_since_event == 0
                &&& after.rolling == s.rolling
                &&& output.action matches ActionView::Finish { event, .. } && event == Some(
                    EventView {
                        session: s.session,
                        state: PaneState::WaitingInput,
                        delta: "+"@ + text::decimal(s.pending.len())
                            + " lines since last capture"@,
                        summary: "auto_responded: "@ + answer,
                        full_log_path: s.full_log_path,
                        timestamp_ms: now,
                        reason: DecisionReason::AutoResponded,
                    },
                )
            }
            &&& !s.responder.notify.emit_event_to_decide_loop && s.ms_since_event
                < s.config.safety_timeout_ms ==> (output.action matches ActionView::Finish {
                event: None,
                ..
            }) && after.ms_since_event == s.ms_since_event
        },
{
    let keys = s.stage->Sending_keys;
    let id = s.responder.rules[s.stage->Sending_rule_index].rule.id;
    let line = "[auto-respond] "@ + LoopState::answer_text(id, keys);
    assert(text::joined(seq![line], "\n"@) == line);
}

/// Keys that could not be sent leave the prompt to the decide loop: it is told with
/// the lines that waited, and the answer is not counted.
pub proof fn prompts_are_told_where_keys_fail(s: LoopState, now: u128)
    requires
        s.can_step(InputView::KeysFailed),
    ensures
        ({
            let whole = text::joined(s.pending, "\n"@);
            let (output, after) = s.stepped(InputView::KeysFailed, now);
            &&& output.action matches ActionView::Finish { event, .. } && event == Some(
                EventView {
                    session: s.session,
                    state: PaneState::WaitingInput,
                    delta: if s.pending.len() == 1 {
                        "+1 line desde última captura"@
                    } else {
                        "+"@ + text::decimal(s.pending.len()) + " lines desde última captura"@
                    },
                    summary: s.rolling.summary_of(whole, PaneState::WaitingInput),
                    full_log_path: s.full_log_path,
                    timestamp_ms: now,
                    reason: DecisionReason::StateTransition,
                },
            )
            &&& after.responder == s.responder
            &&& after.rolling == s.rolling.after(whole, PaneState::WaitingInput)
            &&& after.pending.len() == 0
            &&& after.ms_since_event == 0
            &&& after.stage is Idle
            &&& output.log_text is None && output.changelog is None && output.notice is None
        }),
{
}

/// A capture that fails is told where it completes as many failures in a row as the
/// configuration names, at least one, and then drops the lines that waited; before
/// that it is only counted. Either way the pane is tried again after the short
/// interval, and nothing else changes.
pub proof fn failed_captures_are_counted(s: LoopState, message: Seq<char>, now: u128)
    requires
        s.can_step(InputView::CaptureFailed { message }),
    ensures
        ({
            let told = s.failures + 1 == if s.config.max_capture_failures == 0 {
                1
            } else {
                s.config.max_capture_failures as int
            };
            let (output, after) = s.stepped(InputView::CaptureFailed { message }, now);
            &&& output.log_text is None && output.changelog is None && output.notice is None
            &&& output.action == (ActionView::Finish {
                interval_ms: s.config.backoff.settling_ms,
                event: if told {
                    Some(
                        EventView {
                            session: s.session,
                            state: PaneState::Error,
                            delta: "tmux capture failed: "@ + message,
                            summary: "tmux capture failed: "@ + message,
                            full_log_path: s.full_log_path,
                            timestamp_ms: now,
                            reason: DecisionReason::CaptureFailure,
                        },
                    )
                } else {
                    None
                },
            })
            &&& told ==> after.pending.len() == 0 && after.failures == 0 && after.ms_since_event
                == 0
            &&& !told ==> after.pending == s.pending && after.failures == s.failures + 1
                && after.ms_since_event == s.ms_since_event + s.last_interval
            &&& after.prev == s.prev && after.machine == s.machine && after.rolling == s.rolling
                && after.responder == s.responder && after.stage == s.stage && after.last_interval
                == s.config.backoff.settling_ms
        }),
{
}

/// No step changes what the loop was made of: the session, the patterns, the
/// settings and the paths.
pub proof fn steps_keep_the_settings(s: LoopState, input: InputView, now: u128)
    requires
        s.can_step(input),
    ensures
        ({
            let after = s.stepped(input, now).1;
            &&& after.session == s.session
            &&& after.patterns == s.patterns
            &&& after.config == s.config
            &&& after.log_path == s.log_path
            &&& after.full_log_path == s.full_log_path
            &&& after.machine.backoff == s.machine.backoff
            &&& after.machine.window_ms == s.machine.window_ms
            &&& after.rolling.every_n == s.rolling.every_n
            &&& !(input is Captured) ==> after.machine == s.machine && after.prev == s.prev
            &&& s.stepped(input, now).0.action matches ActionView::Finish { interval_ms, .. }
                ==> after.last_interval == interval_ms && after.stage is Idle
        }),
{
}

/// A step that did not fail to capture ends with the interval of the phase that the
/// settle machine is in afterwards.
pub proof fn steps_end_with_the_interval_of_the_phase(s: LoopState, input: InputView, now: u128)
    requires
        s.can_step(input),
        !(input is CaptureFailed),
    ensures
        s.stepped(input, now).0.action matches ActionView::Finish { interval_ms, .. } ==> interval_ms
            == match s.stepped(input, now).1.machine.phase {
            PollPhase::Working => s.machine.backoff.working_ms,
            PollPhase::Settling => s.machine.backoff.settling_ms,
            PollPhase::Settled => s.machine.backoff.settled_ms,
        },
{
}

/// What can be taken: a capture or a failure between two steps, a fresh capture where
/// one was asked for, and the report on keys where they were to be sent; as long as
/// the clocks have room for the interval that has passed.
pub proof fn inputs_that_belong_are_taken(
    s: LoopState,
    content: Seq<char>,
    message: Seq<char>,
    fresh: Option<Seq<char>>,
)
    ensures
        ({
            let added = match s.prev {
                Some(prev) => text_diff::added(text_diff::lines(prev), text_diff::lines(content)),
                None => Seq::empty(),
            };
            let room = s.ms_since_event + s.last_interval <= u64::MAX;
            let quiet_room = s.machine.phase == PollPhase::Settling && added.len() == 0
                ==> s.machine.quiet_ms + s.machine.backoff.settling_ms <= u64::MAX;
            &&& s.can_step(InputView::Captured { content }) <==> s.stage is Idle && room
                && quiet_room
            &&& s.can_step(InputView::CaptureFailed { message }) <==> s.stage is Idle && room
            &&& s.can_step(InputView::Rechecked { fresh }) <==> s.stage is Rechecking
            &&& s.can_step(InputView::KeysSent) <==> s.stage is Sending
            &&& s.can_step(InputView::KeysFailed) <==> s.stage is Sending
        }),
{
}

/// A capture is followed by a notice exactly where it puts a rule to rest, names that
/// rule and the limit, and is written to the changelog where a log is kept.
pub proof fn notices_are_of_rules_put_to_rest(s: LoopState, content: Seq<char>, now: u128) -> (i:
    int)
    requires
        s.can_step(InputView::Captured { content }),
    ensures
        ({
            let (output, after) = s.stepped(InputView::Captured { content }, now);
            &&& output.changelog is Some <==> output.notice is Some && s.log_path is Some
            &&& output.notice is Some ==> {
                &&& 0 <= i < s.responder.rules.len()
                &&& !s.responder.rules[i].suspended && after.responder.rules[i].suspended
                &&& output.notice == Some(
                    "Auto-respond rule "@ + text::debug_text(s.responder.rules[i].rule.id)
                        + " suspended: per-rule-per-hour limit ("@ + text::decimal(
                        s.responder.limits.max_auto_responses_per_rule_per_hour as nat,
                    ) + ") reached"@,
                )
            }
            &&& output.notice is None ==> forall|k: int|
                0 <= k < s.responder.rules.len() ==> (#[trigger] after.responder.rules[k]).suspended
                    == s.responder.rules[k].suspended
            &&& output.changelog matches Some(record) ==> record.entry.what == output.notice->0
                && record.timestamp == "rate-limit-suspension"@ && !record.notify_telegram
        }),
{
    let g = s.readings(InputView::Captured { content });
    let flags = s.responder.eligible_rules(g.hits, g.allowed);
    auto_respond_laws::first_set_is_first(flags, 0);
    match s.responder.put_to_rest(g.hits, g.allowed, now) {
        Some(k) => {
            assert(flags[k]);
            k
        },
        None => 0,
    }
}

} // verus!
