//! What the views of the values that callers exchange show: every field as it is.
use crate::auto_respond::{AutoRespondDecision, DecisionView};
use crate::changelog::ChangelogEntry;
use crate::classifier::CompiledPatterns;
use crate::profile::Location;
use crate::text;
use crate::types;
use crate::types::{AutoRespondRule, ClassificationResult, DecisionEvent, PatternConfig};
use crate::watch_loop::{
    ChangelogRecord, Readings, StepAction, StepInput, StepOutput,
};
use crate::watch_state::{ActionView, InputView};
use vstd::prelude::*;

verus! {

/// What a caller reports is taken as it is.
pub proof fn inputs_are_taken_as_they_are(input: StepInput)
    ensures
        input matches StepInput::Captured { content } ==> input@ == (InputView::Captured {
            content: content@,
        }),
        input matches StepInput::CaptureFailed { message } ==> input@
            == (InputView::CaptureFailed { message: message@ }),
        input matches StepInput::Rechecked { fresh } ==> input@ == (InputView::Rechecked {
            fresh: match fresh {
                Some(content) => Some(content@),
                None => None,
            },
        }),
        input is KeysSent ==> input@ == InputView::KeysSent,
        input is KeysFailed ==> input@ == InputView::KeysFailed,
{
}

/// What a caller is told to do is what is meant.
pub proof fn actions_are_meant_as_they_are(action: StepAction)
    ensures
        action matches StepAction::Recheck { wait_ms } ==> action@ == (ActionView::Recheck {
            wait_ms,
        }),
        action matches StepAction::SendKeys { keys } ==> (action@ matches ActionView::SendKeys {
            keys: sent,
        } && sent.len() == keys@.len() && forall|i: int|
            0 <= i < keys@.len() ==> #[trigger] sent[i] == keys@[i]@),
        action matches StepAction::Finish { result } ==> (action@ matches ActionView::Finish {
            interval_ms,
            event,
        } && interval_ms == result.interval_ms && (event is Some <==> result.event is Some) && (
        result.event is Some ==> event == Some(result.event->0@))),
{
}

/// What is to be written is written as it is.
pub proof fn outputs_are_written_as_they_are(output: StepOutput, record: ChangelogRecord)
    ensures
        output@.action == output.action@,
        output@.log_text is Some <==> output.log_text is Some,
        output.log_text is Some ==> output@.log_text == Some(output.log_text->0@),
        output@.notice is Some <==> output.notice is Some,
        output.notice is Some ==> output@.notice == Some(output.notice->0@),
        output@.changelog is Some <==> output.changelog is Some,
        output.changelog is Some ==> output@.changelog == Some(output.changelog->0@),
        record@.entry == record.entry@,
        record@.timestamp == record.timestamp@,
        record@.notify_telegram == record.notify_telegram,
{
}

/// An event and a changelog entry say what their fields say.
pub proof fn events_say_what_they_say(event: DecisionEvent, entry: ChangelogEntry)
    ensures
        event@.session == event.session@,
        event@.state == event.state,
        event@.delta == event.delta@,
        event@.summary == event.summary@,
        event@.full_log_path == event.full_log_path@,
        event@.timestamp_ms == event.timestamp_ms,
        event@.reason == event.reason,
        entry@.what == entry.what@,
        entry@.why == entry.why@,
        entry@.how_to_replicate == entry.how_to_replicate@,
{
}

/// What was read is used as it is.
pub proof fn readings_are_used_as_they_are(readings: Readings, i: int)
    ensures
        readings@.added.len() == readings.added_lines@.len(),
        0 <= i < readings.added_lines@.len() ==> readings@.added[i] == readings.added_lines@[i]@,
        readings@.state == readings.state,
        readings@.hits == readings.hits@,
        readings@.allowed == readings.allowed@,
        readings@.still_hits == readings.still_hits,
        readings@.timeout_state == readings.timeout_state,
{
}

/// A rule is read as it is configured.
pub proof fn rules_are_read_as_they_are(rule: AutoRespondRule, rules: Seq<AutoRespondRule>, i: int)
    ensures
        rule@.id == rule.id@,
        rule@.match_pattern == rule.match_pattern@,
        rule@.keys.len() == rule.keys@.len(),
        0 <= i < rule.keys@.len() ==> rule@.keys[i] == rule.keys@[i]@,
        rule@.risk == rule.risk,
        rule@.requires_context_allow.len() == rule.requires_context_allow@.len(),
        0 <= i < rule.requires_context_allow@.len() ==> rule@.requires_context_allow[i]
            == rule.requires_context_allow@[i]@,
        rule@.enabled == rule.enabled,
        types::rule_views(rules).len() == rules.len(),
        0 <= i < rules.len() ==> types::rule_views(rules)[i] == rules[i]@,
{
}

/// Patterns are read as they are configured, each in its own list.
pub proof fn patterns_are_read_as_they_are(config: PatternConfig, compiled: CompiledPatterns, i: int)
    ensures
        config@.error == text::views(config.error@),
        config@.waiting_input == text::views(config.waiting_input@),
        config@.done == text::views(config.done@),
        config@.working == text::views(config.working@),
        compiled@.error.len() == compiled.error@.len(),
        compiled@.waiting_input.len() == compiled.waiting_input@.len(),
        compiled@.done.len() == compiled.done@.len(),
        compiled@.working.len() == compiled.working@.len(),
        0 <= i < compiled.error@.len() ==> compiled@.error[i] == compiled.error@[i].source(),
        0 <= i < compiled.waiting_input@.len() ==> compiled@.waiting_input[i]
            == compiled.waiting_input@[i].source(),
        0 <= i < compiled.done@.len() ==> compiled@.done[i] == compiled.done@[i].source(),
        0 <= i < compiled.working@.len() ==> compiled@.working[i] == compiled.working@[i].source(),
{
}

/// What was recognised or decided, and where a directory lies, is meant as it is.
pub proof fn results_are_meant_as_they_are(
    recognised: ClassificationResult,
    decision: AutoRespondDecision,
    place: Location,
)
    ensures
        recognised@.0 == recognised.state,
        recognised@.1 is Some <==> recognised.matched_pattern is Some,
        recognised.matched_pattern is Some ==> recognised@.1 == Some(
            recognised.matched_pattern->0@,
        ),
        decision is Disabled <==> decision@ is Disabled,
        decision is NoMatch <==> decision@ is NoMatch,
        decision matches AutoRespondDecision::ShouldFire { rule_index, keys } ==> decision@
            == (DecisionView::ShouldFire { rule_index: rule_index as int, keys: text::views(keys@) }),
        place@.base == place.base@,
        place@.segments == text::views(place.segments@),
{
}

} // verus!
