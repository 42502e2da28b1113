//! What holds of the automatic answers over a whole session.
use crate::auto_respond;
use crate::auto_respond::{DecisionView, ResponderState};
use crate::classifier;
use crate::pattern;
use crate::text;
use crate::types;
use crate::types::{AutoRespondConfig, RuleRisk, RuleView};
use vstd::prelude::*;

verus! {

/// One prompt that was put to the responder: which rules hit it, which the
/// context allowed, when it was decided, and when the keys were sent if a rule
/// fired and they could be.
#[verifier::ext_equal]
pub struct Attempt {
    pub hits: Seq<bool>,
    pub allowed: Seq<bool>,
    pub now: u128,
    pub sent_at: Option<u128>,
}

impl ResponderState {
    /// The rule that answered the attempt and when, if one did.
    pub open spec fn answer(self, a: Attempt) -> Option<(int, u128)> {
        match self.decided(a.hits, a.allowed, a.now).0 {
            DecisionView::ShouldFire { rule_index, .. } => match a.sent_at {
                Some(t) => Some((rule_index, t)),
                None => None,
            },
            _ => None,
        }
    }

    /// The state after an attempt.
    pub open spec fn after_attempt(self, a: Attempt) -> ResponderState {
        let after = self.decided(a.hits, a.allowed, a.now).1;
        match self.answer(a) {
            Some((rule_index, t)) => after.committed(rule_index, t),
            None => after,
        }
    }

    /// The state after a row of attempts.
    pub open spec fn after_attempts(self, attempts: Seq<Attempt>) -> ResponderState
        decreases attempts.len(),
    {
        if attempts.len() == 0 {
            self
        } else {
            self.after_attempts(attempts.drop_last()).after_attempt(attempts.last())
        }
    }

    /// The answers to a row of attempts: which rule, and when.
    pub open spec fn answers(self, attempts: Seq<Attempt>) -> Seq<(int, u128)>
        decreases attempts.len(),
    {
        if attempts.len() == 0 {
            Seq::empty()
        } else {
            let before = self.answers(attempts.drop_last());
            match self.after_attempts(attempts.drop_last()).answer(attempts.last()) {
                Some(answer) => before.push(answer),
                None => before,
            }
        }
    }

    /// When one rule answered.
    pub open spec fn answers_of(self, attempts: Seq<Attempt>, i: int) -> Seq<u128>
        decreases attempts.len(),
    {
        if attempts.len() == 0 {
            Seq::empty()
        } else {
            let before = self.answers_of(attempts.drop_last(), i);
            match self.after_attempts(attempts.drop_last()).answer(attempts.last()) {
                Some((rule_index, t)) => if rule_index == i {
                    before.push(t)
                } else {
                    before
                },
                None => before,
            }
        }
    }
}

/// Each attempt is decided no earlier than the one before it, and its keys are
/// sent between its decision and the next.
pub open spec fn in_time_order(attempts: Seq<Attempt>) -> bool {
    &&& forall|i: int|
        0 <= i < attempts.len() ==> ((#[trigger] attempts[i]).sent_at matches Some(t)
            ==> attempts[i].now <= t)
    &&& forall|i: int, j: int|
        0 <= i < j < attempts.len() ==> {
            &&& (#[trigger] attempts[i]).now <= (#[trigger] attempts[j]).now
            &&& attempts[i].sent_at matches Some(t) ==> t <= attempts[j].now
        }
}

/// The first set flag is set, and none before it is.
pub(crate) proof fn first_set_is_first(flags: Seq<bool>, from: int)
    requires
        0 <= from <= flags.len(),
    ensures
        from <= auto_respond::first_set(flags, from) <= flags.len(),
        auto_respond::first_set(flags, from) < flags.len() ==> flags[auto_respond::first_set(flags, from)],
        forall|k: int| from <= k < auto_respond::first_set(flags, from) ==> !flags[k],
    decreases flags.len() - from,
{
    if from < flags.len() && !flags[from] {
        first_set_is_first(flags, from + 1);
    }
}

/// Switched off or without rules, the responder answers nothing and remembers nothing.
pub proof fn disabled_answers_nothing(s: ResponderState, attempts: Seq<Attempt>)
    requires
        s.off(),
    ensures
        s.after_attempts(attempts) == s,
        s.answers(attempts).len() == 0,
    decreases attempts.len(),
{
    if attempts.len() > 0 {
        disabled_answers_nothing(s, attempts.drop_last());
    }
}

/// A rule fires only where answers are switched on, the session and the hour
/// have room for one more, the cooldown is over, the rule does not rest, hits
/// the delta, and is allowed by the context where it needs to be; no rule before
/// it could have fired; and the keys are those of the rule.
pub proof fn firing_is_justified(s: ResponderState, hits: Seq<bool>, allowed: Seq<bool>, now: u128)
    ensures
        s.decided(hits, allowed, now).0 matches DecisionView::ShouldFire { rule_index, keys } ==> {
            &&& !s.off()
            &&& s.session_total < s.limits.max_auto_responses_per_session
            &&& !s.cooling(now)
            &&& 0 <= rule_index < s.rules.len()
            &&& !s.rules[rule_index].suspended
            &&& hits[rule_index]
            &&& s.rules[rule_index].rule.risk == RuleRisk::Confirm ==> allowed[rule_index]
                && s.rules[rule_index].rule.requires_context_allow.len() > 0
            &&& auto_respond::within_hour(s.rules[rule_index].answered, now).len()
                < s.limits.max_auto_responses_per_rule_per_hour
            &&& keys == s.rules[rule_index].rule.keys
            &&& forall|k: int|
                0 <= k < rule_index ==> !s.eligible(k, #[trigger] hits[k], allowed[k])
        },
{
    let flags = s.eligible_rules(hits, allowed);
    first_set_is_first(flags, 0);
    assert forall|k: int| 0 <= k < auto_respond::first_set(flags, 0) implies !s.eligible(
        k,
        #[trigger] hits[k],
        allowed[k],
    ) by {
        assert(!flags[k]);
    }
}

/// A `Confirm` rule fires only where one of its context patterns hits the rolling
/// summary.
pub proof fn confirm_rules_need_their_context(
    s: ResponderState,
    delta: Seq<char>,
    summary: Seq<char>,
    now: u128,
)
    ensures
        s.decided(s.hits(delta), s.allowances(summary), now).0 matches DecisionView::ShouldFire {
            rule_index,
            ..
        } ==> {
            let rule = s.rules[rule_index].rule;
            &&& auto_respond::hits(rule, delta)
            &&& rule.risk == RuleRisk::Confirm ==> classifier::any_finds(
                classifier::all_multiline(rule.requires_context_allow),
                summary,
            )
        },
{
    firing_is_justified(s, s.hits(delta), s.allowances(summary), now);
}

/// The first rule that may answer fires while the hour has room for it; where it
/// has none left, the rule is put to rest and nothing fires.
pub proof fn first_eligible_rule_fires(
    s: ResponderState,
    hits: Seq<bool>,
    allowed: Seq<bool>,
    now: u128,
    i: int,
)
    requires
        !s.off(),
        !s.spent(),
        !s.cooling(now),
        0 <= i < s.rules.len(),
        s.eligible(i, hits[i], allowed[i]),
        forall|k: int| 0 <= k < i ==> !s.eligible(k, #[trigger] hits[k], allowed[k]),
    ensures
        !s.exhausted(i, now) ==> s.decided(hits, allowed, now).0 == (DecisionView::ShouldFire {
            rule_index: i,
            keys: s.rules[i].rule.keys,
        }),
        s.exhausted(i, now) ==> s.decided(hits, allowed, now).0 == DecisionView::NoMatch
            && s.decided(hits, allowed, now).1.rules[i].suspended && s.put_to_rest(
            hits,
            allowed,
            now,
        ) == Some(i),
{
    let flags = s.eligible_rules(hits, allowed);
    first_set_is_first(flags, 0);
    let j = auto_respond::first_set(flags, 0);
    assert(flags[i]);
    if j < i {
        assert(!s.eligible(j, hits[j], allowed[j]));
    }
}

/// The limits, the rules and their order never change.
proof fn attempts_keep_the_settings(s: ResponderState, attempts: Seq<Attempt>)
    ensures
        s.after_attempts(attempts).off() == s.off(),
        s.after_attempts(attempts).limits == s.limits,
        s.after_attempts(attempts).rules.len() == s.rules.len(),
        s.after_attempts(attempts).session_total == s.session_total + s.answers(attempts).len(),
        forall|i: int|
            0 <= i < s.rules.len() ==> (#[trigger] s.after_attempts(attempts).rules[i]).rule
                == s.rules[i].rule,
    decreases attempts.len(),
{
    if attempts.len() > 0 {
        attempts_keep_the_settings(s, attempts.drop_last());
        let before = s.after_attempts(attempts.drop_last());
        let a = attempts.last();
        first_set_is_first(before.eligible_rules(a.hits, a.allowed), 0);
    }
}

/// No session sees more answers than its limit.
pub proof fn session_limit_holds(s: ResponderState, attempts: Seq<Attempt>)
    requires
        s.session_total == 0,
    ensures
        s.answers(attempts).len() <= s.limits.max_auto_responses_per_session,
        s.after_attempts(attempts).session_total == s.answers(attempts).len(),
    decreases attempts.len(),
{
    attempts_keep_the_settings(s, attempts);
    if attempts.len() > 0 {
        session_limit_holds(s, attempts.drop_last());
        attempts_keep_the_settings(s, attempts.drop_last());
    }
}

/// Two answers in a row lie at least the cooldown apart, whichever rules gave
/// them.
pub proof fn cooldown_holds(s: ResponderState, attempts: Seq<Attempt>, k: int)
    requires
        s.last_response_ms is None,
        in_time_order(attempts),
        0 <= k < s.answers(attempts).len() - 1,
    ensures
        s.answers(attempts)[k + 1].1 - s.answers(attempts)[k].1
            >= s.limits.cooldown_ms_after_response,
    decreases attempts.len(),
{
    if attempts.len() > 0 {
        let front = attempts.drop_last();
        let a = attempts.last();
        let before = s.after_attempts(front);
        attempts_keep_the_settings(s, front);
        last_answer_is_remembered(s, front);
        assert(in_time_order(front));
        if k + 1 < s.answers(front).len() {
            cooldown_holds(s, front, k);
        } else {
            firing_is_justified(before, a.hits, a.allowed, a.now);
            answers_precede(s, attempts);
            assert(before.last_response_ms == Some(s.answers(front)[k].1));
        }
    }
}

/// The time of the last answer is the one that is remembered.
proof fn last_answer_is_remembered(s: ResponderState, attempts: Seq<Attempt>)
    requires
        s.last_response_ms is None,
    ensures
        s.answers(attempts).len() == 0 ==> s.after_attempts(attempts).last_response_ms is None,
        s.answers(attempts).len() > 0 ==> s.after_attempts(attempts).last_response_ms == Some(
            s.answers(attempts).last().1,
        ),
    decreases attempts.len(),
{
    if attempts.len() > 0 {
        last_answer_is_remembered(s, attempts.drop_last());
    }
}

/// Every answer to the attempts before the last was sent before the last was
/// decided.
proof fn answers_precede(s: ResponderState, attempts: Seq<Attempt>)
    requires
        attempts.len() > 0,
        in_time_order(attempts),
    ensures
        forall|k: int|
            0 <= k < s.answers(attempts.drop_last()).len() ==> (#[trigger] s.answers(
                attempts.drop_last(),
            )[k]).1 <= attempts.last().now,
    decreases attempts.len(),
{
    let front = attempts.drop_last();
    if front.len() > 0 {
        assert(in_time_order(front));
        answers_precede(s, front);
        let last = attempts[attempts.len() - 1];
        let previous = attempts[front.len() - 1];
        assert(previous.now <= last.now);
        let earlier = s.answers(front.drop_last());
        assert forall|k: int| 0 <= k < s.answers(front).len() implies (#[trigger] s.answers(
            front,
        )[k]).1 <= last.now by {
            if k < earlier.len() {
                assert(s.answers(front)[k] == earlier[k]);
            }
        }
    }
}

/// What is kept of a sequence that grows, by a condition that stays true once
/// it is, is its end.
proof fn filter_keeps_the_end(times: Seq<u128>, now: u128) -> (j: int)
    requires
        forall|a: int, b: int| 0 <= a < b < times.len() ==> times[a] <= times[b],
    ensures
        0 <= j <= times.len(),
        auto_respond::within_hour(times, now) == times.skip(j),
        forall|k: int| 0 <= k < j ==> #[trigger] times[k] + 3_600_000 < now,
    decreases times.len(),
{
    reveal(Seq::filter);
    let keep = |t: u128| t + 3_600_000 >= now;
    if times.len() == 0 {
        assert(auto_respond::within_hour(times, now) =~= times.skip(0));
        0
    } else {
        let j = filter_keeps_the_end(times.drop_last(), now);
        if keep(times.last()) {
            assert(times.drop_last().skip(j).push(times.last()) =~= times.skip(j));
            assert forall|k: int| 0 <= k < j implies #[trigger] times[k] + 3_600_000 < now by {
                assert(times.drop_last()[k] == times[k]);
            }
            j
        } else {
            assert(auto_respond::within_hour(times.drop_last(), now) =~= Seq::empty()) by {
                if j < times.len() - 1 {
                    let kept = times.drop_last().filter(keep);
                    assert(kept[0] == times[j]);
                    times.drop_last().lemma_filter_contains_rev(keep, times[j]);
                    times.drop_last().lemma_filter_pred(keep, 0);
                }
            }
            assert(times.skip(times.len() as int) =~= Seq::empty());
            assert forall|k: int| 0 <= k < times.len() implies #[trigger] times[k] + 3_600_000
                < now by {
                assert(times[k] <= times[times.len() - 1]);
            }
            times.len() as int
        }
    }
}

/// What is remembered of a rule is the end of its answers; the rest lies more
/// than an hour before the last decision.
#[verifier::rlimit(40)]
proof fn recent_answers_are_remembered(s: ResponderState, attempts: Seq<Attempt>, i: int) -> (j:
    int)
    requires
        0 <= i < s.rules.len(),
        s.rules[i].answered.len() == 0,
        in_time_order(attempts),
    ensures
        0 <= j <= s.answers_of(attempts, i).len(),
        s.after_attempts(attempts).rules[i].answered == s.answers_of(attempts, i).skip(j),
        forall|k: int|
            0 <= k < j ==> attempts.len() > 0 && #[trigger] s.answers_of(attempts, i)[k] + 3_600_000
                < attempts.last().now,
        forall|a: int, b: int|
            0 <= a < b < s.answers_of(attempts, i).len() ==> s.answers_of(attempts, i)[a]
                <= s.answers_of(attempts, i)[b],
        forall|a: int|
            0 <= a < s.answers_of(attempts, i).len() ==> attempts.len() > 0 && (
            #[trigger] s.answers_of(attempts, i)[a] <= attempts.last().now
                || attempts.last().sent_at == Some(s.answers_of(attempts, i)[a])),
    decreases attempts.len(),
{
    let all = s.answers_of(attempts, i);
    if attempts.len() == 0 {
        assert(s.rules[i].answered =~= all.skip(0));
        0
    } else {
        let front = attempts.drop_last();
        let a = attempts.last();
        let before = s.after_attempts(front);
        let old_all = s.answers_of(front, i);
        assert(in_time_order(front));
        let j = recent_answers_are_remembered(s, front, i);
        attempts_keep_the_settings(s, front);
        first_set_is_first(before.eligible_rules(a.hits, a.allowed), 0);
        assert forall|k: int| 0 <= k < old_all.len() implies #[trigger] old_all[k] <= a.now by {
            assert(front.last() == attempts[attempts.len() - 2]);
            assert(a == attempts[attempts.len() - 1]);
        }
        let answered = before.rules[i].answered;
        let m = filter_keeps_the_end(answered, a.now);
        assert forall|k: int| 0 <= k < j + m implies #[trigger] old_all[k] + 3_600_000 < a.now by {
            if k < j {
                assert(front.last().now <= a.now) by {
                    assert(front.last() == attempts[attempts.len() - 2]);
                    assert(a == attempts[attempts.len() - 1]);
                }
            } else {
                assert(answered[k - j] == old_all[k]);
            }
        }
        assert(answered.skip(m) =~= old_all.skip(j + m));
        let after = s.after_attempts(attempts).rules[i].answered;
        assert(a == attempts[attempts.len() - 1]);
        let chosen = auto_respond::first_set(before.eligible_rules(a.hits, a.allowed), 0);
        if before.off() || before.spent() || before.cooling(a.now) || chosen != i {
            assert(after == answered);
            assert(all == old_all);
            j
        } else {
            if all == old_all {
                assert(after == answered.skip(m));
            } else {
                assert(all == old_all.push(a.sent_at->0));
                assert(after == answered.skip(m).push(a.sent_at->0));
                assert(after =~= all.skip(j + m));
            }
            j + m
        }
    }
}

/// No rule answers more often within an hour than its limit: between an answer
/// and the one that lies the limit further back there is more than an hour.
#[verifier::rlimit(40)]
pub proof fn hourly_limit_holds(s: ResponderState, attempts: Seq<Attempt>, i: int, k: int)
    requires
        0 <= i < s.rules.len(),
        s.rules[i].answered.len() == 0,
        in_time_order(attempts),
        s.limits.max_auto_responses_per_rule_per_hour <= k < s.answers_of(attempts, i).len(),
    ensures
        s.limits.max_auto_responses_per_rule_per_hour > 0,
        s.answers_of(attempts, i)[k] - s.answers_of(attempts, i)[k
            - s.limits.max_auto_responses_per_rule_per_hour] > 3_600_000,
    decreases attempts.len(),
{
    let limit = s.limits.max_auto_responses_per_rule_per_hour;
    if attempts.len() > 0 {
        let front = attempts.drop_last();
        let a = attempts.last();
        let before = s.after_attempts(front);
        let old_all = s.answers_of(front, i);
        assert(in_time_order(front));
        if k < old_all.len() {
            hourly_limit_holds(s, front, i, k);
        } else {
            attempts_keep_the_settings(s, front);
            firing_is_justified(before, a.hits, a.allowed, a.now);
            let j = recent_answers_are_remembered(s, front, i);
            let answered = before.rules[i].answered;
            let m = filter_keeps_the_end(answered, a.now);
            assert(a == attempts[attempts.len() - 1]);
            assert(answered.skip(m).len() < limit);
            let back = k - limit;
            assert(back < j + m);
            if back < j {
                assert(front.last() == attempts[attempts.len() - 2]);
                assert(old_all[back] + 3_600_000 < front.last().now);
            } else {
                assert(answered[back - j] == old_all[back]);
            }
        }
    }
}

/// A rule that rests keeps resting and answers nothing more.
pub proof fn suspended_rule_stays_silent(s: ResponderState, attempts: Seq<Attempt>, i: int)
    requires
        0 <= i < s.rules.len(),
        s.rules[i].suspended,
    ensures
        s.after_attempts(attempts).rules[i].suspended,
        s.answers_of(attempts, i).len() == 0,
    decreases attempts.len(),
{
    if attempts.len() > 0 {
        let front = attempts.drop_last();
        let a = attempts.last();
        suspended_rule_stays_silent(s, front, i);
        attempts_keep_the_settings(s, front);
        firing_is_justified(s.after_attempts(front), a.hits, a.allowed, a.now);
        first_set_is_first(s.after_attempts(front).eligible_rules(a.hits, a.allowed), 0);
    }
}

/// A rule that is switched off in the configuration is not among the rules.
pub proof fn disabled_rules_are_left_out(config: AutoRespondConfig, i: int)
    requires
        0 <= i < ResponderState::initial(config).rules.len(),
    ensures
        ResponderState::initial(config).rules[i].rule.enabled,
        types::rule_views(config.rules@).contains(ResponderState::initial(config).rules[i].rule),
{
    let all = types::rule_views(config.rules@);
    let keep = |r: RuleView| r.enabled;
    all.lemma_filter_pred(keep, i);
    all.lemma_filter_contains_rev(keep, all.filter(keep)[i]);
}

/// Which rules hit a delta and which a summary allows: a rule hits where its
/// pattern, in multiline mode, finds something in the delta, and is allowed where it
/// names no context or one of its context patterns finds something in the summary.
pub proof fn flags_are_what_the_patterns_find(
    s: ResponderState,
    delta: Seq<char>,
    summary: Seq<char>,
    i: int,
)
    requires
        0 <= i < s.rules.len(),
    ensures
        s.hits(delta).len() == s.rules.len(),
        s.allowances(summary).len() == s.rules.len(),
        s.hits(delta)[i] <==> pattern::regex_finds(
            "(?m)"@ + s.rules[i].rule.match_pattern,
            delta,
        ),
        s.allowances(summary)[i] <==> s.rules[i].rule.requires_context_allow.len() == 0
            || exists|k: int|
            0 <= k < s.rules[i].rule.requires_context_allow.len() && pattern::regex_finds(
                "(?m)"@ + #[trigger] s.rules[i].rule.requires_context_allow[k],
                summary,
            ),
{
    let list = s.rules[i].rule.requires_context_allow;
    let all = classifier::all_multiline(list);
    assert(forall|k: int| 0 <= k < list.len() ==> #[trigger] all[k] == "(?m)"@ + list[k]);
    if classifier::any_finds(all, summary) {
        let k = choose|k: int| 0 <= k < all.len() && pattern::regex_finds(#[trigger] all[k], summary);
        assert(pattern::regex_finds("(?m)"@ + list[k], summary));
    }
    if exists|k: int|
        0 <= k < list.len() && pattern::regex_finds("(?m)"@ + #[trigger] list[k], summary) {
        let k = choose|k: int|
            0 <= k < list.len() && pattern::regex_finds("(?m)"@ + #[trigger] list[k], summary);
        assert(pattern::regex_finds(all[k], summary));
    }
}

/// A rule fires exactly where answers are switched on and rules are listed, the
/// session has room, the last answer lies at least the cooldown back, the rule does
/// not rest, hits, and has its context where it has to be confirmed, no rule before
/// it is as far, and fewer of its answers than the hourly limit lie at most an hour
/// back. The keys are those of the rule.
pub proof fn a_rule_fires_exactly_when_it_may(
    s: ResponderState,
    hits: Seq<bool>,
    allowed: Seq<bool>,
    now: u128,
    i: int,
)
    ensures
        ({
            let may = |k: int|
                !s.rules[k].suspended && hits[k] && (s.rules[k].rule.risk == RuleRisk::Confirm
                    ==> allowed[k] && s.rules[k].rule.requires_context_allow.len() > 0);
            let first = 0 <= i < s.rules.len() && may(i) && forall|k: int|
                0 <= k < i ==> !#[trigger] may(k);
            let open = s.enabled && s.lists_rules && s.session_total
                < s.limits.max_auto_responses_per_session && (s.last_response_ms is Some ==> (
            if now >= s.last_response_ms->0 {
                now - s.last_response_ms->0
            } else {
                0
            }) >= s.limits.cooldown_ms_after_response);
            let lately = s.rules[i].answered.filter(|t: u128| t + 3_600_000 >= now).len();
            let (decision, after) = s.decided(hits, allowed, now);
            &&& decision is Disabled <==> !(s.enabled && s.lists_rules)
            &&& (decision matches DecisionView::ShouldFire { rule_index, .. } && rule_index == i)
                <==> open && first && lately < s.limits.max_auto_responses_per_rule_per_hour
            &&& decision matches DecisionView::ShouldFire { rule_index, keys } ==> 0 <= rule_index
                < s.rules.len() && keys == s.rules[rule_index].rule.keys
            &&& open && first && lately >= s.limits.max_auto_responses_per_rule_per_hour
                ==> decision is NoMatch && after.rules[i].suspended
            &&& 0 <= i < s.rules.len() && after.rules[i].suspended && !s.rules[i].suspended
                ==> open && first && lately >= s.limits.max_auto_responses_per_rule_per_hour
            &&& 0 <= i < s.rules.len() ==> after.rules[i].rule == s.rules[i].rule && (
            after.rules[i].answered == s.rules[i].answered || after.rules[i].answered
                == s.rules[i].answered.filter(|t: u128| t + 3_600_000 >= now))
            &&& s.rules.len() == after.rules.len() && s.session_total == after.session_total
                && s.last_response_ms == after.last_response_ms && s.limits == after.limits
                && s.notify == after.notify && s.enabled == after.enabled && s.lists_rules
                == after.lists_rules
            &&& 0 <= i < s.rules.len() && s.rules[i].suspended ==> after.rules[i].suspended
        }),
{
    let flags = s.eligible_rules(hits, allowed);
    first_set_is_first(flags, 0);
    let j = auto_respond::first_set(flags, 0);
    let may = |k: int|
        !s.rules[k].suspended && hits[k] && (s.rules[k].rule.risk == RuleRisk::Confirm
            ==> allowed[k] && s.rules[k].rule.requires_context_allow.len() > 0);
    assert forall|k: int| 0 <= k < s.rules.len() implies flags[k] == #[trigger] may(k) by {}
    let first = 0 <= i < s.rules.len() && may(i) && forall|k: int|
        0 <= k < i ==> !#[trigger] may(k);
    assert(first <==> j == i && i < s.rules.len()) by {
        if first {
            assert(flags[i]);
            if j < i {
                assert(flags[j]);
                assert(may(j));
            }
        }
        if j == i && i < s.rules.len() {
            assert(may(i));
            assert forall|k: int| 0 <= k < i implies !#[trigger] may(k) by {
                assert(!flags[k]);
            }
        }
    }
    assert(s.rules[i].answered.filter(|t: u128| t + 3_600_000 >= now)
        == auto_respond::within_hour(s.rules[i].answered, now));
}

/// An answer is counted: once more for the session, at its time for the rule that
/// gave it, and as the last one; no other rule and no setting changes.
pub proof fn answers_are_counted(s: ResponderState, i: int, now: u128, k: int)
    requires
        0 <= i < s.rules.len(),
        0 <= k < s.rules.len(),
    ensures
        s.committed(i, now).session_total == s.session_total + 1,
        s.committed(i, now).last_response_ms == Some(now),
        s.committed(i, now).rules.len() == s.rules.len(),
        s.committed(i, now).rules[i].answered == s.rules[i].answered.push(now),
        s.committed(i, now).rules[i].suspended == s.rules[i].suspended,
        s.committed(i, now).rules[i].rule == s.rules[i].rule,
        k != i ==> s.committed(i, now).rules[k] == s.rules[k],
        s.committed(i, now).enabled == s.enabled,
        s.committed(i, now).lists_rules == s.lists_rules,
        s.committed(i, now).limits == s.limits,
        s.committed(i, now).notify == s.notify,
{
}

/// A configuration starts with its switches and limits, nothing counted, and its
/// enabled rules in their order, none of which has answered or rests.
pub proof fn configurations_start_fresh(config: AutoRespondConfig, i: int)
    ensures
        ({
            let s = ResponderState::initial(config);
            let rules = config.rules@.map_values(|r: types::AutoRespondRule| r@).filter(
                |r: RuleView| r.enabled,
            );
            &&& s.enabled == config.enabled
            &&& s.lists_rules <==> config.rules@.len() > 0
            &&& s.limits == config.limits
            &&& s.notify == config.notify
            &&& s.session_total == 0
            &&& s.last_response_ms is None
            &&& s.rules.len() == rules.len()
            &&& 0 <= i < rules.len() ==> s.rules[i].rule == rules[i] && s.rules[i].answered.len()
                == 0 && !s.rules[i].suspended
        }),
{
}

/// A rule is refused where its pattern does not compile, or finds something in one
/// of the three lines of the status bar, and then the first of them is named; the
/// message quotes the rule.
pub proof fn status_bar_rules_are_refused(rule: RuleView)
    ensures
        ({
            let source = "(?m)"@ + rule.match_pattern;
            let error = pattern::build_error(source);
            let a = "[hermes] profile: prod | branch: main | 12:04"@;
            let b = "session: my-session | 2026-08-27"@;
            let c = "tmux-watch | working | profile: default"@;
            let named = |line: Seq<char>|
                "rule "@ + text::debug_text(rule.id) + " match pattern "@ + text::debug_text(
                    rule.match_pattern,
                ) + " matches persistent status-bar chrome "@ + text::debug_text(line)
                    + "; this would cause spurious auto-responses — rejecting the rule"@;
            auto_respond::chrome_error(rule) == if error is Some {
                Some("rule "@ + text::debug_text(rule.id) + ": invalid regex: "@ + error->0)
            } else if pattern::regex_finds(source, a) {
                Some(named(a))
            } else if pattern::regex_finds(source, b) {
                Some(named(b))
            } else if pattern::regex_finds(source, c) {
                Some(named(c))
            } else {
                None
            }
        }),
{
}

/// A rule whose pattern or one of whose context patterns does not compile is
/// refused; the pattern comes first, then the contexts in their order, and the
/// message quotes the rule and says which kind it was and why.
pub proof fn rules_that_do_not_compile_are_refused(rule: RuleView, i: int)
    ensures
        ({
            let error = pattern::build_error("(?m)"@ + rule.match_pattern);
            let list = rule.requires_context_allow;
            let first_bad = 0 <= i < list.len() && pattern::build_error("(?m)"@ + list[i]) is Some
                && forall|k: int|
                0 <= k < i ==> pattern::build_error("(?m)"@ + #[trigger] list[k]) is None;
            &&& error is Some ==> auto_respond::rule_error(rule) == Some(
                "rule "@ + text::debug_text(rule.id) + " match regex invalid: "@ + error->0,
            )
            &&& error is None && first_bad ==> auto_respond::rule_error(rule) == Some(
                "rule "@ + text::debug_text(rule.id) + " requiresContextAllow regex invalid: "@
                    + pattern::build_error("(?m)"@ + list[i])->0,
            )
            &&& auto_respond::rule_error(rule) is None <==> error is None && forall|k: int|
                0 <= k < list.len() ==> pattern::build_error("(?m)"@ + #[trigger] list[k]) is None
        }),
{
    contexts_are_checked_in_order(rule.id, rule.requires_context_allow, i);
}

/// The first context pattern that does not compile is the one that is told.
proof fn contexts_are_checked_in_order(id: Seq<char>, list: Seq<Seq<char>>, i: int)
    ensures
        (forall|k: int|
            0 <= k < list.len() ==> pattern::build_error("(?m)"@ + #[trigger] list[k]) is None)
            <==> auto_respond::context_error(id, list) is None,
        0 <= i < list.len() && (forall|k: int|
            0 <= k < i ==> pattern::build_error("(?m)"@ + #[trigger] list[k]) is None)
            && pattern::build_error("(?m)"@ + list[i]) is Some ==> auto_respond::context_error(
            id,
            list,
        ) == Some(
            "rule "@ + text::debug_text(id) + " requiresContextAllow regex invalid: "@
                + pattern::build_error("(?m)"@ + list[i])->0,
        ),
    decreases list.len(),
{
    if list.len() > 0 {
        let rest = list.drop_first();
        contexts_are_checked_in_order(id, rest, i - 1);
        assert(list.first() == list[0]);
        if pattern::build_error("(?m)"@ + list[0]) is None {
            assert forall|k: int|
                0 <= k < rest.len() && pattern::build_error(
                    "(?m)"@ + list[k + 1],
                ) is None implies pattern::build_error("(?m)"@ + #[trigger] rest[k]) is None by {
                assert(rest[k] == list[k + 1]);
            }
            if auto_respond::context_error(id, list) is None {
                assert forall|k: int| 0 <= k < list.len() implies pattern::build_error(
                    "(?m)"@ + #[trigger] list[k],
                ) is None by {
                    if k > 0 {
                        assert(rest[k - 1] == list[k]);
                    }
                }
            }
            if i > 0 && i < list.len() {
                assert(rest[i - 1] == list[i]);
            }
        }
    }
}

/// A configuration is refused exactly where an enabled rule is, for the first such
/// rule, and for the status bar before anything else; rules that are switched off
/// are not looked at.
pub proof fn configurations_are_refused_for_their_first_bad_rule(rules: Seq<RuleView>, i: int)
    ensures
        ({
            let fine = |r: RuleView|
                !r.enabled || (auto_respond::chrome_error(r) is None && auto_respond::rule_error(
                    r,
                ) is None);
            &&& auto_respond::config_error(rules) is None <==> forall|k: int|
                0 <= k < rules.len() ==> fine(#[trigger] rules[k])
            &&& 0 <= i < rules.len() && !fine(rules[i]) && (forall|k: int|
                0 <= k < i ==> fine(#[trigger] rules[k])) ==> auto_respond::config_error(rules)
                == if auto_respond::chrome_error(rules[i]) is Some {
                auto_respond::chrome_error(rules[i])
            } else {
                auto_respond::rule_error(rules[i])
            }
        }),
    decreases rules.len(),
{
    let fine = |r: RuleView|
        !r.enabled || (auto_respond::chrome_error(r) is None && auto_respond::rule_error(r) is None);
    if rules.len() > 0 {
        let rest = rules.drop_first();
        configurations_are_refused_for_their_first_bad_rule(rest, i - 1);
        assert(rules.first() == rules[0]);
        if fine(rules[0]) {
            if forall|k: int| 0 <= k < rules.len() ==> fine(#[trigger] rules[k]) {
                assert forall|k: int| 0 <= k < rest.len() implies fine(#[trigger] rest[k]) by {
                    assert(rest[k] == rules[k + 1]);
                }
            }
            if auto_respond::config_error(rules) is None {
                assert forall|k: int| 0 <= k < rules.len() implies fine(#[trigger] rules[k]) by {
                    if k > 0 {
                        assert(rest[k - 1] == rules[k]);
                    }
                }
            }
            if 0 < i < rules.len() && (forall|k: int| 0 <= k < i ==> fine(#[trigger] rules[k])) {
                assert forall|k: int| 0 <= k < i - 1 implies fine(#[trigger] rest[k]) by {
                    assert(rest[k] == rules[k + 1]);
                }
                assert(rest[i - 1] == rules[i]);
            }
        }
    }
}

/// What is written up of an answer and of a rule that rests, word for word.
pub proof fn entries_on_rules_read(id: Seq<char>, keys: Seq<Seq<char>>, limit: nat, now: u128)
    ensures
        auto_respond::answer_entry(id, keys).what
            == "Auto-responded to waiting_input prompt via rule "@ + text::debug_text(id)
            + " (keys: "@ + text::joined(keys, ", "@) + ")"@,
        auto_respond::answer_entry(id, keys).why
            == "Auto-respond rule matched the settled delta; zero LLM tokens consumed."@,
        auto_respond::answer_entry(id, keys).how_to_replicate
            == "Configure the same rule in tmux-watch.auto-respond.json for other profiles."@,
        auto_respond::answer_stamp(id, now) == text::signed_decimal((now / 1000) as i64 as int)
            + "-auto-respond-"@ + text::decimal((now % 1000) as nat) + "ms."@ + id,
        auto_respond::suspension_entry(id, limit).what == "Auto-respond rule "@ + text::debug_text(
            id,
        ) + " suspended: per-rule-per-hour limit ("@ + text::decimal(limit) + ") reached"@,
        auto_respond::suspension_entry(id, limit).why
            == "Rate limit exceeded to prevent runaway auto-responses."@,
        auto_respond::suspension_entry(id, limit).how_to_replicate
            == "Raise maxAutoResponsesPerRulePerHour in tmux-watch.auto-respond.json if this is expected."@,
{
}

/// Of the three lines of the status bar the first that is hit is named, and none
/// where none is.
pub proof fn the_first_line_that_is_hit_is_named(rule: RuleView, hits: Seq<bool>)
    requires
        hits.len() == 3,
    ensures
        auto_respond::chrome_verdict(rule, hits) is None <==> !hits[0] && !hits[1] && !hits[2],
        ({
            let line = if hits[0] {
                "[hermes] profile: prod | branch: main | 12:04"@
            } else if hits[1] {
                "session: my-session | 2026-08-27"@
            } else {
                "tmux-watch | working | profile: default"@
            };
            hits[0] || hits[1] || hits[2] ==> auto_respond::chrome_verdict(rule, hits) == Some(
                "rule "@ + text::debug_text(rule.id) + " match pattern "@ + text::debug_text(
                    rule.match_pattern,
                ) + " matches persistent status-bar chrome "@ + text::debug_text(line)
                    + "; this would cause spurious auto-responses — rejecting the rule"@,
            )
        }),
{
}

} // verus!
