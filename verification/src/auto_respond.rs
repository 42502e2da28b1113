//! Answers prompts without the decide loop: rules that match a settled delta
//! name the keys to send, within limits on how often.
use crate::changelog;
use crate::changelog::ChangelogEntry;
use crate::classifier;
use crate::pattern;
use crate::pattern::Pattern;
use crate::text;
use crate::types;
use crate::types::{
    AutoRespondConfig, AutoRespondLimits, AutoRespondNotify, AutoRespondRule, RuleRisk, RuleView,
};
use vstd::prelude::*;
use vstd::string::StringExecFns;

verus! {

/// What is remembered of a rule while the program runs.
struct RuleState {
    /// When the rule answered, in milliseconds.
    responses_this_hour: Vec<u128>,
    /// Set when the hourly limit was hit; the rule then rests for the session.
    suspended: bool,
}

/// A rule with its compiled patterns.
pub struct CompiledRule {
    pub rule: AutoRespondRule,
    match_re: Pattern,
    context_allow_res: Vec<Pattern>,
    state: RuleState,
}

/// A rule, when it answered, and whether it rests.
#[verifier::ext_equal]
pub struct RuleModel {
    pub rule: RuleView,
    pub answered: Seq<u128>,
    pub suspended: bool,
}

/// A rule that has not answered yet.
pub open spec fn fresh(rule: RuleView) -> RuleModel {
    RuleModel { rule, answered: Seq::empty(), suspended: false }
}

/// The times that lie at most an hour before `now`.
pub open spec fn within_hour(times: Seq<u128>, now: u128) -> Seq<u128> {
    times.filter(|t: u128| t + 3_600_000 >= now)
}

/// The pattern of the rule hits the delta.
pub open spec fn hits(rule: RuleView, delta: Seq<char>) -> bool {
    pattern::regex_finds(pattern::multiline(rule.match_pattern), delta)
}

/// One of the context patterns hits the summary, or there are none.
pub open spec fn allowed_by(rule: RuleView, summary: Seq<char>) -> bool {
    rule.requires_context_allow.len() == 0 || classifier::any_finds(
        classifier::all_multiline(rule.requires_context_allow),
        summary,
    )
}

/// What is said of a rule: its name in quotes, a label and an error.
pub open spec fn rule_message(id: Seq<char>, label: Seq<char>, error: Seq<char>) -> Seq<char> {
    "rule "@ + text::debug_text(id) + label + error
}

/// The first error among the context patterns.
pub open spec fn context_error(id: Seq<char>, list: Seq<Seq<char>>) -> Option<Seq<char>>
    decreases list.len(),
{
    if list.len() == 0 {
        None
    } else {
        match pattern::build_error(pattern::multiline(list.first())) {
            Some(error) => Some(
                rule_message(id, " requiresContextAllow regex invalid: "@, error),
            ),
            None => context_error(id, list.drop_first()),
        }
    }
}

/// Why the rule does not compile, if it does not.
pub open spec fn rule_error(rule: RuleView) -> Option<Seq<char>> {
    match pattern::build_error(pattern::multiline(rule.match_pattern)) {
        Some(error) => Some(rule_message(rule.id, " match regex invalid: "@, error)),
        None => context_error(rule.id, rule.requires_context_allow),
    }
}

impl View for CompiledRule {
    type V = RuleModel;

    closed spec fn view(&self) -> RuleModel {
        RuleModel {
            rule: self.rule@,
            answered: self.state.responses_this_hour@,
            suspended: self.state.suspended,
        }
    }
}

/// Compiles the context patterns of the rule with this name.
fn compile_contexts(id: &str, list: &Vec<String>) -> (r: Result<Vec<Pattern>, String>)
    ensures
        match r {
            Ok(compiled) => context_error(id@, text::views(list@)) is None && classifier::sources(
                compiled@,
            ) == classifier::all_multiline(text::views(list@)),
            Err(message) => context_error(id@, text::views(list@)) == Some(message@),
        },
{
    let mut compiled: Vec<Pattern> = Vec::new();
    let mut i: usize = 0;
    let ghost all = text::views(list@);
    proof {
        assert(all.skip(0) =~= all);
    }
    while i < list.len()
        invariant
            i <= list@.len(),
            all == text::views(list@),
            classifier::sources(compiled@) == classifier::all_multiline(all.take(i as int)),
            context_error(id@, all) == context_error(id@, all.skip(i as int)),
        decreases list@.len() - i,
    {
        proof {
            assert(all.skip(i as int).first() == list@[i as int]@);
            assert(all.skip(i as int).drop_first() =~= all.skip(i + 1));
        }
        match pattern::compile_multiline(list[i].as_str()) {
            Ok(re) => {
                let ghost before = classifier::sources(compiled@);
                compiled.push(re);
                proof {
                    assert(classifier::sources(compiled@) =~= before.push(
                        re.source(),
                    ));
                    assert(all.take(i + 1) =~= all.take(i as int).push(all[i as int]));
                    assert(classifier::all_multiline(all.take(i + 1))
                        =~= classifier::all_multiline(all.take(i as int)).push(
                        pattern::multiline(all[i as int]),
                    ));
                }
            },
            Err(error) => {
                return Err(
                    message_on(id, " requiresContextAllow regex invalid: ", error.as_str()),
                );
            },
        }
        i += 1;
    }
    proof {
        assert(all.take(i as int) =~= all);
    }
    Ok(compiled)
}

/// The name in quotes, the label and the error behind it.
fn message_on(id: &str, label: &str, error: &str) -> (r: String)
    ensures
        r@ == rule_message(id@, label@, error@),
{
    let head = text::concat3("rule ", text::quoted(id).as_str(), label);
    text::concat2(head.as_str(), error)
}

impl CompiledRule {
    /// The compiled patterns are those of the rule, each in multiline mode.
    pub closed spec fn wf(&self) -> bool {
        &&& self.match_re.source() == pattern::multiline(self.rule@.match_pattern)
        &&& classifier::sources(self.context_allow_res@) == classifier::all_multiline(
            self.rule@.requires_context_allow,
        )
    }

    /// Compiles the patterns of a rule, or says which does not compile, and why.
    pub fn try_compile(rule: AutoRespondRule) -> (r: Result<Self, String>)
        ensures
            match r {
                Ok(compiled) => rule_error(rule@) is None && compiled.wf() && compiled@ == fresh(
                    rule@,
                ),
                Err(message) => rule_error(rule@) == Some(message@),
            },
    {
        let match_re = match pattern::compile_multiline(rule.match_pattern.as_str()) {
            Ok(re) => re,
            Err(error) => {
                return Err(message_on(rule.id.as_str(), " match regex invalid: ", error.as_str()));
            },
        };
        let context_allow_res = match compile_contexts(
            rule.id.as_str(),
            &rule.requires_context_allow,
        ) {
            Ok(list) => list,
            Err(message) => {
                return Err(message);
            },
        };
        let state = RuleState { responses_this_hour: Vec::new(), suspended: false };
        Ok(CompiledRule { rule, match_re, context_allow_res, state })
    }

    /// The source of the compiled pattern.
    pub fn match_source(&self) -> (r: String)
        requires
            self.wf(),
        ensures
            r@ == pattern::multiline(self@.rule.match_pattern),
    {
        self.match_re.as_str().to_owned()
    }

    /// True if the pattern of the rule hits the delta.
    pub fn matches_delta(&self, delta: &str) -> (r: bool)
        requires
            self.wf(),
        ensures
            r == hits(self@.rule, delta@),
    {
        pattern::finds(&self.match_re, delta)
    }

    /// True if one of the context patterns hits the rolling summary, and where there
    /// are none, so that `Safe` rules need not name any.
    pub fn context_allows(&self, summary: &str) -> (r: bool)
        requires
            self.wf(),
        ensures
            r == allowed_by(self@.rule, summary@),
    {
        let ghost all = classifier::sources(self.context_allow_res@);
        proof {
            assert(all.len() == self@.rule.requires_context_allow.len());
        }
        if self.context_allow_res.len() == 0 {
            return true;
        }
        let mut i: usize = 0;
        while i < self.context_allow_res.len()
            invariant
                i <= self.context_allow_res@.len(),
                self.wf(),
                all == classifier::sources(self.context_allow_res@),
                forall|k: int| 0 <= k < i ==> !pattern::regex_finds(#[trigger] all[k], summary@),
            decreases self.context_allow_res@.len() - i,
        {
            assert(all[i as int] == self.context_allow_res@[i as int].source());
            if pattern::finds(&self.context_allow_res[i], summary) {
                assert(classifier::any_finds(all, summary@));
                return true;
            }
            i += 1;
        }
        false
    }

    /// Whether the rule may answer, given whether it hits the delta and whether the
    /// context allows it.
    fn may_answer(&self, hit: bool, allowed: bool) -> (r: bool)
        ensures
            r == (!self@.suspended && hit && (self@.rule.risk == RuleRisk::Confirm ==> allowed
                && self@.rule.requires_context_allow.len() > 0)),
    {
        assert(self@.rule.requires_context_allow.len() == self.rule.requires_context_allow@.len());
        !self.state.suspended && hit && (self.rule.risk != RuleRisk::Confirm || (allowed
            && self.rule.requires_context_allow.len() > 0))
    }

    /// Forgets the answers that lie more than an hour back and counts the rest.
    fn count_in_hour(&mut self, now_ms: u128) -> (r: usize)
        ensures
            final(self)@ == (RuleModel {
                answered: within_hour(old(self)@.answered, now_ms),
                ..old(self)@
            }),
            old(self).wf() ==> final(self).wf(),
            r == final(self)@.answered.len(),
    {
        let cutoff: u128 = now_ms.saturating_sub(3_600_000);
        let ghost keep = |t: u128| t + 3_600_000 >= now_ms;
        let ghost all = self.state.responses_this_hour@;
        let mut kept: Vec<u128> = Vec::new();
        let mut i: usize = 0;
        proof {
            assert(all.take(0).filter(keep) =~= Seq::empty()) by {
                reveal(Seq::filter);
            }
        }
        while i < self.state.responses_this_hour.len()
            invariant
                i <= self.state.responses_this_hour@.len(),
                all == self.state.responses_this_hour@,
                cutoff == (if now_ms >= 3_600_000 {
                    now_ms - 3_600_000
                } else {
                    0
                }),
                keep == (|t: u128| t + 3_600_000 >= now_ms),
                kept@ == all.take(i as int).filter(keep),
            decreases self.state.responses_this_hour@.len() - i,
        {
            let t: u128 = self.state.responses_this_hour[i];
            proof {
                assert(all.take(i + 1) =~= all.take(i as int).push(t));
                all.take(i as int).lemma_filter_push(t, keep);
            }
            if t >= cutoff {
                kept.push(t);
            }
            i += 1;
        }
        proof {
            assert(all.take(i as int) =~= all);
        }
        self.state.responses_this_hour = kept;
        self.state.responses_this_hour.len()
    }
}

/// Lines of the status bar that stay on the screen whatever the pane does.
pub open spec fn chrome_samples() -> Seq<Seq<char>> {
    seq![
        "[hermes] profile: prod | branch: main | 12:04"@,
        "session: my-session | 2026-08-27"@,
        "tmux-watch | working | profile: default"@,
    ]
}

/// Whether a pattern hits each of the samples.
pub open spec fn chrome_hits(source: Seq<char>) -> Seq<bool> {
    chrome_samples().map_values(|sample: Seq<char>| pattern::regex_finds(source, sample))
}

/// What is said of a rule that hits a sample.
pub open spec fn chrome_message(rule: RuleView, sample: Seq<char>) -> Seq<char> {
    "rule "@ + text::debug_text(rule.id) + " match pattern "@ + text::debug_text(rule.match_pattern)
        + " matches persistent status-bar chrome "@ + text::debug_text(sample)
        + "; this would cause spurious auto-responses — rejecting the rule"@
}

/// What is said of a rule, given which of the samples it hits: the first hit
/// counts.
pub open spec fn chrome_verdict(rule: RuleView, hits: Seq<bool>) -> Option<Seq<char>> {
    if hits[0] {
        Some(chrome_message(rule, chrome_samples()[0]))
    } else if hits[1] {
        Some(chrome_message(rule, chrome_samples()[1]))
    } else if hits[2] {
        Some(chrome_message(rule, chrome_samples()[2]))
    } else {
        None
    }
}

/// Why the rule would answer the status bar, or cannot be checked for it.
pub open spec fn chrome_error(rule: RuleView) -> Option<Seq<char>> {
    let source = pattern::multiline(rule.match_pattern);
    match pattern::build_error(source) {
        Some(error) => Some(rule_message(rule.id, ": invalid regex: "@, error)),
        None => chrome_verdict(rule, chrome_hits(source)),
    }
}

fn chrome_text(rule: &AutoRespondRule, sample: &str) -> (r: String)
    ensures
        r@ == chrome_message(rule@, sample@),
{
    let mut r = text::concat3("rule ", text::quoted(rule.id.as_str()).as_str(), " match pattern ");
    r.append(text::quoted(rule.match_pattern.as_str()).as_str());
    r.append(" matches persistent status-bar chrome ");
    r.append(text::quoted(sample).as_str());
    r.append("; this would cause spurious auto-responses — rejecting the rule");
    r
}

/// Rejects a rule by which of the three lines of the status bar it hits.
pub fn reject_chrome(rule: &AutoRespondRule, hits: &[bool]) -> (r: Result<(), String>)
    requires
        hits@.len() == 3,
    ensures
        match r {
            Ok(_) => chrome_verdict(rule@, hits@) is None,
            Err(message) => chrome_verdict(rule@, hits@) == Some(message@),
        },
        r is Ok <==> !hits@[0] && !hits@[1] && !hits@[2],
{
    if hits[0] {
        Err(chrome_text(rule, "[hermes] profile: prod | branch: main | 12:04"))
    } else if hits[1] {
        Err(chrome_text(rule, "session: my-session | 2026-08-27"))
    } else if hits[2] {
        Err(chrome_text(rule, "tmux-watch | working | profile: default"))
    } else {
        Ok(())
    }
}

/// Refuses a rule whose pattern would hit lines of the status bar that never
/// leave the screen.
pub fn validate_rule_not_chrome(rule: &AutoRespondRule) -> (r: Result<(), String>)
    ensures
        match r {
            Ok(_) => chrome_error(rule@) is None,
            Err(message) => chrome_error(rule@) == Some(message@),
        },
{
    let re = match pattern::compile_multiline(rule.match_pattern.as_str()) {
        Ok(re) => re,
        Err(error) => {
            return Err(message_on(rule.id.as_str(), ": invalid regex: ", error.as_str()));
        },
    };
    let mut found: Vec<bool> = Vec::new();
    found.push(pattern::finds(&re, "[hermes] profile: prod | branch: main | 12:04"));
    found.push(pattern::finds(&re, "session: my-session | 2026-08-27"));
    found.push(pattern::finds(&re, "tmux-watch | working | profile: default"));
    proof {
        assert(found@ =~= chrome_hits(pattern::multiline(rule@.match_pattern)));
    }
    reject_chrome(rule, found.as_slice())
}

/// Decides which rule answers a prompt, and keeps count.
pub struct AutoResponder {
    enabled: bool,
    lists_rules: bool,
    limits: AutoRespondLimits,
    notify: AutoRespondNotify,
    rules: Vec<CompiledRule>,
    /// The answers since the program started.
    session_total: usize,
    /// When the last answer was sent.
    last_response_ms: Option<u128>,
}

/// What an answer did.
pub struct AutoRespondOutcome {
    /// The name of the rule that fired.
    pub rule_id: String,
    /// The keys that were sent.
    pub keys: Vec<String>,
}

/// What is to be done about a prompt, before anything is sent.
pub enum AutoRespondDecision {
    /// Automatic answers are switched off, or there are no rules.
    Disabled,
    /// A rule matched and should fire. The caller sends the keys, then commits.
    ShouldFire { rule_index: usize, keys: Vec<String> },
    /// Nothing matched or was eligible: the decide loop is asked.
    NoMatch,
}

/// A decision as plain text.
#[verifier::ext_equal]
pub enum DecisionView {
    Disabled,
    ShouldFire { rule_index: int, keys: Seq<Seq<char>> },
    NoMatch,
}

impl View for AutoRespondDecision {
    type V = DecisionView;

    open spec fn view(&self) -> DecisionView {
        match self {
            AutoRespondDecision::Disabled => DecisionView::Disabled,
            AutoRespondDecision::ShouldFire { rule_index, keys } => DecisionView::ShouldFire {
                rule_index: *rule_index as int,
                keys: text::views(keys@),
            },
            AutoRespondDecision::NoMatch => DecisionView::NoMatch,
        }
    }
}

/// The settings, the rules with what is remembered of them, and the counts.
#[verifier::ext_equal]
pub struct ResponderState {
    pub enabled: bool,
    /// The configuration lists rules, be they switched on or off.
    pub lists_rules: bool,
    pub limits: AutoRespondLimits,
    pub notify: AutoRespondNotify,
    pub rules: Seq<RuleModel>,
    pub session_total: nat,
    pub last_response_ms: Option<u128>,
}

/// Why a configuration is refused: the first enabled rule that would answer the
/// status bar or does not compile.
pub open spec fn config_error(rules: Seq<RuleView>) -> Option<Seq<char>>
    decreases rules.len(),
{
    if rules.len() == 0 {
        None
    } else if !rules.first().enabled {
        config_error(rules.drop_first())
    } else {
        match chrome_error(rules.first()) {
            Some(message) => Some(message),
            None => match rule_error(rules.first()) {
                Some(message) => Some(message),
                None => config_error(rules.drop_first()),
            },
        }
    }
}

/// The enabled rules in order, none of which has answered yet.
pub open spec fn enabled_rules(rules: Seq<RuleView>) -> Seq<RuleModel> {
    rules.filter(|r: RuleView| r.enabled).map_values(|r: RuleView| fresh(r))
}

/// The first place at or behind `from` where a flag is set; the length where
/// there is none.
pub open spec fn first_set(flags: Seq<bool>, from: int) -> int
    decreases flags.len() - from,
{
    if from >= flags.len() {
        flags.len() as int
    } else if flags[from] {
        from
    } else {
        first_set(flags, from + 1)
    }
}

impl ResponderState {
    /// The state that a configuration starts with.
    pub open spec fn initial(config: AutoRespondConfig) -> ResponderState {
        ResponderState {
            enabled: config.enabled,
            lists_rules: config.rules@.len() > 0,
            limits: config.limits,
            notify: config.notify,
            rules: enabled_rules(types::rule_views(config.rules@)),
            session_total: 0,
            last_response_ms: None,
        }
    }

    /// Automatic answers are switched off, or there are no rules.
    pub open spec fn off(self) -> bool {
        !self.enabled || !self.lists_rules
    }

    /// As many answers were sent as a session may have.
    pub open spec fn spent(self) -> bool {
        self.session_total >= self.limits.max_auto_responses_per_session
    }

    /// The last answer lies less than the cooldown back. One dated later than
    /// `now` counts as just sent.
    pub open spec fn cooling(self, now: u128) -> bool {
        match self.last_response_ms {
            Some(last) => if now >= last {
                now - last < self.limits.cooldown_ms_after_response
            } else {
                0 < self.limits.cooldown_ms_after_response
            },
            None => false,
        }
    }

    /// The rule may answer, given whether it hits the delta and whether the
    /// context allows it. A `Confirm` rule that names no context never may.
    pub open spec fn eligible(self, i: int, hit: bool, allowed: bool) -> bool {
        !self.rules[i].suspended && hit && (self.rules[i].rule.risk == RuleRisk::Confirm
            ==> allowed && self.rules[i].rule.requires_context_allow.len() > 0)
    }

    /// Which rules may answer.
    pub open spec fn eligible_rules(self, hits: Seq<bool>, allowed: Seq<bool>) -> Seq<bool> {
        Seq::new(self.rules.len(), |i: int| self.eligible(i, hits[i], allowed[i]))
    }

    /// The state with the answers of one rule cut to the last hour.
    pub open spec fn pruned(self, i: int, now: u128) -> ResponderState {
        ResponderState {
            rules: self.rules.update(
                i,
                RuleModel {
                    answered: within_hour(self.rules[i].answered, now),
                    ..self.rules[i]
                },
            ),
            ..self
        }
    }

    /// The state with one rule put to rest.
    pub open spec fn suspending(self, i: int) -> ResponderState {
        ResponderState {
            rules: self.rules.update(i, RuleModel { suspended: true, ..self.rules[i] }),
            ..self
        }
    }

    /// The rule whose turn it is to answer, if any: the first that may, while
    /// nothing else stands against an answer.
    pub open spec fn turn(self, hits: Seq<bool>, allowed: Seq<bool>, now: u128) -> Option<int> {
        let i = first_set(self.eligible_rules(hits, allowed), 0);
        if self.off() || self.spent() || self.cooling(now) || i >= self.rules.len() {
            None
        } else {
            Some(i)
        }
    }

    /// The rule has answered as often within the hour as it may.
    pub open spec fn exhausted(self, i: int, now: u128) -> bool {
        within_hour(self.rules[i].answered, now).len()
            >= self.limits.max_auto_responses_per_rule_per_hour
    }

    /// The rule that is put to rest, if any: the one whose turn it is, where it has
    /// used up its hour.
    pub open spec fn put_to_rest(
        self,
        hits: Seq<bool>,
        allowed: Seq<bool>,
        now: u128,
    ) -> Option<int> {
        match self.turn(hits, allowed, now) {
            Some(i) => if self.exhausted(i, now) {
                Some(i)
            } else {
                None
            },
            None => None,
        }
    }

    /// What is decided, given which rules hit the delta and which are allowed by
    /// the context, and the state afterwards.
    pub open spec fn decided(self, hits: Seq<bool>, allowed: Seq<bool>, now: u128) -> (
        DecisionView,
        ResponderState,
    ) {
        match self.turn(hits, allowed, now) {
            None => (
                if self.off() {
                    DecisionView::Disabled
                } else {
                    DecisionView::NoMatch
                },
                self,
            ),
            Some(i) => if self.exhausted(i, now) {
                (DecisionView::NoMatch, self.pruned(i, now).suspending(i))
            } else {
                (
                    DecisionView::ShouldFire { rule_index: i, keys: self.rules[i].rule.keys },
                    self.pruned(i, now),
                )
            },
        }
    }

    /// Which rules hit the delta.
    pub open spec fn hits(self, delta: Seq<char>) -> Seq<bool> {
        self.rules.map_values(|m: RuleModel| hits(m.rule, delta))
    }

    /// Which rules the context allows.
    pub open spec fn allowances(self, summary: Seq<char>) -> Seq<bool> {
        self.rules.map_values(|m: RuleModel| allowed_by(m.rule, summary))
    }

    /// The state after the keys of a rule were sent.
    pub open spec fn committed(self, i: int, now: u128) -> ResponderState {
        ResponderState {
            rules: self.rules.update(
                i,
                RuleModel { answered: self.rules[i].answered.push(now), ..self.rules[i] },
            ),
            session_total: self.session_total + 1,
            last_response_ms: Some(now),
            ..self
        }
    }
}

/// The rules and what is remembered of them.
pub open spec fn models(rules: Seq<CompiledRule>) -> Seq<RuleModel> {
    rules.map_values(|c: CompiledRule| c@)
}

impl View for AutoResponder {
    type V = ResponderState;

    closed spec fn view(&self) -> ResponderState {
        ResponderState {
            enabled: self.enabled,
            lists_rules: self.lists_rules,
            limits: self.limits,
            notify: self.notify,
            rules: models(self.rules@),
            session_total: self.session_total as nat,
            last_response_ms: self.last_response_ms,
        }
    }
}

impl AutoResponder {
    /// Every rule carries its own compiled patterns.
    pub closed spec fn wf(&self) -> bool {
        forall|i: int| 0 <= i < self.rules@.len() ==> (#[trigger] self.rules@[i]).wf()
    }

    /// Compiles the enabled rules, or says why the first bad one is refused.
    pub fn new(config: AutoRespondConfig) -> (r: Result<Self, String>)
        ensures
            match r {
                Ok(responder) => config_error(types::rule_views(config.rules@)) is None
                    && responder.wf() && responder@ == ResponderState::initial(config),
                Err(message) => config_error(types::rule_views(config.rules@)) == Some(message@),
            },
    {
        let ghost all = types::rule_views(config.rules@);
        let ghost keep = |r: RuleView| r.enabled;
        let mut rules: Vec<CompiledRule> = Vec::new();
        let mut i: usize = 0;
        proof {
            assert(all.skip(0) =~= all);
            assert(models(rules@) =~= enabled_rules(all.take(0))) by {
                reveal(Seq::filter);
            }
        }
        while i < config.rules.len()
            invariant
                i <= config.rules@.len(),
                all == types::rule_views(config.rules@),
                keep == (|r: RuleView| r.enabled),
                config_error(all) == config_error(all.skip(i as int)),
                models(rules@) == enabled_rules(all.take(i as int)),
                forall|k: int| 0 <= k < rules@.len() ==> (#[trigger] rules@[k]).wf(),
            decreases config.rules@.len() - i,
        {
            let ghost before = models(rules@);
            proof {
                assert(all.skip(i as int).first() == config.rules@[i as int]@);
                assert(all.skip(i as int).drop_first() =~= all.skip(i + 1));
                assert(all.take(i + 1) =~= all.take(i as int).push(all[i as int]));
                all.take(i as int).lemma_filter_push(all[i as int], keep);
            }
            if config.rules[i].enabled {
                if let Err(message) = validate_rule_not_chrome(&config.rules[i]) {
                    return Err(message);
                }
                match CompiledRule::try_compile(config.rules[i].clone()) {
                    Ok(compiled) => {
                        rules.push(compiled);
                        proof {
                            assert(models(rules@) =~= before.push(fresh(all[i as int])));
                        }
                    },
                    Err(message) => {
                        return Err(message);
                    },
                }
            }
            proof {
                assert(models(rules@) =~= enabled_rules(all.take(i + 1)));
            }
            i += 1;
        }
        proof {
            assert(all.take(i as int) =~= all);
        }
        Ok(
            AutoResponder {
                enabled: config.enabled,
                lists_rules: config.rules.len() > 0,
                limits: config.limits,
                notify: config.notify,
                rules,
                session_total: 0,
                last_response_ms: None,
            },
        )
    }

    /// A responder without rules that is switched off.
    pub fn switched_off(limits: AutoRespondLimits, notify: AutoRespondNotify) -> (r: Self)
        ensures
            r.wf(),
            r@ == (ResponderState {
                enabled: false,
                lists_rules: false,
                limits,
                notify,
                rules: Seq::empty(),
                session_total: 0,
                last_response_ms: None,
            }),
    {
        let r = AutoResponder {
            enabled: false,
            lists_rules: false,
            limits,
            notify,
            rules: Vec::new(),
            session_total: 0,
            last_response_ms: None,
        };
        assert(models(r.rules@) =~= Seq::empty());
        r
    }

    /// Which rules hit the delta.
    pub(crate) fn rule_hits(&self, delta: &str) -> (r: Vec<bool>)
        requires
            self.wf(),
        ensures
            r@ == self@.hits(delta@),
    {
        let mut r: Vec<bool> = Vec::new();
        let mut i: usize = 0;
        while i < self.rules.len()
            invariant
                i <= self.rules@.len(),
                self.wf(),
                r@ == self@.hits(delta@).take(i as int),
            decreases self.rules@.len() - i,
        {
            r.push(self.rules[i].matches_delta(delta));
            proof {
                let all = self@.hits(delta@);
                assert(all.take(i + 1) =~= all.take(i as int).push(all[i as int]));
            }
            i += 1;
        }
        proof {
            assert(self@.hits(delta@).take(i as int) =~= self@.hits(delta@));
        }
        r
    }

    /// Which rules the rolling summary allows.
    pub(crate) fn rule_allowances(&self, summary: &str) -> (r: Vec<bool>)
        requires
            self.wf(),
        ensures
            r@ == self@.allowances(summary@),
    {
        let mut r: Vec<bool> = Vec::new();
        let mut i: usize = 0;
        while i < self.rules.len()
            invariant
                i <= self.rules@.len(),
                self.wf(),
                r@ == self@.allowances(summary@).take(i as int),
            decreases self.rules@.len() - i,
        {
            r.push(self.rules[i].context_allows(summary));
            proof {
                let all = self@.allowances(summary@);
                assert(all.take(i + 1) =~= all.take(i as int).push(all[i as int]));
            }
            i += 1;
        }
        proof {
            assert(self@.allowances(summary@).take(i as int) =~= self@.allowances(summary@));
        }
        r
    }

    /// Decides by which rules hit the delta and which the context allows. The
    /// first rule that may answer is held against its hourly limit; where that is
    /// reached the rule rests from now on and nothing is answered.
    pub fn decide_given(&mut self, hits: &[bool], allowed: &[bool], now_ms: u128) -> (r:
        AutoRespondDecision)
        requires
            old(self).wf(),
            hits@.len() == old(self)@.rules.len(),
            allowed@.len() == old(self)@.rules.len(),
        ensures
            final(self).wf(),
            (r@, final(self)@) == old(self)@.decided(hits@, allowed@, now_ms),
    {
        self.decide_and_note(hits, allowed, now_ms).0
    }

    /// Decides, and notes the rule that was put to rest on this occasion, if one
    /// was.
    pub fn decide_and_note(&mut self, hits: &[bool], allowed: &[bool], now_ms: u128) -> (r: (
        AutoRespondDecision,
        Option<usize>,
    ))
        requires
            old(self).wf(),
            hits@.len() == old(self)@.rules.len(),
            allowed@.len() == old(self)@.rules.len(),
        ensures
            final(self).wf(),
            (r.0@, final(self)@) == old(self)@.decided(hits@, allowed@, now_ms),
            match r.1 {
                Some(i) => old(self)@.put_to_rest(hits@, allowed@, now_ms) == Some(i as int),
                None => old(self)@.put_to_rest(hits@, allowed@, now_ms) is None,
            },
            r.1 matches Some(i) ==> i < old(self)@.rules.len(),
    {
        if !self.enabled || !self.lists_rules {
            return (AutoRespondDecision::Disabled, None);
        }
        if self.session_total >= self.limits.max_auto_responses_per_session {
            return (AutoRespondDecision::NoMatch, None);
        }
        if let Some(last) = self.last_response_ms {
            if now_ms.saturating_sub(last) < self.limits.cooldown_ms_after_response {
                return (AutoRespondDecision::NoMatch, None);
            }
        }
        let ghost state = self@;
        let ghost flags = state.eligible_rules(hits@, allowed@);
        let mut i: usize = 0;
        while i < self.rules.len() && !self.rules[i].may_answer(hits[i], allowed[i])
            invariant
                i <= self.rules@.len(),
                self@ == state,
                hits@.len() == self.rules@.len(),
                allowed@.len() == self.rules@.len(),
                flags == state.eligible_rules(hits@, allowed@),
                first_set(flags, 0) == first_set(flags, i as int),
            decreases self.rules@.len() - i,
        {
            assert(self.rules@[i as int]@ == state.rules[i as int]);
            i += 1;
        }
        if i == self.rules.len() {
            return (AutoRespondDecision::NoMatch, None);
        }
        assert(self.rules@[i as int]@ == state.rules[i as int]);
        let count: usize = self.rules[i].count_in_hour(now_ms);
        assert(self@ =~= state.pruned(i as int, now_ms));
        if count >= self.limits.max_auto_responses_per_rule_per_hour {
            self.rules[i].state.suspended = true;
            assert(self@ =~= state.pruned(i as int, now_ms).suspending(i as int));
            return (AutoRespondDecision::NoMatch, Some(i));
        }
        let keys = types::copy_strings(self.rules[i].rule.keys.as_slice());
        (AutoRespondDecision::ShouldFire { rule_index: i, keys }, None)
    }

    /// The changelog entry on the rule that was put to rest.
    pub(crate) fn suspension(&self, rule_index: usize) -> (r: ChangelogEntry)
        requires
            rule_index < self@.rules.len(),
        ensures
            r@ == suspension_entry(
                self@.rules[rule_index as int].rule.id,
                self@.limits.max_auto_responses_per_rule_per_hour as nat,
            ),
    {
        assert(self.rules@[rule_index as int]@ == self@.rules[rule_index as int]);
        Self::log_suspension(
            self.rules[rule_index].rule.id.as_str(),
            self.limits.max_auto_responses_per_rule_per_hour,
        )
    }

    /// Decides whether a rule answers the delta. Switched off or without rules, it
    /// says so at once.
    pub fn decide(&mut self, delta: &str, rolling_summary: &str, now_ms: u128) -> (r:
        AutoRespondDecision)
        requires
            old(self).wf(),
        ensures
            final(self).wf(),
            (r@, final(self)@) == old(self)@.decided(
                old(self)@.hits(delta@),
                old(self)@.allowances(rolling_summary@),
                now_ms,
            ),
    {
        if !self.enabled || !self.lists_rules {
            return AutoRespondDecision::Disabled;
        }
        let hits = self.rule_hits(delta);
        let allowed = self.rule_allowances(rolling_summary);
        self.decide_given(hits.as_slice(), allowed.as_slice(), now_ms)
    }

    /// Records that the keys of a rule were sent.
    pub fn commit(&mut self, rule_index: usize, keys: &[String], now_ms: u128) -> (r:
        AutoRespondOutcome)
        requires
            old(self).wf(),
            rule_index < old(self)@.rules.len(),
            old(self)@.session_total < usize::MAX,
        ensures
            final(self).wf(),
            final(self)@ == old(self)@.committed(rule_index as int, now_ms),
            r.rule_id@ == old(self)@.rules[rule_index as int].rule.id,
            r.keys@ == keys@,
    {
        let ghost state = self@;
        assert(self.rules@[rule_index as int]@ == state.rules[rule_index as int]);
        self.rules[rule_index].state.responses_this_hour.push(now_ms);
        self.session_total = self.session_total + 1;
        self.last_response_ms = Some(now_ms);
        assert(self@ =~= state.committed(rule_index as int, now_ms));
        AutoRespondOutcome {
            rule_id: self.rules[rule_index].rule.id.clone(),
            keys: types::copy_strings(keys),
        }
    }

    /// True if the rule still hits the fresh content of the pane, so that the
    /// keys are sent to the prompt that was seen. A rule that does not exist hits
    /// nothing.
    pub fn rule_still_matches(&self, rule_index: usize, fresh_content: &str) -> (r: bool)
        requires
            self.wf(),
        ensures
            r == (rule_index < self@.rules.len() && hits(
                self@.rules[rule_index as int].rule,
                fresh_content@,
            )),
    {
        if rule_index < self.rules.len() {
            assert(self.rules@[rule_index as int]@ == self@.rules[rule_index as int]);
            self.rules[rule_index].matches_delta(fresh_content)
        } else {
            false
        }
    }

    pub fn require_stable_idle_ms(&self) -> (r: u64)
        ensures
            r == self@.limits.require_stable_idle_ms,
    {
        self.limits.require_stable_idle_ms
    }

    pub fn telegram_on_every_auto_response(&self) -> (r: bool)
        ensures
            r == self@.notify.telegram_on_every_auto_response,
    {
        self.notify.telegram_on_every_auto_response
    }

    pub fn emit_event_to_decide_loop(&self) -> (r: bool)
        ensures
            r == self@.notify.emit_event_to_decide_loop,
    {
        self.notify.emit_event_to_decide_loop
    }

    /// The changelog entry on a rule that rests because its hourly limit was
    /// reached.
    pub fn log_suspension(rule_id: &str, limit: usize) -> (r: ChangelogEntry)
        ensures
            r@ == suspension_entry(rule_id@, limit as nat),
            r.what@ == "Auto-respond rule "@ + text::debug_text(rule_id@)
                + " suspended: per-rule-per-hour limit ("@ + text::decimal(limit as nat)
                + ") reached"@,
            r.why@ == "Rate limit exceeded to prevent runaway auto-responses."@,
            r.how_to_replicate@
                == "Raise maxAutoResponsesPerRulePerHour in tmux-watch.auto-respond.json if this is expected."@,
    {
        let mut what = text::concat3(
            "Auto-respond rule ",
            text::quoted(rule_id).as_str(),
            " suspended: per-rule-per-hour limit (",
        );
        what.append(text::decimal_text(limit as u128).as_str());
        what.append(") reached");
        ChangelogEntry {
            what,
            why: "Rate limit exceeded to prevent runaway auto-responses.".to_owned(),
            how_to_replicate:
                "Raise maxAutoResponsesPerRulePerHour in tmux-watch.auto-respond.json if this is expected.".to_owned(),
        }
    }
}

/// The changelog entry on an answer.
pub open spec fn answer_entry(rule_id: Seq<char>, keys: Seq<Seq<char>>) -> changelog::EntryView {
    changelog::EntryView {
        what: "Auto-responded to waiting_input prompt via rule "@ + text::debug_text(rule_id)
            + " (keys: "@ + text::joined(keys, ", "@) + ")"@,
        why: "Auto-respond rule matched the settled delta; zero LLM tokens consumed."@,
        how_to_replicate:
            "Configure the same rule in tmux-watch.auto-respond.json for other profiles."@,
    }
}

/// The heading of the changelog entry on an answer. The seconds are taken as a
/// 64-bit number.
pub open spec fn answer_stamp(rule_id: Seq<char>, now: u128) -> Seq<char> {
    text::signed_decimal((now / 1000) as i64 as int) + "-auto-respond-"@ + text::decimal(
        (now % 1000) as nat,
    ) + "ms."@ + rule_id
}

/// The changelog entry on a rule that rests.
pub open spec fn suspension_entry(rule_id: Seq<char>, limit: nat) -> changelog::EntryView {
    changelog::EntryView {
        what: "Auto-respond rule "@ + text::debug_text(rule_id)
            + " suspended: per-rule-per-hour limit ("@ + text::decimal(limit) + ") reached"@,
        why: "Rate limit exceeded to prevent runaway auto-responses."@,
        how_to_replicate:
            "Raise maxAutoResponsesPerRulePerHour in tmux-watch.auto-respond.json if this is expected."@,
    }
}

/// The heading of the changelog entry on a rule that rests.
pub fn suspension_stamp() -> (r: String)
    ensures
        r@ == "rate-limit-suspension"@,
{
    "rate-limit-suspension".to_owned()
}

/// The changelog entry on an answer.
pub fn build_answer_entry(rule_id: &str, keys: &[String]) -> (r: ChangelogEntry)
    ensures
        r@ == answer_entry(rule_id@, text::views(keys@)),
        r.what@ == "Auto-responded to waiting_input prompt via rule "@ + text::debug_text(rule_id@)
            + " (keys: "@ + text::joined(text::views(keys@), ", "@) + ")"@,
        r.why@ == "Auto-respond rule matched the settled delta; zero LLM tokens consumed."@,
        r.how_to_replicate@
            == "Configure the same rule in tmux-watch.auto-respond.json for other profiles."@,
{
    let mut what = text::concat3(
        "Auto-responded to waiting_input prompt via rule ",
        text::quoted(rule_id).as_str(),
        " (keys: ",
    );
    what.append(text::join(keys, ", ").as_str());
    what.append(")");
    ChangelogEntry {
        what,
        why: "Auto-respond rule matched the settled delta; zero LLM tokens consumed.".to_owned(),
        how_to_replicate:
            "Configure the same rule in tmux-watch.auto-respond.json for other profiles.".to_owned(),
    }
}

/// The heading of the changelog entry on an answer.
pub fn build_answer_stamp(rule_id: &str, now_ms: u128) -> (r: String)
    ensures
        r@ == answer_stamp(rule_id@, now_ms),
        r@ == text::signed_decimal((now_ms / 1000) as i64 as int) + "-auto-respond-"@
            + text::decimal((now_ms % 1000) as nat) + "ms."@ + rule_id@,
{
    let secs: i64 = (now_ms / 1000) as i64;
    let millis: u128 = now_ms % 1000;
    let mut r = text::signed_decimal_text(secs);
    r.append("-auto-respond-");
    r.append(text::decimal_text(millis).as_str());
    r.append("ms.");
    r.append(rule_id);
    r
}

} // verus!
