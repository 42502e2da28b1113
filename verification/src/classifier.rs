//! Tells from a delta what the pane is doing, by regular expressions in a fixed
//! order of priority.
use crate::pattern;
use crate::pattern::Pattern;
use crate::text;
use crate::types::{ClassificationResult, PaneState, PatternConfig, PatternSources};
use vstd::prelude::*;

verus! {

/// The compiled patterns of each state.
pub struct CompiledPatterns {
    pub error: Vec<Pattern>,
    pub waiting_input: Vec<Pattern>,
    pub done: Vec<Pattern>,
    pub working: Vec<Pattern>,
}

/// The source of each compiled pattern.
pub open spec fn sources(list: Seq<Pattern>) -> Seq<Seq<char>> {
    list.map_values(|p: Pattern| p.source())
}

impl View for CompiledPatterns {
    type V = PatternSources;

    open spec fn view(&self) -> PatternSources {
        PatternSources {
            error: sources(self.error@),
            waiting_input: sources(self.waiting_input@),
            done: sources(self.done@),
            working: sources(self.working@),
        }
    }
}

/// Each source with multiline mode forced on.
pub open spec fn all_multiline(list: Seq<Seq<char>>) -> Seq<Seq<char>> {
    list.map_values(|s: Seq<char>| pattern::multiline(s))
}

/// The four lists with multiline mode forced on everywhere.
pub open spec fn multiline_patterns(p: PatternSources) -> PatternSources {
    PatternSources {
        error: all_multiline(p.error),
        waiting_input: all_multiline(p.waiting_input),
        done: all_multiline(p.done),
        working: all_multiline(p.working),
    }
}

/// Every source of the list compiles in multiline mode.
pub open spec fn all_compile(list: Seq<Seq<char>>) -> bool {
    forall|i: int|
        0 <= i < list.len() ==> pattern::build_error(
            pattern::multiline(#[trigger] list[i]),
        ) is None
}

/// Every source of the configuration compiles in multiline mode.
pub open spec fn patterns_compile(p: PatternSources) -> bool {
    &&& all_compile(p.error)
    &&& all_compile(p.waiting_input)
    &&& all_compile(p.done)
    &&& all_compile(p.working)
}

/// What is said of a source that does not compile.
pub open spec fn invalid_pattern(source: Seq<char>, error: Seq<char>) -> Seq<char> {
    "invalid pattern "@ + text::debug_text(source) + ": "@ + error
}

/// What is said of the first source of the list that does not compile.
pub open spec fn list_error(list: Seq<Seq<char>>) -> Option<Seq<char>>
    decreases list.len(),
{
    if list.len() == 0 {
        None
    } else {
        match pattern::build_error(pattern::multiline(list.first())) {
            Some(error) => Some(invalid_pattern(list.first(), error)),
            None => list_error(list.drop_first()),
        }
    }
}

/// What is said of the first source of the configuration that does not compile.
pub open spec fn patterns_error(p: PatternSources) -> Option<Seq<char>> {
    match list_error(p.error) {
        Some(e) => Some(e),
        None => match list_error(p.waiting_input) {
            Some(e) => Some(e),
            None => match list_error(p.done) {
                Some(e) => Some(e),
                None => list_error(p.working),
            },
        },
    }
}

/// The first source of the list that finds a match in the delta.
pub open spec fn first_match(list: Seq<Seq<char>>, delta: Seq<char>) -> Option<Seq<char>>
    decreases list.len(),
{
    if list.len() == 0 {
        None
    } else if pattern::regex_finds(list.first(), delta) {
        Some(list.first())
    } else {
        first_match(list.drop_first(), delta)
    }
}

/// The state of highest priority that has a hit, with that hit; `Working`
/// without a pattern when there is none.
pub open spec fn prioritized(
    error: Option<Seq<char>>,
    waiting_input: Option<Seq<char>>,
    done: Option<Seq<char>>,
    working: Option<Seq<char>>,
) -> (PaneState, Option<Seq<char>>) {
    if error is Some {
        (PaneState::Error, error)
    } else if waiting_input is Some {
        (PaneState::WaitingInput, waiting_input)
    } else if done is Some {
        (PaneState::Done, done)
    } else {
        (PaneState::Working, working)
    }
}

/// What the delta is recognised as.
pub open spec fn classified(p: PatternSources, delta: Seq<char>) -> (
    PaneState,
    Option<Seq<char>>,
) {
    prioritized(
        first_match(p.error, delta),
        first_match(p.waiting_input, delta),
        first_match(p.done, delta),
        first_match(p.working, delta),
    )
}

impl View for ClassificationResult {
    type V = (PaneState, Option<Seq<char>>);

    open spec fn view(&self) -> (PaneState, Option<Seq<char>>) {
        (self.state, text::option_view(self.matched_pattern))
    }
}

/// Compiles one source; the error is the text that names the source.
fn compile_one(source: &str) -> (r: Result<Pattern, String>)
    ensures
        match r {
            Ok(re) => pattern::build_error(pattern::multiline(source@)) is None
                && re.source() == pattern::multiline(source@),
            Err(message) => pattern::build_error(pattern::multiline(source@)) matches Some(error)
                && message@ == invalid_pattern(source@, error),
        },
{
    match pattern::compile_multiline(source) {
        Ok(re) => Ok(re),
        Err(error) => {
            let head = text::concat3("invalid pattern ", text::quoted(source).as_str(), ": ");
            Err(text::concat2(head.as_str(), error.as_str()))
        },
    }
}

/// Compiles a list; the error is that of the first source that does not compile.
fn compile_list(list: &Vec<String>) -> (r: Result<Vec<Pattern>, String>)
    ensures
        match r {
            Ok(compiled) => list_error(text::views(list@)) is None && sources(compiled@)
                == all_multiline(text::views(list@)) && all_compile(text::views(list@)),
            Err(message) => list_error(text::views(list@)) == Some(message@) && !all_compile(
                text::views(list@),
            ),
        },
{
    let mut compiled: Vec<Pattern> = Vec::new();
    let mut i: usize = 0;
    let ghost all = text::views(list@);
    proof {
        assert(all.skip(0) =~= all);
    }
    while i < list.len()
        invariant
            i <= list@.len(),
            all == text::views(list@),
            sources(compiled@) == all_multiline(all.take(i as int)),
            all_compile(all.take(i as int)),
            list_error(all) == list_error(all.skip(i as int)),
        decreases list@.len() - i,
    {
        proof {
            assert(all.skip(i as int).first() == list@[i as int]@);
            assert(all.skip(i as int).drop_first() =~= all.skip(i + 1));
            assert(all[i as int] == list@[i as int]@);
        }
        match compile_one(list[i].as_str()) {
            Ok(re) => {
                let ghost before = sources(compiled@);
                compiled.push(re);
                proof {
                    assert(sources(compiled@) =~= before.push(re.source()));
                    assert(all.take(i + 1) =~= all.take(i as int).push(all[i as int]));
                    assert(all_multiline(all.take(i + 1)) =~= all_multiline(
                        all.take(i as int),
                    ).push(pattern::multiline(all[i as int])));
                    assert forall|k: int| 0 <= k < i + 1 implies pattern::build_error(
                        pattern::multiline(#[trigger] all.take(i + 1)[k]),
                    ) is None by {
                        if k < i {
                            assert(all.take(i as int)[k] == all.take(i + 1)[k]);
                        }
                    }
                }
            },
            Err(message) => {
                return Err(message);
            },
        }
        i += 1;
    }
    proof {
        assert(all.take(i as int) =~= all);
        assert(all.skip(i as int).len() == 0);
    }
    Ok(compiled)
}

/// Compiles every pattern in multiline mode, whatever its source says.
pub fn compile_patterns(patterns: &PatternConfig) -> (r: CompiledPatterns)
    requires
        patterns_compile(patterns@),
    ensures
        r@ == multiline_patterns(patterns@),
{
    CompiledPatterns {
        error: compiling_list(&patterns.error),
        waiting_input: compiling_list(&patterns.waiting_input),
        done: compiling_list(&patterns.done),
        working: compiling_list(&patterns.working),
    }
}

/// Compiles a list all of whose sources compile.
fn compiling_list(list: &Vec<String>) -> (r: Vec<Pattern>)
    requires
        all_compile(text::views(list@)),
    ensures
        sources(r@) == all_multiline(text::views(list@)),
{
    match compile_list(list) {
        Ok(compiled) => compiled,
        Err(_) => {
            assert(false);
            Vec::new()
        },
    }
}

/// Compiles every pattern in multiline mode, or says which is the first that
/// does not compile, and why.
pub fn try_compile_patterns(patterns: &PatternConfig) -> (r: Result<CompiledPatterns, String>)
    ensures
        match r {
            Ok(compiled) => patterns_error(patterns@) is None && compiled@ == multiline_patterns(
                patterns@,
            ),
            Err(message) => patterns_error(patterns@) == Some(message@),
        },
        r is Ok <==> patterns_compile(patterns@),
{
    if let Err(message) = compile_list(&patterns.error) {
        return Err(message);
    }
    if let Err(message) = compile_list(&patterns.waiting_input) {
        return Err(message);
    }
    if let Err(message) = compile_list(&patterns.done) {
        return Err(message);
    }
    if let Err(message) = compile_list(&patterns.working) {
        return Err(message);
    }
    Ok(compile_patterns(patterns))
}

/// The first pattern of the list that finds a match in the delta.
fn first_hit(list: &Vec<Pattern>, delta: &str) -> (r: Option<String>)
    ensures
        text::option_view(r) == first_match(sources(list@), delta@),
{
    let mut i: usize = 0;
    let ghost all = sources(list@);
    proof {
        assert(all.skip(0) =~= all);
    }
    while i < list.len()
        invariant
            i <= list@.len(),
            all == sources(list@),
            first_match(all, delta@) == first_match(all.skip(i as int), delta@),
        decreases list@.len() - i,
    {
        proof {
            assert(all.skip(i as int).first() == list@[i as int].source());
            assert(all.skip(i as int).drop_first() =~= all.skip(i + 1));
        }
        if pattern::finds(&list[i], delta) {
            return Some(list[i].as_str().to_owned());
        }
        i += 1;
    }
    None
}

/// Picks the state of highest priority among the hits: a real error is never
/// masked by a completion mark or a progress line in the same delta.
pub fn prioritize(
    error: Option<String>,
    waiting_input: Option<String>,
    done: Option<String>,
    working: Option<String>,
) -> (r: ClassificationResult)
    ensures
        r@ == prioritized(
            text::option_view(error),
            text::option_view(waiting_input),
            text::option_view(done),
            text::option_view(working),
        ),
{
    if error.is_some() {
        ClassificationResult { state: PaneState::Error, matched_pattern: error }
    } else if waiting_input.is_some() {
        ClassificationResult { state: PaneState::WaitingInput, matched_pattern: waiting_input }
    } else if done.is_some() {
        ClassificationResult { state: PaneState::Done, matched_pattern: done }
    } else {
        ClassificationResult { state: PaneState::Working, matched_pattern: working }
    }
}

/// Recognises the delta. Priority is error, then waiting_input, then done, then
/// working; a delta that no pattern matches is `Working`.
pub fn classify(delta: &str, compiled: &CompiledPatterns) -> (r: ClassificationResult)
    ensures
        r@ == classified(compiled@, delta@),
{
    prioritize(
        first_hit(&compiled.error, delta),
        first_hit(&compiled.waiting_input, delta),
        first_hit(&compiled.done, delta),
        first_hit(&compiled.working, delta),
    )
}

/// Some pattern of the list finds a match in the delta.
pub open spec fn any_finds(list: Seq<Seq<char>>, delta: Seq<char>) -> bool {
    exists|i: int| 0 <= i < list.len() && pattern::regex_finds(#[trigger] list[i], delta)
}

/// The first hit is there exactly when some pattern matches, and it is a
/// pattern of the list that does.
pub proof fn first_match_is_a_match(list: Seq<Seq<char>>, delta: Seq<char>)
    ensures
        first_match(list, delta) is Some <==> any_finds(list, delta),
        first_match(list, delta) matches Some(s) ==> list.contains(s) && pattern::regex_finds(
            s,
            delta,
        ),
    decreases list.len(),
{
    if list.len() > 0 {
        let rest = list.drop_first();
        first_match_is_a_match(rest, delta);
        if pattern::regex_finds(list.first(), delta) {
            assert(pattern::regex_finds(list[0], delta));
        } else {
            if any_finds(list, delta) {
                let i = choose|i: int|
                    0 <= i < list.len() && pattern::regex_finds(#[trigger] list[i], delta);
                assert(rest[i - 1] == list[i]);
            }
            if any_finds(rest, delta) {
                let i = choose|i: int|
                    0 <= i < rest.len() && pattern::regex_finds(#[trigger] rest[i], delta);
                assert(list[i + 1] == rest[i]);
            }
            if let Some(s) = first_match(rest, delta) {
                let i = choose|i: int| 0 <= i < rest.len() && rest[i] == s;
                assert(list[i + 1] == s);
            }
        }
    }
}

/// The order of priority: error outranks waiting_input, which outranks done,
/// which outranks working, and nothing at all means working.
pub proof fn priority_order(p: PatternSources, delta: Seq<char>)
    ensures
        classified(p, delta).0 == PaneState::Error <==> any_finds(p.error, delta),
        classified(p, delta).0 == PaneState::WaitingInput <==> !any_finds(p.error, delta)
            && any_finds(p.waiting_input, delta),
        classified(p, delta).0 == PaneState::Done <==> !any_finds(p.error, delta) && !any_finds(
            p.waiting_input,
            delta,
        ) && any_finds(p.done, delta),
        classified(p, delta).0 == PaneState::Working <==> !any_finds(p.error, delta) && !any_finds(
            p.waiting_input,
            delta,
        ) && !any_finds(p.done, delta),
        classified(p, delta).1 is None <==> !any_finds(p.error, delta) && !any_finds(
            p.waiting_input,
            delta,
        ) && !any_finds(p.done, delta) && !any_finds(p.working, delta),
{
    first_match_is_a_match(p.error, delta);
    first_match_is_a_match(p.waiting_input, delta);
    first_match_is_a_match(p.done, delta);
    first_match_is_a_match(p.working, delta);
}

/// The hit that counts is the first in the order of the list, and there is none
/// where no pattern finds anything.
pub proof fn first_match_is_the_first(list: Seq<Seq<char>>, delta: Seq<char>)
    ensures
        forall|i: int|
            0 <= i < list.len() && pattern::regex_finds(list[i], delta) && (forall|k: int|
                0 <= k < i ==> !pattern::regex_finds(#[trigger] list[k], delta)) ==> first_match(
                list,
                delta,
            ) == Some(#[trigger] list[i]),
        (forall|k: int|
            0 <= k < list.len() ==> !pattern::regex_finds(#[trigger] list[k], delta))
            ==> first_match(list, delta) is None,
    decreases list.len(),
{
    if list.len() > 0 {
        let rest = list.drop_first();
        first_match_is_the_first(rest, delta);
        if pattern::regex_finds(list[0], delta) {
            assert forall|i: int|
                0 <= i < list.len() && pattern::regex_finds(list[i], delta) && (forall|k: int|
                    0 <= k < i ==> !pattern::regex_finds(
                        #[trigger] list[k],
                        delta,
                    )) implies first_match(list, delta) == Some(#[trigger] list[i]) by {
                if i > 0 {
                    assert(!pattern::regex_finds(list[0], delta));
                }
            }
        } else {
            assert forall|i: int|
                0 <= i < list.len() && pattern::regex_finds(list[i], delta) && (forall|k: int|
                    0 <= k < i ==> !pattern::regex_finds(
                        #[trigger] list[k],
                        delta,
                    )) implies first_match(list, delta) == Some(#[trigger] list[i]) by {
                assert(i > 0);
                assert(rest[i - 1] == list[i]);
                assert forall|k: int| 0 <= k < i - 1 implies !pattern::regex_finds(
                    #[trigger] rest[k],
                    delta,
                ) by {
                    assert(rest[k] == list[k + 1]);
                }
            }
            if forall|k: int|
                0 <= k < list.len() ==> !pattern::regex_finds(#[trigger] list[k], delta) {
                assert forall|k: int| 0 <= k < rest.len() implies !pattern::regex_finds(
                    #[trigger] rest[k],
                    delta,
                ) by {
                    assert(rest[k] == list[k + 1]);
                }
            }
        }
    }
}

/// A delta is an error where a pattern for errors finds something in it; else a
/// prompt where one for prompts does; else done where one for that does; and else
/// work. The pattern that is named is the first of its list that does.
pub proof fn recognition_goes_by_what_is_found(p: PatternSources, delta: Seq<char>, i: int)
    ensures
        ({
            let none_of = |list: Seq<Seq<char>>|
                forall|k: int|
                    0 <= k < list.len() ==> !pattern::regex_finds(#[trigger] list[k], delta);
            let first_of = |list: Seq<Seq<char>>|
                0 <= i < list.len() && pattern::regex_finds(list[i], delta) && forall|k: int|
                    0 <= k < i ==> !pattern::regex_finds(#[trigger] list[k], delta);
            &&& first_of(p.error) ==> classified(p, delta) == (PaneState::Error, Some(p.error[i]))
            &&& none_of(p.error) && first_of(p.waiting_input) ==> classified(p, delta) == (
                PaneState::WaitingInput,
                Some(p.waiting_input[i]),
            )
            &&& none_of(p.error) && none_of(p.waiting_input) && first_of(p.done) ==> classified(
                p,
                delta,
            ) == (PaneState::Done, Some(p.done[i]))
            &&& none_of(p.error) && none_of(p.waiting_input) && none_of(p.done) && first_of(
                p.working,
            ) ==> classified(p, delta) == (PaneState::Working, Some(p.working[i]))
            &&& none_of(p.error) && none_of(p.waiting_input) && none_of(p.done) && none_of(
                p.working,
            ) ==> classified(p, delta) == (PaneState::Working, None::<Seq<char>>)
        }),
{
    first_match_is_the_first(p.error, delta);
    first_match_is_the_first(p.waiting_input, delta);
    first_match_is_the_first(p.done, delta);
    first_match_is_the_first(p.working, delta);
}

/// Every pattern is compiled with the multiline flag in front of its own source, in
/// its own list and at its own place.
pub proof fn patterns_get_the_multiline_flag(p: PatternSources)
    ensures
        ({
            let q = multiline_patterns(p);
            &&& q.error.len() == p.error.len() && q.waiting_input.len() == p.waiting_input.len()
            &&& q.done.len() == p.done.len() && q.working.len() == p.working.len()
            &&& forall|i: int|
                0 <= i < p.error.len() ==> #[trigger] q.error[i] == "(?m)"@ + p.error[i]
            &&& forall|i: int|
                0 <= i < p.waiting_input.len() ==> #[trigger] q.waiting_input[i] == "(?m)"@
                    + p.waiting_input[i]
            &&& forall|i: int|
                0 <= i < p.done.len() ==> #[trigger] q.done[i] == "(?m)"@ + p.done[i]
            &&& forall|i: int|
                0 <= i < p.working.len() ==> #[trigger] q.working[i] == "(?m)"@ + p.working[i]
        }),
{
}

/// A list is refused for its first source that does not compile with the multiline
/// flag in front, and the message quotes that source and the error; a list all of
/// whose sources compile is not refused.
pub proof fn first_bad_source_is_named(list: Seq<Seq<char>>, i: int)
    ensures
        (forall|k: int|
            0 <= k < list.len() ==> pattern::build_error("(?m)"@ + #[trigger] list[k]) is None)
            <==> list_error(list) is None,
        0 <= i < list.len() && (forall|k: int|
            0 <= k < i ==> pattern::build_error("(?m)"@ + #[trigger] list[k]) is None)
            && pattern::build_error("(?m)"@ + list[i]) is Some ==> list_error(list) == Some(
            "invalid pattern "@ + text::debug_text(list[i]) + ": "@ + pattern::build_error(
                "(?m)"@ + list[i],
            )->0,
        ),
    decreases list.len(),
{
    if list.len() > 0 {
        let rest = list.drop_first();
        first_bad_source_is_named(rest, i - 1);
        assert(list.first() == list[0]);
        if pattern::build_error("(?m)"@ + list[0]) is None {
            assert forall|k: int|
                0 <= k < rest.len() && pattern::build_error(
                    "(?m)"@ + list[k + 1],
                ) is None implies pattern::build_error("(?m)"@ + #[trigger] rest[k]) is None by {
                assert(rest[k] == list[k + 1]);
            }
            if list_error(list) is None {
                assert forall|k: int| 0 <= k < list.len() implies pattern::build_error(
                    "(?m)"@ + #[trigger] list[k],
                ) is None by {
                    if k > 0 {
                        assert(rest[k - 1] == list[k]);
                    }
                }
            }
            if i > 0 && i < list.len() {
                assert(rest[i - 1] == list[i]);
            }
        }
    }
}

/// The lists are looked at in the order of their priority, and the first error
/// among them is the one that is told.
pub proof fn lists_are_checked_in_order(p: PatternSources)
    ensures
        list_error(p.error) is Some ==> patterns_error(p) == list_error(p.error),
        list_error(p.error) is None && list_error(p.waiting_input) is Some ==> patterns_error(p)
            == list_error(p.waiting_input),
        list_error(p.error) is None && list_error(p.waiting_input) is None && list_error(
            p.done,
        ) is Some ==> patterns_error(p) == list_error(p.done),
        list_error(p.error) is None && list_error(p.waiting_input) is None && list_error(
            p.done,
        ) is None ==> patterns_error(p) == list_error(p.working),
{
}

/// Of four hits, each there or not, the one of highest priority decides, and it is
/// the one that is named.
pub proof fn the_highest_hit_decides(
    error: Option<Seq<char>>,
    waiting_input: Option<Seq<char>>,
    done: Option<Seq<char>>,
    working: Option<Seq<char>>,
)
    ensures
        error is Some ==> prioritized(error, waiting_input, done, working) == (
            PaneState::Error,
            error,
        ),
        error is None && waiting_input is Some ==> prioritized(error, waiting_input, done, working)
            == (PaneState::WaitingInput, waiting_input),
        error is None && waiting_input is None && done is Some ==> prioritized(
            error,
            waiting_input,
            done,
            working,
        ) == (PaneState::Done, done),
        error is None && waiting_input is None && done is None ==> prioritized(
            error,
            waiting_input,
            done,
            working,
        ) == (PaneState::Working, working),
{
}

} // verus!
