//! Which tmux sessions belong to a profile.
use crate::text;
use vstd::prelude::*;

verus! {

/// The names in the output of `tmux list-sessions`: each line without the white
/// space around it, blank lines left out.
pub open spec fn session_names(raw: Seq<char>) -> Seq<Seq<char>> {
    text::split(raw, '\n').map_values(|line: Seq<char>| text::trimmed(line)).filter(
        |line: Seq<char>| line.len() > 0,
    )
}

/// The name begins with one of the prefixes.
pub open spec fn belongs(name: Seq<char>, prefixes: Seq<Seq<char>>) -> bool {
    exists|i: int| 0 <= i < prefixes.len() && (#[trigger] prefixes[i]).is_prefix_of(name)
}

/// The names that begin with one of the prefixes, in order.
pub open spec fn profile_sessions(
    names: Seq<Seq<char>>,
    prefixes: Seq<Seq<char>>,
) -> Seq<Seq<char>> {
    names.filter(|name: Seq<char>| belongs(name, prefixes))
}

/// Takes the session names out of the output of `tmux list-sessions`.
pub fn parse_tmux_list_sessions(raw: &str) -> (r: Vec<String>)
    ensures
        text::views(r@) == session_names(raw@),
        text::views(r@) == text::split(raw@, '\n').map_values(
            |line: Seq<char>| text::trimmed(line),
        ).filter(|line: Seq<char>| line.len() > 0),
{
    let lines = text::split_text(raw, '\n');
    let ghost trimmed = text::split(raw@, '\n').map_values(|line: Seq<char>| text::trimmed(line));
    let ghost keep = |line: Seq<char>| line.len() > 0;
    let mut names: Vec<String> = Vec::new();
    let mut i: usize = 0;
    proof {
        assert(text::views(names@) =~= trimmed.take(0).filter(keep)) by {
            reveal(Seq::filter);
        }
    }
    while i < lines.len()
        invariant
            i <= lines@.len(),
            text::views(lines@) == text::split(raw@, '\n'),
            trimmed == text::split(raw@, '\n').map_values(
                |line: Seq<char>| text::trimmed(line),
            ),
            keep == (|line: Seq<char>| line.len() > 0),
            text::views(names@) == trimmed.take(i as int).filter(keep),
        decreases lines@.len() - i,
    {
        let ghost before = text::views(names@);
        let name = text::trim(lines[i].as_str());
        proof {
            assert(text::views(lines@)[i as int] == lines@[i as int]@);
            assert(trimmed.take(i + 1) =~= trimmed.take(i as int).push(name@));
            trimmed.take(i as int).lemma_filter_push(name@, keep);
        }
        if !name.as_str().is_empty() {
            names.push(name);
            proof {
                assert(text::views(names@) =~= before.push(name@));
            }
        }
        i += 1;
    }
    proof {
        assert(trimmed.take(i as int) =~= trimmed);
    }
    names
}

/// Whether the name begins with one of the prefixes.
fn has_prefix(name: &str, prefixes: &[String]) -> (r: bool)
    ensures
        r == belongs(name@, text::views(prefixes@)),
{
    let ghost all = text::views(prefixes@);
    let mut i: usize = 0;
    while i < prefixes.len()
        invariant
            i <= prefixes@.len(),
            all == text::views(prefixes@),
            forall|k: int| 0 <= k < i ==> !(#[trigger] all[k]).is_prefix_of(name@),
        decreases prefixes@.len() - i,
    {
        assert(all[i as int] == prefixes@[i as int]@);
        if text::starts_with(name, prefixes[i].as_str()) {
            return true;
        }
        i += 1;
    }
    false
}

/// Attaching to sessions is opt-in per profile, never global: a profile only
/// watches sessions whose name begins with one of its own prefixes. An empty
/// list of prefixes attaches to nothing.
pub fn filter_sessions_for_profile(session_names: &[String], allowed_prefixes: &[String]) -> (r:
    Vec<String>)
    ensures
        text::views(r@) == profile_sessions(
            text::views(session_names@),
            text::views(allowed_prefixes@),
        ),
{
    let ghost all = text::views(session_names@);
    let ghost prefixes = text::views(allowed_prefixes@);
    let ghost keep = |name: Seq<char>| belongs(name, prefixes);
    let mut r: Vec<String> = Vec::new();
    let mut i: usize = 0;
    proof {
        assert(text::views(r@) =~= all.take(0).filter(keep)) by {
            reveal(Seq::filter);
        }
    }
    while i < session_names.len()
        invariant
            i <= session_names@.len(),
            all == text::views(session_names@),
            prefixes == text::views(allowed_prefixes@),
            keep == (|name: Seq<char>| belongs(name, prefixes)),
            text::views(r@) == all.take(i as int).filter(keep),
        decreases session_names@.len() - i,
    {
        let ghost before = text::views(r@);
        proof {
            assert(all.take(i + 1) =~= all.take(i as int).push(all[i as int]));
            all.take(i as int).lemma_filter_push(all[i as int], keep);
        }
        if has_prefix(session_names[i].as_str(), allowed_prefixes) {
            r.push(session_names[i].clone());
            proof {
                assert(text::views(r@) =~= before.push(all[i as int]));
            }
        }
        i += 1;
    }
    proof {
        assert(all.take(i as int) =~= all);
    }
    r
}

/// The prefixes that a profile watches: those that are given, between commas and
/// not empty, else the name of the profile and a dash.
pub open spec fn prefixes_of(profile: Seq<char>, given: Option<Seq<char>>) -> Seq<Seq<char>> {
    match given {
        Some(raw) => text::split(raw, ',').filter(|p: Seq<char>| p.len() > 0),
        None => seq![profile + "-"@],
    }
}

/// The prefixes that a profile watches.
pub fn session_prefixes(profile: &str, given: Option<&str>) -> (r: Vec<String>)
    ensures
        text::views(r@) == prefixes_of(
            profile@,
            match given {
                Some(raw) => Some(raw@),
                None => None,
            },
        ),
{
    let mut r: Vec<String> = Vec::new();
    match given {
        None => {
            r.push(text::concat2(profile, "-"));
            proof {
                assert(text::views(r@) =~= seq![profile@ + "-"@]);
            }
        },
        Some(raw) => {
            let pieces = text::split_text(raw, ',');
            let ghost all = text::views(pieces@);
            let ghost keep = |p: Seq<char>| p.len() > 0;
            let mut i: usize = 0;
            proof {
                assert(text::views(r@) =~= all.take(0).filter(keep)) by {
                    reveal(Seq::filter);
                }
            }
            while i < pieces.len()
                invariant
                    i <= pieces@.len(),
                    all == text::views(pieces@),
                    keep == (|p: Seq<char>| p.len() > 0),
                    text::views(r@) == all.take(i as int).filter(keep),
                decreases pieces@.len() - i,
            {
                let ghost before = text::views(r@);
                proof {
                    assert(all.take(i + 1) =~= all.take(i as int).push(all[i as int]));
                    all.take(i as int).lemma_filter_push(all[i as int], keep);
                }
                if !pieces[i].as_str().is_empty() {
                    r.push(pieces[i].clone());
                    proof {
                        assert(text::views(r@) =~= before.push(all[i as int]));
                    }
                }
                i += 1;
            }
            proof {
                assert(all.take(i as int) =~= all);
            }
        },
    }
    r
}

/// Without prefixes nothing is attached to.
pub proof fn empty_allowlist_attaches_nothing(names: Seq<Seq<char>>)
    ensures
        profile_sessions(names, Seq::empty()).len() == 0,
{
    let prefixes = Seq::<Seq<char>>::empty();
    let keep = |name: Seq<char>| belongs(name, prefixes);
    if profile_sessions(names, prefixes).len() > 0 {
        names.lemma_filter_pred(keep, 0);
    }
}

/// Exactly the sessions with an allowed prefix are attached to.
pub proof fn only_own_sessions_are_attached(
    names: Seq<Seq<char>>,
    prefixes: Seq<Seq<char>>,
    name: Seq<char>,
)
    ensures
        profile_sessions(names, prefixes).contains(name) <==> names.contains(name) && belongs(
            name,
            prefixes,
        ),
{
    let keep = |n: Seq<char>| belongs(n, prefixes);
    let kept = profile_sessions(names, prefixes);
    if kept.contains(name) {
        let i = choose|i: int| 0 <= i < kept.len() && kept[i] == name;
        names.lemma_filter_pred(keep, i);
        names.lemma_filter_contains_rev(keep, name);
    }
    if names.contains(name) && belongs(name, prefixes) {
        let i = choose|i: int| 0 <= i < names.len() && names[i] == name;
        names.lemma_filter_contains(keep, i);
    }
}

/// Profiles are kept apart: where no prefix of one begins with a prefix of the
/// other, no session is attached to by both.
pub proof fn profiles_are_kept_apart(
    names: Seq<Seq<char>>,
    mine: Seq<Seq<char>>,
    theirs: Seq<Seq<char>>,
    name: Seq<char>,
)
    requires
        forall|i: int, j: int|
            0 <= i < mine.len() && 0 <= j < theirs.len() ==> !(#[trigger] mine[i]).is_prefix_of(
                #[trigger] theirs[j],
            ) && !theirs[j].is_prefix_of(mine[i]),
    ensures
        !(profile_sessions(names, mine).contains(name) && profile_sessions(names, theirs).contains(
            name,
        )),
{
    only_own_sessions_are_attached(names, mine, name);
    only_own_sessions_are_attached(names, theirs, name);
    if belongs(name, mine) && belongs(name, theirs) {
        let i = choose|i: int| 0 <= i < mine.len() && (#[trigger] mine[i]).is_prefix_of(name);
        let j = choose|j: int| 0 <= j < theirs.len() && (#[trigger] theirs[j]).is_prefix_of(name);
        let a = mine[i];
        let b = theirs[j];
        assert(a == name.subrange(0, a.len() as int));
        assert(b == name.subrange(0, b.len() as int));
        if a.len() <= b.len() {
            assert(a =~= b.subrange(0, a.len() as int));
        } else {
            assert(b =~= a.subrange(0, b.len() as int));
        }
    }
}

/// No session name is blank or has white space around it.
pub proof fn session_names_are_trimmed(raw: Seq<char>, i: int)
    requires
        0 <= i < session_names(raw).len(),
    ensures
        session_names(raw)[i].len() > 0,
        !text::white_space(session_names(raw)[i].first()),
        !text::white_space(session_names(raw)[i].last()),
{
    let pieces = text::split(raw, '\n');
    let trimmed = pieces.map_values(|line: Seq<char>| text::trimmed(line));
    let keep = |line: Seq<char>| line.len() > 0;
    let name = session_names(raw)[i];
    trimmed.lemma_filter_pred(keep, i);
    trimmed.lemma_filter_contains_rev(keep, name);
    let k = choose|k: int| 0 <= k < trimmed.len() && trimmed[k] == name;
    trimmed_has_bare_ends(pieces[k]);
}

proof fn trimmed_has_bare_ends(line: Seq<char>)
    ensures
        text::trimmed(line).len() > 0 ==> !text::white_space(text::trimmed(line).first())
            && !text::white_space(text::trimmed(line).last()),
    decreases line.len(),
{
    if line.len() > 0 && text::white_space(line.first()) {
        trimmed_has_bare_ends(line.drop_first());
    } else if line.len() > 0 && text::white_space(line.last()) {
        trimmed_has_bare_ends(line.drop_last());
    }
}

/// A session is attached to exactly where its name begins with one of the prefixes,
/// and the sessions keep their order and number.
pub proof fn sessions_are_chosen_by_prefix(
    names: Seq<Seq<char>>,
    prefixes: Seq<Seq<char>>,
    next: Seq<char>,
)
    ensures
        profile_sessions(Seq::empty(), prefixes).len() == 0,
        (exists|i: int| 0 <= i < prefixes.len() && (#[trigger] prefixes[i]).is_prefix_of(next))
            ==> profile_sessions(names.push(next), prefixes) == profile_sessions(
            names,
            prefixes,
        ).push(next),
        (forall|i: int| 0 <= i < prefixes.len() ==> !(#[trigger] prefixes[i]).is_prefix_of(next))
            ==> profile_sessions(names.push(next), prefixes) == profile_sessions(names, prefixes),
{
    let keep = |name: Seq<char>| belongs(name, prefixes);
    names.lemma_filter_push(next, keep);
    reveal(Seq::filter);
}

/// The names in a listing are its lines without the white space around them, in
/// order, and those that are blank are left out.
pub proof fn names_are_the_lines(raw: Seq<char>, name: Seq<char>)
    ensures
        session_names(raw).contains(name) <==> name.len() > 0 && exists|i: int|
            0 <= i < text::split(raw, '\n').len() && text::trimmed(
                #[trigger] text::split(raw, '\n')[i],
            ) == name,
        session_names(raw).len() <= text::split(raw, '\n').len(),
{
    let pieces = text::split(raw, '\n');
    let trimmed = pieces.map_values(|line: Seq<char>| text::trimmed(line));
    let keep = |line: Seq<char>| line.len() > 0;
    let names = session_names(raw);
    trimmed.lemma_filter_len(keep);
    if names.contains(name) {
        let i = choose|i: int| 0 <= i < names.len() && names[i] == name;
        trimmed.lemma_filter_pred(keep, i);
        trimmed.lemma_filter_contains_rev(keep, name);
        let k = choose|k: int| 0 <= k < trimmed.len() && trimmed[k] == name;
        assert(text::trimmed(pieces[k]) == name);
    }
    if name.len() > 0 && exists|i: int|
        0 <= i < pieces.len() && text::trimmed(#[trigger] pieces[i]) == name {
        let i = choose|i: int| 0 <= i < pieces.len() && text::trimmed(#[trigger] pieces[i]) == name;
        assert(trimmed[i] == name);
        trimmed.lemma_filter_contains(keep, i);
    }
}

/// Without prefixes on the command line a profile watches the sessions that begin
/// with its name and a dash; with them it watches those between the commas, in
/// order, and an empty one among them counts for nothing.
pub proof fn prefixes_come_from_the_command_line(
    profile: Seq<char>,
    raw: Seq<char>,
    prefix: Seq<char>,
)
    ensures
        prefixes_of(profile, None) == seq![profile + "-"@],
        prefixes_of(profile, Some(raw)).contains(prefix) <==> prefix.len() > 0 && text::split(
            raw,
            ',',
        ).contains(prefix),
        prefixes_of(profile, Some(raw)) == text::split(raw, ',').filter(
            |p: Seq<char>| p.len() > 0,
        ),
{
    let pieces = text::split(raw, ',');
    let keep = |p: Seq<char>| p.len() > 0;
    let kept = pieces.filter(keep);
    if kept.contains(prefix) {
        let i = choose|i: int| 0 <= i < kept.len() && kept[i] == prefix;
        pieces.lemma_filter_pred(keep, i);
        pieces.lemma_filter_contains_rev(keep, prefix);
    }
    if prefix.len() > 0 && pieces.contains(prefix) {
        let i = choose|i: int| 0 <= i < pieces.len() && pieces[i] == prefix;
        pieces.lemma_filter_contains(keep, i);
    }
}

} // verus!
