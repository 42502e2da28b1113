//! Builds compact summaries of a delta by extraction alone: pull request
//! numbers, file paths and commands, then the state.
use crate::pattern;
use crate::text;
use crate::types::PaneState;
use vstd::prelude::*;
use vstd::string::StringExecFns;

verus! {

/// Words that end in a known source extension.
pub open spec fn file_source() -> Seq<char> {
    "\\b[\\w./-]+\\.(?:ts|tsx|js|jsx|py|md|json|ya?ml)\\b"@
}

/// A number behind a hash sign.
pub open spec fn pr_source() -> Seq<char> {
    "#(\\d+)"@
}

/// The rest of a line behind a prompt character and white space, without the white
/// space around it. It never runs over the end of the line.
pub open spec fn command_source() -> Seq<char> {
    "(?m)^[ \\t]*[❯$][^\\S\\n]+(\\S.*?)[^\\S\\n]*$"@
}

/// The values that are there, each at its first place only.
pub open spec fn unique_captures(found: Seq<Option<Seq<char>>>) -> Seq<Seq<char>>
    decreases found.len(),
{
    if found.len() == 0 {
        Seq::empty()
    } else {
        let before = unique_captures(found.drop_last());
        match found.last() {
            Some(value) => if before.contains(value) {
                before
            } else {
                before.push(value)
            },
            None => before,
        }
    }
}

/// What one group of a pattern takes in a text, each value once, in the order
/// of first appearance.
pub open spec fn extracted(source: Seq<char>, content: Seq<char>, group: nat) -> Seq<Seq<char>> {
    unique_captures(pattern::regex_captured(source, content, group))
}

/// The pull request numbers in a text.
pub open spec fn pr_numbers(content: Seq<char>) -> Seq<Seq<char>> {
    extracted(pr_source(), content, 1)
}

/// The file paths in a text.
pub open spec fn file_paths(content: Seq<char>) -> Seq<Seq<char>> {
    extracted(file_source(), content, 0)
}

/// The commands in a text.
pub open spec fn commands(content: Seq<char>) -> Seq<Seq<char>> {
    extracted(command_source(), content, 1)
}

/// The closing sentence of each state.
pub open spec fn suffix_of(state: PaneState) -> Seq<char> {
    match state {
        PaneState::WaitingInput => "Aguardando confirmação."@,
        PaneState::Done => "Concluído."@,
        PaneState::Error => "Erro reportado."@,
        PaneState::Working => "Em andamento."@,
    }
}

/// Each number with a hash sign in front.
pub open spec fn hashed(prs: Seq<Seq<char>>) -> Seq<Seq<char>> {
    prs.map_values(|p: Seq<char>| "#"@ + p)
}

/// The sentence on pull requests, where there are any.
pub open spec fn pr_sentence(prs: Seq<Seq<char>>) -> Seq<Seq<char>> {
    if prs.len() == 0 {
        Seq::empty()
    } else {
        let plural = if prs.len() > 1 {
            "s"@
        } else {
            ""@
        };
        seq!["Revisou PR"@ + plural + " "@ + text::joined(hashed(prs), ", "@) + "."@]
    }
}

/// The sentence that lists the items behind a heading, where there are any.
pub open spec fn list_sentence(heading: Seq<char>, items: Seq<Seq<char>>) -> Seq<Seq<char>> {
    if items.len() == 0 {
        Seq::empty()
    } else {
        seq![heading + text::joined(items, ", "@) + "."@]
    }
}

/// The sentences of a summary.
pub open spec fn sentences(
    prs: Seq<Seq<char>>,
    files: Seq<Seq<char>>,
    cmds: Seq<Seq<char>>,
    state: PaneState,
) -> Seq<Seq<char>> {
    pr_sentence(prs) + list_sentence("Arquivos: "@, files) + list_sentence("Comandos: "@, cmds)
        + seq![suffix_of(state)]
}

/// A summary: its sentences with a blank between each two.
pub open spec fn summary_text(
    prs: Seq<Seq<char>>,
    files: Seq<Seq<char>>,
    cmds: Seq<Seq<char>>,
    state: PaneState,
) -> Seq<char> {
    text::joined(sentences(prs, files, cmds, state), " "@)
}

/// The summary of a text.
pub open spec fn summarized(content: Seq<char>, state: PaneState) -> Seq<char> {
    summary_text(pr_numbers(content), file_paths(content), commands(content), state)
}

fn state_suffix(state: PaneState) -> (r: &'static str)
    ensures
        r@ == suffix_of(state),
{
    match state {
        PaneState::WaitingInput => "Aguardando confirmação.",
        PaneState::Done => "Concluído.",
        PaneState::Error => "Erro reportado.",
        PaneState::Working => "Em andamento.",
    }
}

/// Whether the string is among the items.
fn has_text(items: &Vec<String>, wanted: &String) -> (r: bool)
    ensures
        r == text::views(items@).contains(wanted@),
{
    let mut i: usize = 0;
    while i < items.len()
        invariant
            i <= items@.len(),
            forall|j: int| 0 <= j < i ==> #[trigger] text::views(items@)[j] != wanted@,
        decreases items@.len() - i,
    {
        if items[i] == *wanted {
            proof {
                assert(text::views(items@)[i as int] == wanted@);
            }
            return true;
        }
        i += 1;
    }
    false
}

/// Keeps the values that are there, each at its first place only.
pub fn unique_in_order(found: &Vec<Option<String>>) -> (r: Vec<String>)
    ensures
        text::views(r@) == unique_captures(text::option_views(found@)),
{
    let mut seen: Vec<String> = Vec::new();
    let mut i: usize = 0;
    let ghost all = text::option_views(found@);
    proof {
        assert(text::views(seen@) =~= unique_captures(all.take(0)));
    }
    while i < found.len()
        invariant
            i <= found@.len(),
            all == text::option_views(found@),
            text::views(seen@) == unique_captures(all.take(i as int)),
        decreases found@.len() - i,
    {
        proof {
            assert(all.take(i + 1).drop_last() =~= all.take(i as int));
            assert(all.take(i + 1).last() == text::option_view(found@[i as int]));
        }
        if let Some(value) = &found[i] {
            if !has_text(&seen, value) {
                let ghost before = text::views(seen@);
                seen.push(value.clone());
                proof {
                    assert(text::views(seen@) =~= before.push(value@));
                }
            }
        }
        i += 1;
    }
    proof {
        assert(all.take(i as int) =~= all);
    }
    seen
}

/// What one group of a built-in pattern takes in the text, each value once.
fn unique_matches(source: &str, content: &str, group: usize) -> (r: Vec<String>)
    requires
        pattern::built_in(source@),
    ensures
        text::views(r@) == extracted(source@, content@, group as nat),
{
    let found = match pattern::compile(source) {
        Ok(re) => pattern::captured(&re, content, group),
        Err(_) => Vec::new(),
    };
    unique_in_order(&found)
}

/// The pull request numbers in the text, each once, in the order of first
/// appearance.
pub fn extract_pr_numbers(content: &str) -> (r: Vec<String>)
    ensures
        text::views(r@) == pr_numbers(content@),
        text::views(r@) == unique_captures(pattern::regex_captured("#(\\d+)"@, content@, 1)),
{
    unique_matches("#(\\d+)", content, 1)
}

/// The paths in the text that end in a known source extension, each once, in
/// the order of first appearance.
pub fn extract_file_paths(content: &str) -> (r: Vec<String>)
    ensures
        text::views(r@) == file_paths(content@),
        text::views(r@) == unique_captures(
            pattern::regex_captured(
                "\\b[\\w./-]+\\.(?:ts|tsx|js|jsx|py|md|json|ya?ml)\\b"@,
                content@,
                0,
            ),
        ),
{
    unique_matches("\\b[\\w./-]+\\.(?:ts|tsx|js|jsx|py|md|json|ya?ml)\\b", content, 0)
}

/// The commands behind a prompt character at the start of a line, each once, in
/// the order of first appearance.
pub fn extract_commands(content: &str) -> (r: Vec<String>)
    ensures
        text::views(r@) == commands(content@),
        text::views(r@) == unique_captures(
            pattern::regex_captured(
                "(?m)^[ \\t]*[❯$][^\\S\\n]+(\\S.*?)[^\\S\\n]*$"@,
                content@,
                1,
            ),
        ),
{
    unique_matches("(?m)^[ \\t]*[❯$][^\\S\\n]+(\\S.*?)[^\\S\\n]*$", content, 1)
}

/// Each number with a hash sign in front.
fn with_hash(prs: &Vec<String>) -> (r: Vec<String>)
    ensures
        text::views(r@) == hashed(text::views(prs@)),
{
    let mut r: Vec<String> = Vec::new();
    let mut i: usize = 0;
    while i < prs.len()
        invariant
            i <= prs@.len(),
            text::views(r@) == hashed(text::views(prs@)).take(i as int),
        decreases prs@.len() - i,
    {
        let ghost before = text::views(r@);
        let ghost all = hashed(text::views(prs@));
        r.push(text::concat2("#", prs[i].as_str()));
        proof {
            assert(text::views(r@) =~= before.push(all[i as int]));
            assert(all.take(i + 1) =~= before.push(all[i as int]));
        }
        i += 1;
    }
    proof {
        assert(hashed(text::views(prs@)).take(i as int) =~= hashed(text::views(prs@)));
    }
    r
}

/// Puts extracted facts and the state into words.
pub fn render_summary(
    prs: &Vec<String>,
    files: &Vec<String>,
    cmds: &Vec<String>,
    state: PaneState,
) -> (r: String)
    ensures
        r@ == summary_text(text::views(prs@), text::views(files@), text::views(cmds@), state),
{
    let ghost p = text::views(prs@);
    let ghost f = text::views(files@);
    let ghost c = text::views(cmds@);
    let mut parts: Vec<String> = Vec::new();
    if prs.len() > 0 {
        let plural: &str = if prs.len() > 1 {
            "s"
        } else {
            ""
        };
        let mut part = text::concat3("Revisou PR", plural, " ");
        let listed = with_hash(prs);
        part.append(text::join(listed.as_slice(), ", ").as_str());
        part.append(".");
        parts.push(part);
    }
    proof {
        assert(text::views(parts@) =~= pr_sentence(p));
    }
    if files.len() > 0 {
        let part = text::concat3("Arquivos: ", text::join(files.as_slice(), ", ").as_str(), ".");
        parts.push(part);
    }
    proof {
        assert(text::views(parts@) =~= pr_sentence(p) + list_sentence("Arquivos: "@, f));
    }
    if cmds.len() > 0 {
        let part = text::concat3("Comandos: ", text::join(cmds.as_slice(), ", ").as_str(), ".");
        parts.push(part);
    }
    proof {
        assert(text::views(parts@) =~= pr_sentence(p) + list_sentence("Arquivos: "@, f)
            + list_sentence("Comandos: "@, c));
    }
    parts.push(state_suffix(state).to_owned());
    proof {
        assert(text::views(parts@) =~= sentences(p, f, c, state));
    }
    text::join(parts.as_slice(), " ")
}

/// Builds a compact summary purely by extraction over the raw delta text. The
/// result depends on the text and the state alone.
pub fn summarize(content: &str, state: PaneState) -> (r: String)
    ensures
        r@ == summarized(content@, state),
{
    let prs = extract_pr_numbers(content);
    let files = extract_file_paths(content);
    let cmds = extract_commands(content);
    render_summary(&prs, &files, &cmds, state)
}

/// Every value that is there is kept, nothing else is, and none is kept twice.
pub proof fn unique_captures_are_the_values(found: Seq<Option<Seq<char>>>)
    ensures
        unique_captures(found).no_duplicates(),
        forall|v: Seq<char>| #[trigger]
            unique_captures(found).contains(v) <==> found.contains(Some(v)),
    decreases found.len(),
{
    if found.len() > 0 {
        let rest = found.drop_last();
        let before = unique_captures(rest);
        unique_captures_are_the_values(rest);
        let now = unique_captures(found);
        assert(found =~= rest.push(found.last()));
        assert forall|v: Seq<char>| #[trigger] now.contains(v) <==> found.contains(Some(v)) by {
            assert(before.contains(v) <==> rest.contains(Some(v)));
            if rest.contains(Some(v)) {
                let i = choose|i: int| 0 <= i < rest.len() && rest[i] == Some(v);
                assert(found[i] == Some(v));
                let j = choose|j: int| 0 <= j < before.len() && before[j] == v;
                assert(now[j] == v);
            }
            if found.contains(Some(v)) && !rest.contains(Some(v)) {
                let i = choose|i: int| 0 <= i < found.len() && found[i] == Some(v);
                assert(i == found.len() - 1) by {
                    if i < rest.len() {
                        assert(rest[i] == Some(v));
                    }
                }
                assert(found.last() == Some(v));
                assert(now.last() == v);
            }
            if now.contains(v) && !before.contains(v) {
                let j = choose|j: int| 0 <= j < now.len() && now[j] == v;
                assert(j == now.len() - 1) by {
                    if j < before.len() {
                        assert(before[j] == v);
                    }
                }
                assert(found.last() == Some(v));
                assert(found[found.len() - 1] == Some(v));
            }
        }
    }
}

/// The order is that of first appearance: what comes later in the text only
/// adds behind what is already there.
pub proof fn unique_captures_keep_order(
    first: Seq<Option<Seq<char>>>,
    later: Seq<Option<Seq<char>>>,
)
    ensures
        unique_captures(first).is_prefix_of(unique_captures(first + later)),
    decreases later.len(),
{
    if later.len() == 0 {
        assert(first + later =~= first);
    } else {
        unique_captures_keep_order(first, later.drop_last());
        assert((first + later).drop_last() =~= first + later.drop_last());
    }
}

/// A summary names every pull request with its hash sign, every file and every
/// command that was extracted, and closes with the sentence of the state.
pub proof fn summary_names_every_fact(
    prs: Seq<Seq<char>>,
    files: Seq<Seq<char>>,
    cmds: Seq<Seq<char>>,
    state: PaneState,
)
    ensures
        forall|i: int|
            0 <= i < prs.len() ==> text::occurs(
                "#"@ + #[trigger] prs[i],
                summary_text(prs, files, cmds, state),
            ),
        forall|i: int|
            0 <= i < files.len() ==> text::occurs(
                #[trigger] files[i],
                summary_text(prs, files, cmds, state),
            ),
        forall|i: int|
            0 <= i < cmds.len() ==> text::occurs(
                #[trigger] cmds[i],
                summary_text(prs, files, cmds, state),
            ),
        suffix_of(state).is_suffix_of(summary_text(prs, files, cmds, state)),
{
    let all = sentences(prs, files, cmds, state);
    let whole = summary_text(prs, files, cmds, state);
    let n_pr = pr_sentence(prs).len() as int;
    let n_file = list_sentence("Arquivos: "@, files).len() as int;
    assert forall|i: int| 0 <= i < prs.len() implies text::occurs("#"@ + #[trigger] prs[i], whole) by {
        let listed = hashed(prs);
        text::piece_occurs_in_joined(listed, ", "@, i);
        assert(listed[i] == "#"@ + prs[i]);
        let plural = if prs.len() > 1 {
            "s"@
        } else {
            ""@
        };
        let front = "Revisou PR"@ + plural + " "@;
        text::occurs_in_whole(listed[i], text::joined(listed, ", "@), front, "."@);
        assert(all[0] == front + text::joined(listed, ", "@) + "."@);
        text::piece_occurs_in_joined(all, " "@, 0);
        occurs_through(listed[i], all[0], whole);
    }
    assert forall|i: int| 0 <= i < files.len() implies text::occurs(#[trigger] files[i], whole) by {
        text::piece_occurs_in_joined(files, ", "@, i);
        text::occurs_in_whole(files[i], text::joined(files, ", "@), "Arquivos: "@, "."@);
        assert(all[n_pr] == "Arquivos: "@ + text::joined(files, ", "@) + "."@);
        text::piece_occurs_in_joined(all, " "@, n_pr);
        occurs_through(files[i], all[n_pr], whole);
    }
    assert forall|i: int| 0 <= i < cmds.len() implies text::occurs(#[trigger] cmds[i], whole) by {
        text::piece_occurs_in_joined(cmds, ", "@, i);
        text::occurs_in_whole(cmds[i], text::joined(cmds, ", "@), "Comandos: "@, "."@);
        assert(all[n_pr + n_file] == "Comandos: "@ + text::joined(cmds, ", "@) + "."@);
        text::piece_occurs_in_joined(all, " "@, n_pr + n_file);
        occurs_through(cmds[i], all[n_pr + n_file], whole);
    }
    assert(all.last() == suffix_of(state));
    if all.len() > 1 {
        let front = text::joined(all.drop_last(), " "@) + " "@;
        assert(whole == front + suffix_of(state));
        assert(whole.subrange(whole.len() - suffix_of(state).len(), whole.len() as int)
            =~= suffix_of(state));
    } else {
        assert(whole =~= suffix_of(state));
        assert(whole.subrange(0, whole.len() as int) =~= suffix_of(state));
    }
}

/// What occurs in something that occurs in `hay` occurs in `hay`.
proof fn occurs_through(needle: Seq<char>, part: Seq<char>, hay: Seq<char>)
    requires
        text::occurs(needle, part),
        text::occurs(part, hay),
    ensures
        text::occurs(needle, hay),
{
    let (b, a) = choose|b: Seq<char>, a: Seq<char>| #[trigger] (b + part + a) == hay;
    text::occurs_in_whole(needle, part, b, a);
}

/// What a text is searched for: numbers behind a hash sign; words that end in ts,
/// tsx, js, jsx, py, md, json, yml or yaml; and the rest of a line behind a prompt
/// character. A value is among the extracted ones exactly where the expression
/// takes it somewhere in the text.
pub proof fn facts_are_what_the_expressions_take(content: Seq<char>, value: Seq<char>)
    ensures
        pr_numbers(content).contains(value) <==> pattern::regex_captured(
            "#(\\d+)"@,
            content,
            1,
        ).contains(Some(value)),
        file_paths(content).contains(value) <==> pattern::regex_captured(
            "\\b[\\w./-]+\\.(?:ts|tsx|js|jsx|py|md|json|ya?ml)\\b"@,
            content,
            0,
        ).contains(Some(value)),
        commands(content).contains(value) <==> pattern::regex_captured(
            "(?m)^[ \\t]*[❯$][^\\S\\n]+(\\S.*?)[^\\S\\n]*$"@,
            content,
            1,
        ).contains(Some(value)),
        pr_numbers(content).no_duplicates(),
        file_paths(content).no_duplicates(),
        commands(content).no_duplicates(),
{
    unique_captures_are_the_values(pattern::regex_captured("#(\\d+)"@, content, 1));
    unique_captures_are_the_values(
        pattern::regex_captured(
            "\\b[\\w./-]+\\.(?:ts|tsx|js|jsx|py|md|json|ya?ml)\\b"@,
            content,
            0,
        ),
    );
    unique_captures_are_the_values(
        pattern::regex_captured(
            "(?m)^[ \\t]*[❯$][^\\S\\n]+(\\S.*?)[^\\S\\n]*$"@,
            content,
            1,
        ),
    );
}

/// The value that comes behind others is put behind them where it is new, and
/// changes nothing where it is there already or no value is there.
pub proof fn one_more_capture(found: Seq<Option<Seq<char>>>, next: Option<Seq<char>>)
    ensures
        unique_captures(Seq::empty()) == Seq::<Seq<char>>::empty(),
        unique_captures(found.push(next)) == match next {
            Some(value) => if found.contains(Some(value)) {
                unique_captures(found)
            } else {
                unique_captures(found).push(value)
            },
            None => unique_captures(found),
        },
{
    unique_captures_are_the_values(found);
    assert(found.push(next).drop_last() =~= found);
}

/// A summary reads: the pull requests, with a plural s where there are several; the
/// files; the commands; each only where there are any; and last the state.
pub proof fn summary_reads(
    prs: Seq<Seq<char>>,
    files: Seq<Seq<char>>,
    cmds: Seq<Seq<char>>,
    state: PaneState,
)
    ensures
        summary_text(prs, files, cmds, state) == (if prs.len() == 0 {
            Seq::<char>::empty()
        } else if prs.len() == 1 {
            "Revisou PR"@ + " "@ + text::joined(
                prs.map_values(|p: Seq<char>| "#"@ + p),
                ", "@,
            ) + "."@ + " "@
        } else {
            "Revisou PR"@ + "s"@ + " "@ + text::joined(
                prs.map_values(|p: Seq<char>| "#"@ + p),
                ", "@,
            ) + "."@ + " "@
        }) + (if files.len() == 0 {
            Seq::<char>::empty()
        } else {
            "Arquivos: "@ + text::joined(files, ", "@) + "."@ + " "@
        }) + (if cmds.len() == 0 {
            Seq::<char>::empty()
        } else {
            "Comandos: "@ + text::joined(cmds, ", "@) + "."@ + " "@
        }) + match state {
            PaneState::WaitingInput => "Aguardando confirmação."@,
            PaneState::Done => "Concluído."@,
            PaneState::Error => "Erro reportado."@,
            PaneState::Working => "Em andamento."@,
        },
{
    reveal_strlit("");
    let sep = " "@;
    let a = pr_sentence(prs);
    let b = list_sentence("Arquivos: "@, files);
    let c = list_sentence("Comandos: "@, cmds);
    let d = seq![suffix_of(state)];
    assert(prs.map_values(|p: Seq<char>| "#"@ + p) =~= hashed(prs));
    text::joined_rows(d, d, sep);
    text::joined_rows(c, d, sep);
    text::joined_rows(b, c + d, sep);
    text::joined_rows(a, b + (c + d), sep);
    assert(sentences(prs, files, cmds, state) =~= a + (b + (c + d)));
    text::joined_rows(a, a, sep);
    text::joined_rows(b, b, sep);
    text::joined_rows(c, c, sep);
    assert(c.len() == 0 ==> c + d =~= d);
    assert(b.len() == 0 ==> b + (c + d) =~= c + d);
    assert(a.len() == 0 ==> a + (b + (c + d)) =~= b + (c + d));
    let whole = summary_text(prs, files, cmds, state);
    if prs.len() == 1 {
        assert("Revisou PR"@ + ""@ =~= "Revisou PR"@);
    }
    let part_a = if prs.len() == 0 {
        Seq::<char>::empty()
    } else {
        a[0] + sep
    };
    let part_b = if files.len() == 0 {
        Seq::<char>::empty()
    } else {
        b[0] + sep
    };
    let part_c = if cmds.len() == 0 {
        Seq::<char>::empty()
    } else {
        c[0] + sep
    };
    assert(text::joined(c + d, sep) =~= part_c + d[0]);
    assert(text::joined(b + (c + d), sep) =~= part_b + (part_c + d[0]));
    assert(whole =~= part_a + (part_b + (part_c + d[0])));
    assert(whole =~= part_a + part_b + part_c + d[0]);
}

/// The summary of a text is made of what is extracted from it.
pub proof fn summaries_are_made_of_the_facts(content: Seq<char>, state: PaneState)
    ensures
        summarized(content, state) == summary_text(
            pr_numbers(content),
            file_paths(content),
            commands(content),
            state,
        ),
{
}

} // verus!
