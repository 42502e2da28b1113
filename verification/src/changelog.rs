//! The changelog of the watch/decide loop: what was changed, why, and how to
//! carry the change elsewhere.
use crate::text;
use vstd::prelude::*;

verus! {

/// One traceable change.
pub struct ChangelogEntry {
    pub what: String,
    pub why: String,
    pub how_to_replicate: String,
}

/// An entry as plain text.
#[verifier::ext_equal]
pub struct EntryView {
    pub what: Seq<char>,
    pub why: Seq<char>,
    pub how_to_replicate: Seq<char>,
}

impl View for ChangelogEntry {
    type V = EntryView;

    open spec fn view(&self) -> EntryView {
        EntryView {
            what: self.what@,
            why: self.why@,
            how_to_replicate: self.how_to_replicate@,
        }
    }
}

/// The lines of an entry in the changelog file.
pub open spec fn entry_lines(entry: EntryView, timestamp: Seq<char>) -> Seq<Seq<char>> {
    seq![
        "## "@ + timestamp,
        Seq::empty(),
        "**What:** "@ + entry.what,
        "**Why:** "@ + entry.why,
        "**How to replicate elsewhere:** "@ + entry.how_to_replicate,
        Seq::empty(),
        "---"@,
        Seq::empty(),
    ]
}

/// An entry as it stands in the changelog file.
pub open spec fn entry_text(entry: EntryView, timestamp: Seq<char>) -> Seq<char> {
    text::joined(entry_lines(entry, timestamp), "\n"@)
}

/// The message that announces an entry.
pub open spec fn notify_text(entry: EntryView) -> Seq<char> {
    "[watch/decide auto-improve] "@ + entry.what + "\nWhy: "@ + entry.why
}

/// How an entry is carried elsewhere where nothing else is said.
pub open spec fn default_how_to_replicate() -> Seq<char> {
    "Apply the same change to config/patterns.default.json (or the per-profile override) in every other agent using this watch/decide pattern."@
}

/// Every self-improvement the watch/decide loop makes to its own patterns or
/// thresholds must be traceable: what changed, the real failure that motivated
/// it, and how to carry the same fix to another agent using this orchestration
/// pattern.
pub fn format_changelog_entry(entry: &ChangelogEntry, timestamp_iso: &str) -> (r: String)
    ensures
        r@ == entry_text(entry@, timestamp_iso@),
        r@ == "## "@ + timestamp_iso@ + "\n"@ + "\n"@ + "**What:** "@ + entry@.what + "\n"@
            + "**Why:** "@ + entry@.why + "\n"@ + "**How to replicate elsewhere:** "@
            + entry@.how_to_replicate + "\n"@ + "\n"@ + "---"@ + "\n"@,
{
    let mut lines: Vec<String> = Vec::new();
    lines.push(text::concat2("## ", timestamp_iso));
    lines.push(String::new());
    lines.push(text::concat2("**What:** ", entry.what.as_str()));
    lines.push(text::concat2("**Why:** ", entry.why.as_str()));
    lines.push(
        text::concat2("**How to replicate elsewhere:** ", entry.how_to_replicate.as_str()),
    );
    lines.push(String::new());
    lines.push("---".to_owned());
    lines.push(String::new());
    proof {
        assert(text::views(lines@) =~= entry_lines(entry@, timestamp_iso@));
        entries_read(entry@, timestamp_iso@);
    }
    text::join(lines.as_slice(), "\n")
}

/// A short message for people.
pub fn build_notify_message(entry: &ChangelogEntry) -> (r: String)
    ensures
        r@ == notify_text(entry@),
        r@ == "[watch/decide auto-improve] "@ + entry.what@ + "\nWhy: "@ + entry.why@,
{
    let head = text::concat3("[watch/decide auto-improve] ", entry.what.as_str(), "\nWhy: ");
    text::concat2(head.as_str(), entry.why.as_str())
}

/// The arguments of the `hermes` command that sends the message to a target,
/// each its own entry so that none is read as shell syntax.
pub fn build_notify_args(entry: &ChangelogEntry, target: &str) -> (r: Vec<String>)
    ensures
        text::views(r@) == seq!["send"@, "--to"@, target@, notify_text(entry@)],
{
    let mut args: Vec<String> = Vec::new();
    args.push("send".to_owned());
    args.push("--to".to_owned());
    args.push(target.to_owned());
    args.push(build_notify_message(entry));
    proof {
        assert(text::views(args@) =~= seq!["send"@, "--to"@, target@, notify_text(entry@)]);
    }
    args
}

/// The entry that a person adds by hand.
pub fn build_changelog_entry(what: &str, why: &str, how: Option<&str>) -> (r: ChangelogEntry)
    ensures
        r@ == (EntryView {
            what: what@,
            why: why@,
            how_to_replicate: match how {
                Some(given) => given@,
                None => default_how_to_replicate(),
            },
        }),
        how is None ==> r.how_to_replicate@
            == "Apply the same change to config/patterns.default.json (or the per-profile override) in every other agent using this watch/decide pattern."@,
{
    let how_to_replicate = match how {
        Some(given) => given.to_owned(),
        None =>
            "Apply the same change to config/patterns.default.json (or the per-profile override) in every other agent using this watch/decide pattern.".to_owned(),
    };
    ChangelogEntry { what: what.to_owned(), why: why.to_owned(), how_to_replicate }
}

/// An entry can be traced: its text holds the time, what was changed, why, and
/// how to do the same elsewhere.
pub proof fn entry_text_holds_everything(entry: EntryView, timestamp: Seq<char>)
    ensures
        text::occurs(timestamp, entry_text(entry, timestamp)),
        text::occurs(entry.what, entry_text(entry, timestamp)),
        text::occurs(entry.why, entry_text(entry, timestamp)),
        text::occurs(entry.how_to_replicate, entry_text(entry, timestamp)),
{
    let lines = entry_lines(entry, timestamp);
    line_holds(lines, 0, "## "@, timestamp);
    line_holds(lines, 2, "**What:** "@, entry.what);
    line_holds(lines, 3, "**Why:** "@, entry.why);
    line_holds(lines, 4, "**How to replicate elsewhere:** "@, entry.how_to_replicate);
}

/// What stands behind the label of a line stands in the joined lines.
proof fn line_holds(lines: Seq<Seq<char>>, i: int, label: Seq<char>, value: Seq<char>)
    requires
        0 <= i < lines.len(),
        lines[i] == label + value,
    ensures
        text::occurs(value, text::joined(lines, "\n"@)),
{
    let whole = text::joined(lines, "\n"@);
    text::piece_occurs_in_joined(lines, "\n"@, i);
    let (b, a) = choose|b: Seq<char>, a: Seq<char>| #[trigger] (b + lines[i] + a) == whole;
    assert((b + label) + value + a =~= whole);
}

/// The message names what was changed and why.
pub proof fn notify_text_names_what_and_why(entry: EntryView)
    ensures
        text::occurs(entry.what, notify_text(entry)),
        text::occurs(entry.why, notify_text(entry)),
{
    let front = "[watch/decide auto-improve] "@;
    assert(front + entry.what + ("\nWhy: "@ + entry.why) =~= notify_text(entry));
    assert((front + entry.what + "\nWhy: "@) + entry.why + Seq::<char>::empty() =~= notify_text(
        entry,
    ));
}

/// An entry reads: a heading with the time, then what, why and how to do the same
/// elsewhere, each in a line of its own behind its label, and a rule at the end.
pub proof fn entries_read(entry: EntryView, timestamp: Seq<char>)
    ensures
        entry_text(entry, timestamp) == "## "@ + timestamp + "\n"@ + "\n"@ + "**What:** "@
            + entry.what + "\n"@ + "**Why:** "@ + entry.why + "\n"@
            + "**How to replicate elsewhere:** "@ + entry.how_to_replicate + "\n"@ + "\n"@
            + "---"@ + "\n"@,
{
    let sep = "\n"@;
    let lines = entry_lines(entry, timestamp);
    let a = "## "@ + timestamp;
    let b = "**What:** "@ + entry.what;
    let c = "**Why:** "@ + entry.why;
    let d = "**How to replicate elsewhere:** "@ + entry.how_to_replicate;
    let e = Seq::<char>::empty();
    let rule = "---"@;
    assert(lines =~= seq![a, e, b, c, d, e, rule, e]);
    assert(lines.take(1) =~= seq![a]);
    assert(text::joined(lines.take(1), sep) == a);
    assert forall|n: int| 1 <= n < 8 implies #[trigger] text::joined(lines.take(n + 1), sep)
        == text::joined(lines.take(n), sep) + sep + lines[n] by {
        assert(lines.take(n + 1).drop_last() =~= lines.take(n));
    }
    assert(lines.take(8) =~= lines);
    assert(text::joined(lines.take(1int + 1), sep) == a + sep + e);
    assert(text::joined(lines.take(2int + 1), sep) == a + sep + e + sep + b);
    assert(text::joined(lines.take(3int + 1), sep) == a + sep + e + sep + b + sep + c);
    assert(text::joined(lines.take(4int + 1), sep) == a + sep + e + sep + b + sep + c + sep + d);
    assert(text::joined(lines.take(5int + 1), sep) == a + sep + e + sep + b + sep + c + sep + d + sep
        + e);
    assert(text::joined(lines.take(6int + 1), sep) == a + sep + e + sep + b + sep + c + sep + d + sep
        + e + sep + rule);
    assert(text::joined(lines.take(7int + 1), sep) == a + sep + e + sep + b + sep + c + sep + d + sep
        + e + sep + rule + sep + e);
    let head = "## "@ + timestamp + sep + sep;
    assert(a + sep + e + sep =~= head);
    let second = head + "**What:** "@ + entry.what + sep;
    assert(head + b + sep =~= second);
    let third = second + "**Why:** "@ + entry.why + sep;
    assert(second + c + sep =~= third);
    let fourth = third + "**How to replicate elsewhere:** "@ + entry.how_to_replicate + sep;
    assert(third + d + sep =~= fourth);
    assert(fourth + e + sep + rule + sep + e =~= fourth + sep + rule + sep);
}

} // verus!
