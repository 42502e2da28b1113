//! Regular expressions. The `regex` crate compiles and matches them; this
//! module names what its calls return, so that the contracts of the callers can
//! speak of it.
use crate::summarizer;
use crate::text;
use regex::Regex;
use vstd::prelude::*;

verus! {

/// A compiled expression of the `regex` crate, carried as an opaque value.
#[verifier::external_type_specification]
#[verifier::external_body]
pub struct ExRegex(regex::Regex);

/// The source text that `Regex::as_str` returns for a compiled expression.
pub uninterp spec fn regex_source(re: Regex) -> Seq<char>;

/// What `Regex::new` makes of a source text on a machine with pointers of the
/// given width: `None` when it compiles, else the text of the error. The width
/// counts because the limit on the size of the compiled program is in bytes.
pub uninterp spec fn regex_build_error(source: Seq<char>, pointer_bits: nat) -> Option<Seq<char>>;

/// Whether `Regex::is_match` of the expression that `Regex::new` makes of this
/// source finds a match anywhere in the text.
pub uninterp spec fn regex_finds(source: Seq<char>, text: Seq<char>) -> bool;

/// What `Regex::captures_iter` of the expression that `Regex::new` makes of this
/// source yields on the text: for each match, in order, the part that the numbered
/// group took, if it took part in the match.
pub uninterp spec fn regex_captured(source: Seq<char>, text: Seq<char>, group: nat) -> Seq<
    Option<Seq<char>>,
>;

/// The error that compiling `source` on this machine gives, if any.
pub open spec fn build_error(source: Seq<char>) -> Option<Seq<char>> {
    regex_build_error(source, usize::BITS as nat)
}

/// The sources that the library itself writes down.
pub open spec fn built_in(source: Seq<char>) -> bool {
    ||| source == summarizer::file_source()
    ||| source == summarizer::pr_source()
    ||| source == summarizer::command_source()
}

/// `Regex::new`. It is claimed that whether the source compiles, and the text
/// of the error if it does not, depend on the source and the width of a pointer
/// alone, that a compiled expression keeps its source, and that the three sources
/// which the library itself writes down are valid and small enough to compile.
#[verifier::external_body]
fn new_regex(source: &str) -> (r: Result<Regex, String>)
    ensures
        match r {
            Ok(re) => regex_build_error(source@, usize::BITS as nat) is None && regex_source(re)
                == source@,
            Err(message) => regex_build_error(source@, usize::BITS as nat) == Some(message@),
        },
        built_in(source@) ==> r is Ok,
{
    Regex::new(source).map_err(|e| e.to_string())
}

/// A regular expression that `Regex::new` compiled from its source. Only
/// `compile` makes one, so that no expression with options set from outside its
/// source, which `Regex::as_str` does not show, can be among them.
pub struct Pattern {
    re: Regex,
}

/// `Regex::as_str`: the source text that the expression was compiled from.
#[verifier::external_body]
fn source_text(p: &Pattern) -> (r: &str)
    ensures
        r@ == regex_source(p.re),
{
    p.re.as_str()
}

/// `Regex::is_match`. It is claimed that for an expression that `Regex::new` made
/// the answer depends on its source and the text alone.
#[verifier::external_body]
pub(crate) fn finds(p: &Pattern, text: &str) -> (r: bool)
    ensures
        r == regex_finds(p.source(), text@),
{
    p.re.is_match(text)
}

/// `Regex::captures_iter`, with the part that one group took of each match. It
/// is claimed that for an expression that `Regex::new` made the parts depend on
/// its source, the text and the group alone.
#[verifier::external_body]
pub(crate) fn captured(p: &Pattern, text: &str, group: usize) -> (r: Vec<Option<String>>)
    ensures
        text::option_views(r@) == regex_captured(p.source(), text@, group as nat),
{
    p.re.captures_iter(text).map(|c| c.get(group).map(|m| m.as_str().to_string())).collect()
}

impl Pattern {
    /// The source that the pattern was compiled from.
    pub closed spec fn source(&self) -> Seq<char> {
        regex_source(self.re)
    }

    /// The source that the pattern was compiled from.
    pub fn as_str(&self) -> (r: &str)
        ensures
            r@ == self.source(),
    {
        source_text(self)
    }

    /// Whether the pattern finds a match anywhere in the text.
    pub fn is_match(&self, text: &str) -> (r: bool)
        ensures
            r == regex_finds(self.source(), text@),
    {
        finds(self, text)
    }
}

/// Compiles `source` as it stands.
pub fn compile(source: &str) -> (r: Result<Pattern, String>)
    ensures
        match r {
            Ok(p) => build_error(source@) is None && p.source() == source@,
            Err(message) => build_error(source@) == Some(message@),
        },
        built_in(source@) ==> r is Ok,
{
    match new_regex(source) {
        Ok(re) => Ok(Pattern { re }),
        Err(message) => Err(message),
    }
}

/// `source` with the flag in front under which `^` and `$` match at every line.
pub open spec fn multiline(source: Seq<char>) -> Seq<char> {
    "(?m)"@ + source
}

/// Compiles `source` with multiline mode forced on. Without it `^` anchors only
/// at the start of the whole text, not at the start of each line.
pub fn compile_multiline(source: &str) -> (r: Result<Pattern, String>)
    ensures
        match r {
            Ok(p) => build_error(multiline(source@)) is None && p.source() == multiline(source@),
            Err(message) => build_error(multiline(source@)) == Some(message@),
        },
        r matches Ok(p) ==> p.source() == "(?m)"@ + source@,
{
    let full = text::concat2("(?m)", source);
    compile(full.as_str())
}

} // verus!
