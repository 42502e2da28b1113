//! Where the files of a profile lie.
use crate::text;
use vstd::prelude::*;

verus! {

/// A directory, given as a base and the names to join to it in turn.
#[derive(Debug)]
pub struct Location {
    pub base: String,
    pub segments: Vec<String>,
}

/// A location as plain text.
#[verifier::ext_equal]
pub struct LocationView {
    pub base: Seq<char>,
    pub segments: Seq<Seq<char>>,
}

impl View for Location {
    type V = LocationView;

    open spec fn view(&self) -> LocationView {
        LocationView { base: self.base@, segments: text::views(self.segments@) }
    }
}

/// The characters of the text, if there is one.
pub open spec fn given(value: Option<&str>) -> Option<Seq<char>> {
    match value {
        Some(s) => Some(s@),
        None => None,
    }
}

/// The home of Hermes: what `HERMES_HOME` says, unless it is unset or empty;
/// else `.hermes` in the home directory.
pub open spec fn hermes_home(
    hermes_home_var: Option<Seq<char>>,
    home_var: Option<Seq<char>>,
) -> LocationView {
    if hermes_home_var is Some && hermes_home_var->0.len() > 0 {
        LocationView { base: hermes_home_var->0, segments: Seq::empty() }
    } else {
        LocationView {
            base: match home_var {
                Some(home) => home,
                None => Seq::empty(),
            },
            segments: seq![".hermes"@],
        }
    }
}

/// The home of a profile: that of Hermes for the default one, else a directory
/// of its own below `profiles`.
pub open spec fn profile_home(home: LocationView, profile: Seq<char>) -> LocationView {
    if profile == "default"@ {
        home
    } else {
        LocationView { segments: home.segments + seq!["profiles"@, profile], ..home }
    }
}

/// The home of Hermes by the two variables of the environment.
pub fn resolve_hermes_home(hermes_home_var: Option<&str>, home_var: Option<&str>) -> (r: Location)
    ensures
        r@ == hermes_home(given(hermes_home_var), given(home_var)),
        hermes_home_var is Some && hermes_home_var->0@.len() > 0 ==> r.base@ == hermes_home_var->0@
            && r.segments@.len() == 0,
        hermes_home_var is None || hermes_home_var->0@.len() == 0 ==> text::views(r.segments@)
            == seq![".hermes"@] && r.base@ == match home_var {
            Some(home) => home@,
            None => Seq::empty(),
        },
{
    if let Some(home) = hermes_home_var {
        if !home.is_empty() {
            let r = Location { base: home.to_owned(), segments: Vec::new() };
            assert(r@.segments =~= Seq::empty());
            return r;
        }
    }
    let base = match home_var {
        Some(home) => home.to_owned(),
        None => String::new(),
    };
    let mut segments: Vec<String> = Vec::new();
    segments.push(".hermes".to_owned());
    let r = Location { base, segments };
    assert(r@.segments =~= seq![".hermes"@]);
    r
}

/// The home of a profile by its name and the two variables of the environment.
pub fn resolve_profile_home(
    hermes_home_var: Option<&str>,
    home_var: Option<&str>,
    profile: &str,
) -> (r: Location)
    ensures
        r@ == profile_home(hermes_home(given(hermes_home_var), given(home_var)), profile@),
        r.base@ == hermes_home(given(hermes_home_var), given(home_var)).base,
        text::views(r.segments@) == hermes_home(given(hermes_home_var), given(home_var)).segments
            + (if profile@ == "default"@ {
            Seq::empty()
        } else {
            seq!["profiles"@, profile@]
        }),
{
    let mut home = resolve_hermes_home(hermes_home_var, home_var);
    if !text::same_text(profile, "default") {
        let ghost before = home@;
        home.segments.push("profiles".to_owned());
        home.segments.push(profile.to_owned());
        assert(home@.segments =~= before.segments + seq!["profiles"@, profile@]);
    }
    home
}

/// The name of the raw log of a session.
pub fn log_file_name(session: &str) -> (r: String)
    ensures
        r@ == "tmux-"@ + session@ + ".log"@,
{
    text::concat3("tmux-", session, ".log")
}

/// The name of the pattern file of an agent.
pub fn preset_file_name(agent: &str) -> (r: String)
    ensures
        r@ == agent@ + ".patterns.json"@,
{
    text::concat2(agent, ".patterns.json")
}

/// Two profiles have the same home only where they have the same name.
pub proof fn profiles_have_their_own_homes(home: LocationView, a: Seq<char>, b: Seq<char>)
    requires
        profile_home(home, a) == profile_home(home, b),
    ensures
        a == b,
{
    let n = home.segments.len() as int;
    if a != "default"@ && b != "default"@ {
        assert(profile_home(home, a).segments[n + 1] == a);
        assert(profile_home(home, b).segments[n + 1] == b);
    } else if a != b {
        assert(profile_home(home, a).segments.len() != profile_home(home, b).segments.len());
    }
}

/// The home of Hermes is what its own variable says where that is set to something,
/// and else `.hermes` in the home directory; the default profile lives there, and
/// every other in a directory of its own name below `profiles`.
pub proof fn homes_lie_where_the_variables_say(
    hermes: Option<Seq<char>>,
    home: Option<Seq<char>>,
    profile: Seq<char>,
)
    ensures
        ({
            let own = hermes matches Some(path) && path.len() > 0;
            let place = profile_home(hermes_home(hermes, home), profile);
            &&& own ==> place.base == hermes->0
            &&& !own && home is Some ==> place.base == home->0
            &&& !own && home is None ==> place.base.len() == 0
            &&& own && profile == "default"@ ==> place.segments.len() == 0
            &&& own && profile != "default"@ ==> place.segments == seq!["profiles"@, profile]
            &&& !own && profile == "default"@ ==> place.segments == seq![".hermes"@]
            &&& !own && profile != "default"@ ==> place.segments == seq![
                ".hermes"@,
                "profiles"@,
                profile,
            ]
        }),
{
    let place = profile_home(hermes_home(hermes, home), profile);
    assert(Seq::<Seq<char>>::empty() + seq!["profiles"@, profile] =~= seq!["profiles"@, profile]);
    assert(seq![".hermes"@] + seq!["profiles"@, profile] =~= seq![
        ".hermes"@,
        "profiles"@,
        profile,
    ]);
}

} // verus!
