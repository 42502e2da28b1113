//! The arguments of the tmux commands and what is made of their outcome.
use crate::text;
use vstd::prelude::*;

verus! {

/// The arguments that capture a pane.
pub open spec fn capture_args(session: Seq<char>) -> Seq<Seq<char>> {
    seq!["capture-pane"@, "-p"@, "-J"@, "-t"@, session]
}

/// The arguments that list the sessions.
pub open spec fn list_sessions_args() -> Seq<Seq<char>> {
    seq!["list-sessions"@, "-F"@, "#{session_name}"@]
}

/// The arguments that send keys to a pane.
pub open spec fn send_keys_args(session: Seq<char>, keys: Seq<Seq<char>>) -> Seq<Seq<char>> {
    seq!["send-keys"@, "-t"@, session] + keys
}

/// `-p -J`, never `-e`: plain text with wrapped lines joined back together and
/// no escape sequences. Anchored patterns break as soon as colour codes stand in
/// the captured text.
pub fn build_capture_args(session: &str) -> (r: Vec<String>)
    ensures
        text::views(r@) == capture_args(session@),
        text::views(r@) == seq!["capture-pane"@, "-p"@, "-J"@, "-t"@, session@],
{
    let mut args: Vec<String> = Vec::new();
    args.push("capture-pane".to_owned());
    args.push("-p".to_owned());
    args.push("-J".to_owned());
    args.push("-t".to_owned());
    args.push(session.to_owned());
    proof {
        assert(text::views(args@) =~= capture_args(session@));
    }
    args
}

pub fn build_list_sessions_args() -> (r: Vec<String>)
    ensures
        text::views(r@) == list_sessions_args(),
        text::views(r@) == seq!["list-sessions"@, "-F"@, "#{session_name}"@],
{
    let mut args: Vec<String> = Vec::new();
    args.push("list-sessions".to_owned());
    args.push("-F".to_owned());
    args.push("#{session_name}".to_owned());
    proof {
        assert(text::views(args@) =~= list_sessions_args());
    }
    args
}

/// Every key is an argument of its own, and so is the session, so that neither is
/// read as shell syntax.
pub fn build_send_keys_args(session: &str, keys: &[String]) -> (r: Vec<String>)
    ensures
        text::views(r@) == send_keys_args(session@, text::views(keys@)),
        text::views(r@) == seq!["send-keys"@, "-t"@, session@] + text::views(keys@),
{
    let mut args: Vec<String> = Vec::new();
    args.push("send-keys".to_owned());
    args.push("-t".to_owned());
    args.push(session.to_owned());
    let ghost all = text::views(keys@);
    let ghost head = seq!["send-keys"@, "-t"@, session@];
    let mut i: usize = 0;
    proof {
        assert(text::views(args@) =~= head + all.take(0));
    }
    while i < keys.len()
        invariant
            i <= keys@.len(),
            all == text::views(keys@),
            text::views(args@) == head + all.take(i as int),
        decreases keys@.len() - i,
    {
        let ghost before = text::views(args@);
        args.push(keys[i].clone());
        proof {
            assert(text::views(args@) =~= before.push(all[i as int]));
            assert(before.push(all[i as int]) =~= head + all.take(i + 1));
        }
        i += 1;
    }
    proof {
        assert(all.take(i as int) =~= all);
    }
    args
}

/// What is said of a capture that failed.
pub open spec fn capture_error(session: Seq<char>, stderr: Seq<char>) -> Seq<char> {
    "tmux capture-pane failed for session "@ + session + ": "@ + text::trimmed(stderr)
}

/// What is said of keys that could not be sent.
pub open spec fn send_keys_error(session: Seq<char>, stderr: Seq<char>) -> Seq<char> {
    "tmux send-keys failed for "@ + session + ": "@ + text::trimmed(stderr)
}

/// What the capture command came to: the pane as it stands on the output, or the
/// error with what the command said.
pub fn capture_pane(session: &str, success: bool, stdout: String, stderr: &str) -> (r: Result<
    String,
    String,
>)
    ensures
        match r {
            Ok(content) => success && content@ == stdout@,
            Err(message) => !success && message@ == capture_error(session@, stderr@),
        },
        r matches Err(message) ==> message@ == "tmux capture-pane failed for session "@ + session@
            + ": "@ + text::trimmed(stderr@),
{
    if success {
        Ok(stdout)
    } else {
        let head = text::concat3("tmux capture-pane failed for session ", session, ": ");
        Err(text::concat2(head.as_str(), text::trim(stderr).as_str()))
    }
}

/// What the command that sends keys came to.
pub fn send_keys(session: &str, success: bool, stderr: &str) -> (r: Result<(), String>)
    ensures
        match r {
            Ok(_) => success,
            Err(message) => !success && message@ == send_keys_error(session@, stderr@),
        },
        r matches Err(message) ==> message@ == "tmux send-keys failed for "@ + session@ + ": "@
            + text::trimmed(stderr@),
{
    if success {
        Ok(())
    } else {
        let head = text::concat3("tmux send-keys failed for ", session, ": ");
        Err(text::concat2(head.as_str(), text::trim(stderr).as_str()))
    }
}

/// The output of the command that lists the sessions; nothing where it failed,
/// as it does where no server is running.
pub fn list_sessions(success: bool, stdout: String) -> (r: String)
    ensures
        r@ == if success {
            stdout@
        } else {
            Seq::empty()
        },
{
    if success {
        stdout
    } else {
        String::new()
    }
}

/// The session is handed over as it is, behind its own flag, and the captured
/// text is asked for without escape sequences.
pub proof fn capture_args_are_plain(session: Seq<char>)
    ensures
        capture_args(session).len() == 5,
        capture_args(session)[3] == "-t"@,
        capture_args(session)[4] == session,
        forall|i: int| 0 <= i < 4 ==> #[trigger] capture_args(session)[i] != "-e"@,
{
    reveal_strlit("capture-pane");
    reveal_strlit("-p");
    reveal_strlit("-J");
    reveal_strlit("-t");
    reveal_strlit("-e");
    assert("-p"@[1] == 'p');
    assert("-J"@[1] == 'J');
    assert("-t"@[1] == 't');
    assert("-e"@[1] == 'e');
}

/// The session and every key are handed over as they are, each in a place of its
/// own.
pub proof fn send_keys_args_are_plain(session: Seq<char>, keys: Seq<Seq<char>>)
    ensures
        send_keys_args(session, keys).len() == keys.len() + 3,
        send_keys_args(session, keys)[0] == "send-keys"@,
        send_keys_args(session, keys)[1] == "-t"@,
        send_keys_args(session, keys)[2] == session,
        forall|i: int|
            0 <= i < keys.len() ==> send_keys_args(session, keys)[i + 3] == #[trigger] keys[i],
{
}

/// The commands are spelled out: a plain capture with wrapped lines joined, and a
/// listing of the names alone.
pub proof fn commands_are_spelled_out(session: Seq<char>, stderr: Seq<char>)
    ensures
        capture_args(session) == seq!["capture-pane"@, "-p"@, "-J"@, "-t"@, session],
        list_sessions_args() == seq!["list-sessions"@, "-F"@, "#{session_name}"@],
        capture_error(session, stderr) == "tmux capture-pane failed for session "@ + session
            + ": "@ + text::trimmed(stderr),
        send_keys_error(session, stderr) == "tmux send-keys failed for "@ + session + ": "@
            + text::trimmed(stderr),
{
}

} // verus!
