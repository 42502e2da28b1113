use std::path::PathBuf;
use tmux_watch::profile::{
    log_file_name, preset_file_name, resolve_hermes_home, resolve_profile_home, Location,
};
use tmux_watch::supervisor::{AfterStep, EventSink, Next, Supervisor};
use tmux_watch::types::CircuitBreakerConfig;

fn path(location: Location) -> PathBuf {
    let mut path = PathBuf::from(location.base);
    for segment in location.segments {
        path.push(segment);
    }
    path
}

#[test]
fn default_profile_resolves_to_hermes_home_itself() {
    let home = Some("/tmp/hermes-home-test");
    assert_eq!(
        path(resolve_profile_home(home, None, "default")),
        PathBuf::from("/tmp/hermes-home-test")
    );
    assert_eq!(
        path(resolve_profile_home(home, None, "prod")),
        PathBuf::from("/tmp/hermes-home-test/profiles/prod")
    );
}

#[test]
fn without_its_own_variable_the_home_lies_below_the_home_directory() {
    assert_eq!(
        path(resolve_hermes_home(None, Some("/home/me"))),
        PathBuf::from("/home/me/.hermes")
    );
    assert_eq!(
        path(resolve_hermes_home(Some(""), Some("/home/me"))),
        PathBuf::from("/home/me/.hermes")
    );
    assert_eq!(path(resolve_hermes_home(None, None)), PathBuf::from(".hermes"));
    assert_eq!(
        path(resolve_profile_home(None, Some("/home/me"), "work")),
        PathBuf::from("/home/me/.hermes/profiles/work")
    );
}

#[test]
fn files_are_named_after_the_session_and_the_agent() {
    assert_eq!(log_file_name("dev"), "tmux-dev.log");
    assert_eq!(preset_file_name("codex"), "codex.patterns.json");
}

fn supervisor(dry_run: bool, once: bool) -> Supervisor {
    Supervisor::new(
        "dev",
        "prod",
        dry_run,
        once,
        12_000,
        CircuitBreakerConfig {
            max_crashes: 3,
            window_ms: 600_000,
        },
    )
}

#[test]
fn an_event_goes_to_the_decide_loop_or_to_the_dry_run() {
    assert_eq!(
        supervisor(false, false).on_step(true, 2000),
        AfterStep {
            sink: Some(EventSink::DecideLoop),
            next: Next::Sleep { ms: 2000 }
        }
    );
    assert_eq!(
        supervisor(true, false).on_step(true, 2000),
        AfterStep {
            sink: Some(EventSink::DryRunLog),
            next: Next::Sleep { ms: 2000 }
        }
    );
}

#[test]
fn a_run_for_one_event_ends_with_it() {
    let once = supervisor(false, true);
    assert_eq!(
        once.on_step(false, 3000),
        AfterStep {
            sink: None,
            next: Next::Sleep { ms: 3000 }
        }
    );
    assert_eq!(once.on_step(true, 3000).next, Next::Exit { code: 0 });
}

#[test]
fn crashes_back_off_until_the_breaker_trips() {
    let mut s = supervisor(false, false);
    let first = s.on_crash(0);
    assert_eq!(first.crashes_in_window, 1);
    assert_eq!(first.next, Next::Sleep { ms: 12_000 });
    assert!(first.incident.is_none());
    assert_eq!(s.on_crash(1000).next, Next::Sleep { ms: 12_000 });
    let third = s.on_crash(2000);
    assert_eq!(third.crashes_in_window, 3);
    assert_eq!(third.next, Next::Exit { code: 1 });
    let incident = match third.incident {
        Some(entry) => entry,
        None => panic!("the incident is missing"),
    };
    assert_eq!(
        incident.what,
        "tmux-watch circuit breaker tripped for session dev (profile prod)"
    );
    assert_eq!(incident.why, "3 crashes within the configured window");
    assert_eq!(
        incident.how_to_replicate,
        "n/a — this is an incident notification, not a pattern change"
    );
}

#[test]
fn crashes_far_apart_never_stop_the_command() {
    let mut s = supervisor(false, false);
    for i in 0..10u128 {
        assert_eq!(s.on_crash(i * 600_000).next, Next::Sleep { ms: 12_000 });
    }
}

#[test]
fn crashes_that_trickle_in_stop_the_command_once_three_are_close() {
    let mut s = supervisor(false, false);
    for now in [0u128, 400_000, 800_000, 1_100_000] {
        assert_eq!(s.on_crash(now).next, Next::Sleep { ms: 12_000 });
    }
    let last = s.on_crash(1_399_999);
    assert_eq!(last.crashes_in_window, 3);
    assert_eq!(last.next, Next::Exit { code: 1 });
}
