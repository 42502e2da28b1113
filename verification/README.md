# tmux-watch

Watches a coding agent in a tmux pane without calling a language model, and
wakes the decide loop only on a real decision point: a settled prompt, a
finished task, an error, captures that keep failing, or a check-in after the
safety timeout. Prompts that a rule knows can be answered on the spot.

The library in `src/` decides and is verified with Verus; it does no input or
output. The command in `app/` captures panes, sends keys, reads the clock and
the configuration files, and writes the logs.

| module | what it decides |
|---|---|
| `text_diff` | which lines a capture adds to the one before it |
| `classifier`, `pattern` | what a delta is recognised as |
| `state_machine` | when output has settled, and when to poll again |
| `watch_state`, `watch_loop`, `watch_laws` | what a step of the watch loop leads to |
| `auto_respond`, `auto_respond_laws` | which rule answers a prompt, within which limits |
| `summarizer`, `rolling_context` | what an event says of the lines |
| `circuit_breaker`, `supervisor` | when crashes stop the command, where events go |
| `log_store`, `changelog` | how the raw log rotates, what the changelog says |
| `config`, `profile`, `session_discovery`, `tmux` | layers of configuration, places, sessions, arguments |
| `calendar`, `text`, `types` | dates, text and shared types |
| `dry_run`, `measurement` | how a dry run and a measurement are counted |

The `regex`, `serde_json`, `sha2` and `hex` crates are called from `src/` behind
functions whose contracts name what the calls return.
