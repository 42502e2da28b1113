//! Watches a coding agent in a tmux pane without calling a language model, and
//! wakes the decide loop only on a real decision point.
//!
//! The library decides; it does no input or output. A caller captures panes,
//! sends keys, reads the clock and writes files, and hands over what came of it.
pub mod auto_respond;
pub mod auto_respond_laws;
pub mod calendar;
pub mod changelog;
pub mod circuit_breaker;
pub mod classifier;
pub mod config;
pub mod dry_run;
pub mod log_store;
pub mod measurement;
pub mod pattern;
pub mod profile;
pub mod rolling_context;
pub mod session_discovery;
pub mod state_machine;
pub mod step_laws;
pub mod summarizer;
pub mod supervisor;
pub mod text;
pub mod text_diff;
pub mod tmux;
pub mod types;
pub mod view_laws;
pub mod watch_laws;
pub mod watch_loop;
pub mod watch_state;
