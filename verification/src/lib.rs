//! Verified decision logic of the Codex command-line tools: commit attribution
//! instructions, model shortcuts and keymap paths, the debug-logs command, the
//! rotating TUI log, and the remote compaction response handling.
pub mod text;
pub mod commit_attribution;
pub mod model_actions;
pub mod status_command_fragments;
pub mod model_shortcuts;
pub mod colors;
pub mod clock;
pub mod debug_logs;
pub mod log_format;
pub mod logging;
pub mod compact_remote_v2;
