//! Shell-history search helpers: command-line editing, command simplification,
//! history-file parsing and the decisions of the interactive search interface.
pub mod bash_history;
pub mod cli;
pub mod colors;
pub mod command_input;
pub mod display;
pub mod dumper;
pub mod fixed_length_grapheme_string;
pub mod graphemes;
pub mod history;
pub mod history_path_updater;
pub mod init;
pub mod interface;
pub mod number;
pub mod path_update_helpers;
pub mod pattern;
pub mod schema;
pub mod settings;
pub mod shell_history;
pub mod simplified_command;
pub mod text;
pub mod time;
