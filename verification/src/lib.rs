//! Core of an interactive coding agent: the conversation model, the agent
//! turn, the session journal, the extension hostcall dispatcher and the
//! rules that surround them, each with a machine-checked contract.

pub mod agent;
pub mod compat_scanner;
pub mod error;
pub mod ext_log;
pub mod extension_dispatcher;
pub mod hostcall_queue;
pub mod interactive;
pub mod json;
pub mod model;
pub mod provider;
pub mod rpc;
pub mod scheduler;
pub mod screen;
pub mod session;
pub mod session_file;
pub mod session_index;
pub mod session_path;
pub mod session_picker;
pub mod text;
pub mod theme;
pub mod tools;
pub mod tui;
pub mod turn;
pub mod ui_state;
