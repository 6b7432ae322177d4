//! The session core of a coding agent: conversation state, tool calls, waits,
//! compaction and the rules that drive one turn of a session.

pub mod text;
pub mod session;
pub mod arguments;
pub mod message;
pub mod error;
pub mod status_report;
pub mod compaction;
pub mod channel;
pub mod table;
pub mod wait;
pub mod session_tree;
pub mod tools;
pub mod plan;
pub mod prompt;
pub mod filesystem;
pub mod conversation;
pub mod log;
pub mod permissions;
pub mod commands;
pub mod restore;
pub mod context;
pub mod model_call;
pub mod effect;
pub mod compaction_run;
pub mod turn;
pub mod turn_laws;
pub mod tool_run;
pub mod actor;
pub mod core_loop;
pub mod core_sessions;
pub mod memory;
pub mod ipc;
pub mod config;
pub mod laws;
