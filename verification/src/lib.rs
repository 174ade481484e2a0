//! Workspace-guarded file access and a native shell runtime.

pub mod atomic;
pub mod atomic_laws;
pub mod command;
pub mod command_laws;
pub mod guard;
pub mod message_laws;
pub mod outcome_laws;
pub mod output;
pub mod path;
pub mod path_laws;
pub mod render_laws;
pub mod request;
pub mod resolve;
pub mod resolve_laws;
pub mod resolve_write;
pub mod runtime;
pub mod search;
pub mod stream;
pub mod stream_laws;
pub mod terminal;
pub mod terminal_laws;
pub mod text;
pub mod text_laws;
pub mod view_laws;
pub mod workspace;
