//! Decision core of the keel coding workspace: the chat-completions protocol of its in-process
//! loops, the harness that they are to the host, the routing of new tasks, and the host's own
//! rules.

pub mod adapter;
pub mod bridge;
pub mod chat;
pub mod cli;
pub mod drive;
pub mod host;
pub mod json;
pub mod og;
pub mod proto;
pub mod route_run;
pub mod routing;
pub mod serialize;
pub mod stream_laws;
pub mod table;
pub mod text;
pub mod translate;
pub mod transport;
pub mod wire;
