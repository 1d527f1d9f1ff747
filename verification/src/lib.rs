//! Verified core of the `cbc` chatbotchat client: the state-file parsers and
//! poll reconcile behind the agent-session hooks, the background-poll decision
//! machine, and the text the CLI and MCP surfaces hand back to agents.
pub mod text;
pub mod statefile;
pub mod hook;
pub mod json;
pub mod reconcile;
pub mod num;
pub mod wait_status;
pub mod protocol;
pub mod poll;
pub mod session;
pub mod settings;
pub mod render;
pub mod guidance;
pub mod context;
pub mod ps;
pub mod install;
pub mod server;
pub mod scan;
pub mod skill;
pub mod report;
pub mod payload;
