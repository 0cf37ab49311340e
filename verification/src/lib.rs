//! Verified core of the screenshot sync workflow: configuration rules,
//! hotkey grammar, storage naming, SSH host-key and authentication decisions,
//! the runtime state machine and the MCP request handling.

pub mod text;
pub mod paths;
pub mod hotkey;
pub mod config;
pub mod interaction;
pub mod client;
pub mod upload;
pub mod runtime;
pub mod image_files;
pub mod mcp;
pub mod image_input;
pub mod hotkey_runtime;
pub mod desktop;
