//! The tool layer of a terminal agent: the checks on shell commands, the
//! routing of tool calls, the background job table, and the text of the
//! interactive prompt, each stated as a contract and proved.

pub mod banner;
pub mod commands;
pub mod config_paths;
pub mod executor;
pub mod fs_services;
pub mod jobs;
pub mod paths;
pub mod prompt;
pub mod shell;
pub mod shell_service;
pub mod state;
pub mod text;
pub mod tool_executor;
