//! The core of claustre: tasks, sessions, terminals and the rules that tie them together.

pub mod cli;
pub mod clock;
pub mod config;
pub mod configure;
pub mod desktop;
pub mod github;
pub mod json;
pub mod mcp;
pub mod num;
pub mod paths;
pub mod pty;
pub mod rows;
pub mod scanner;
pub mod session;
pub mod session_host;
pub mod session_update;
pub mod skills;
pub mod store;
pub mod text;
pub mod textset;
pub mod wizard;
