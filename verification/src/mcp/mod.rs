//! The tool server: message framing, the tools on offer, and what a call does.

pub mod bridge;
pub mod frames;
pub mod laws;
pub mod requests;
pub mod tools;
