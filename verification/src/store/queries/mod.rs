//! Reading and changing the tables.

pub mod external_sessions;
pub mod projects;
pub mod rate_limits;
pub mod sessions;
pub mod stats;
pub mod subtasks;
pub mod sync;
pub mod tasks;
