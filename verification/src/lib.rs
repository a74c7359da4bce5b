//! Backup configurations: identifiers, archive prefixes, the rules that keep archive prefixes
//! apart within one repository, the list of configured backups, and the decisions behind the
//! status that the application shows.

pub mod backup;
pub mod error;
pub mod paths;
pub mod prune;
pub mod schedule;
pub mod session;
pub mod status;
pub mod text;
