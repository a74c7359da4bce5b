//! Errors that the operations on backup configurations report.

use vstd::prelude::*;

use crate::backup::ConfigId;

verus! {

/// Why an archive prefix was refused for a configuration.
#[derive(Debug, Clone, Copy, PartialEq, Eq, Structural)]
pub enum BackupPrefix {
    /// Another configuration on the same repository already uses this prefix.
    Taken,
    /// Another configuration on the same repository uses the empty prefix.
    OtherEmptyExists,
    /// The prefix is empty while other configurations use the same repository.
    EmptyButOtherExists,
}

/// A configuration with this identifier is already present.
#[derive(Debug, Clone, PartialEq)]
pub struct BackupExists {
    pub id: ConfigId,
}

/// No configuration with this identifier is present.
#[derive(Debug, Clone, PartialEq)]
pub struct BackupNotFound {
    pub id: ConfigId,
}

impl BackupNotFound {
    pub fn new(id: ConfigId) -> (r: Self)
        ensures
            r.id == id,
    {
        BackupNotFound { id }
    }
}

} // verus!
