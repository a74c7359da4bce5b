//! Pruning old archives: how many of each period to keep, and counting what a pruning does.

use vstd::prelude::*;

verus! {

/// How many archives of each period a pruning keeps.
#[derive(Clone, Copy, Debug, PartialEq, Eq, Structural)]
pub struct Keep {
    pub hourly: u32,
    pub daily: u32,
    pub weekly: u32,
    pub monthly: u32,
    pub yearly: u32,
}

/// Whether old archives of a configuration are deleted, and which are kept.
#[derive(Clone, Copy, Debug, PartialEq, Eq, Structural)]
pub struct Prune {
    pub enabled: bool,
    pub keep: Keep,
}

/// The pruning of a new configuration: none; when enabled, the last two days hourly, two weeks
/// daily, a month weekly, a year monthly, and ten years yearly.
pub open spec fn default_prune() -> Prune {
    Prune { enabled: false, keep: Keep { hourly: 48, daily: 14, weekly: 4, monthly: 12, yearly: 10 } }
}

impl Default for Prune {
    fn default() -> (r: Self)
        ensures
            r == default_prune(),
    {
        Prune {
            enabled: false,
            keep: Keep { hourly: 48, daily: 14, weekly: 4, monthly: 12, yearly: 10 },
        }
    }
}

/// How many archives a pruning leaves untouched: those neither deleted nor kept by a rule.
/// Of `total` archives, `prune` would be deleted and `keep` kept.
pub fn untouched_archives(total: usize, prune: usize, keep: usize) -> (r: usize)
    requires
        prune + keep <= total,
    ensures
        r == total - prune - keep,
{
    total - prune - keep
}


/// How deleting old archives ended.
#[derive(Clone, Copy, Debug, PartialEq, Eq, Structural)]
pub enum PruneResult {
    Done,
    /// The user stopped it.
    AbortedByUser,
    Failed,
}

/// Whether the end of a deletion of old archives is reported as an error: a stop by the user
/// is not.
pub fn prune_reports_error(result: PruneResult) -> (r: bool)
    ensures
        r == (result == PruneResult::Failed),
{
    match result {
        PruneResult::Failed => true,
        _ => false,
    }
}

} // verus!
