//! Synchronisation direction and deletion policies.
use vstd::prelude::*;

verus! {

/// How a backend is kept in step with the watched folder.
#[derive(Debug, Clone, Copy, PartialEq, Eq, Structural)]
pub enum SyncMode {
    /// Changes travel both ways and deletions are propagated.
    TwoWay,
    /// Local changes are uploaded and local deletions propagated.
    OneWay,
    /// Local changes are uploaded; nothing is ever deleted remotely.
    OneWayNoDeletions,
}

/// What to do when a file changed on both sides.
#[derive(Debug, Clone, Copy, PartialEq, Eq, Structural)]
pub enum ConflictPolicy {
    RenameLocal,
    RenameRemote,
    KeepNewer,
    KeepLocal,
    KeepRemote,
}

impl SyncMode {
    /// The mode used when a configuration names none.
    pub open spec fn spec_default() -> SyncMode {
        SyncMode::OneWay
    }

    /// Whether deletions are propagated in this mode.
    pub open spec fn spec_sync_deletions(self) -> bool {
        self != SyncMode::OneWayNoDeletions
    }

    /// Whether remote changes are brought back to the local folder.
    pub open spec fn spec_sync_both(self) -> bool {
        self == SyncMode::TwoWay
    }
}

impl Default for SyncMode {
    fn default() -> (m: SyncMode)
        ensures
            m == SyncMode::spec_default(),
    {
        SyncMode::OneWay
    }
}

impl ConflictPolicy {
    pub open spec fn spec_default() -> ConflictPolicy {
        ConflictPolicy::RenameLocal
    }
}

impl Default for ConflictPolicy {
    fn default() -> (p: ConflictPolicy)
        ensures
            p == ConflictPolicy::spec_default(),
    {
        ConflictPolicy::RenameLocal
    }
}

/// Directionality and deletion behaviour of one backend.
#[derive(Debug, Clone, Copy, PartialEq, Eq, Structural)]
pub struct SyncPolicy {
    pub mode: SyncMode,
}

impl SyncPolicy {
    pub fn new(mode: SyncMode) -> (p: SyncPolicy)
        ensures
            p.mode == mode,
    {
        SyncPolicy { mode }
    }

    /// True unless the mode forbids propagating deletions.
    pub fn sync_deletions(&self) -> (b: bool)
        ensures
            b == self.mode.spec_sync_deletions(),
    {
        match self.mode {
            SyncMode::TwoWay | SyncMode::OneWay => true,
            SyncMode::OneWayNoDeletions => false,
        }
    }

    /// True only for two-way synchronisation.
    pub fn sync_both(&self) -> (b: bool)
        ensures
            b == self.mode.spec_sync_both(),
    {
        match self.mode {
            SyncMode::TwoWay => true,
            SyncMode::OneWay | SyncMode::OneWayNoDeletions => false,
        }
    }
}

/// Two-way mode, and only it, brings remote changes back to the local
/// folder; every mode but the one without deletions propagates deletions.
pub proof fn law_only_two_way_syncs_both_ways(mode: SyncMode)
    ensures
        mode.spec_sync_both() <==> mode == SyncMode::TwoWay,
        mode.spec_sync_deletions() <==> mode != SyncMode::OneWayNoDeletions,
{
}

/// Two-way synchronisation always propagates deletions.
pub proof fn law_two_way_propagates_deletions(mode: SyncMode)
    ensures
        mode.spec_sync_both() ==> mode.spec_sync_deletions(),
{
}

} // verus!
