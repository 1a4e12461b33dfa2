//! Per-record synchronization state: a user/server-owned annotation that is
//! independent of the source payload and must survive refreshes.

use vstd::prelude::*;

verus! {

/// User-facing label of one road-work record. The declaration order is also
/// the sort order used for display defaults; `New` is the default value.
#[derive(Debug, Clone, Copy, PartialEq, Eq, Structural, PartialOrd, Ord, Hash)]
pub enum Status {
    New,
    Later,
    Ignored,
    Finished,
    Treated,
}

impl Default for Status {
    fn default() -> (r: Self)
        ensures
            r == Status::New,
    {
        Status::New
    }
}

/// Mutable annotation attached to one record: when it last changed locally
/// and on the server, the user label, and whether a local change has not yet
/// been pushed to the server.
#[derive(Debug, Clone, Copy, PartialEq, Eq, Structural, Hash)]
pub struct SyncData {
    /// Timestamp of the last local change, milliseconds since epoch.
    pub local_update_time: u64,
    /// Timestamp of the last server change, milliseconds since epoch.
    pub server_update_time: u64,
    pub status: Status,
    /// True when a local change has not been pushed to the server yet.
    pub dirty: bool,
}

impl Default for SyncData {
    fn default() -> (r: Self)
        ensures
            r == (SyncData {
                local_update_time: 0,
                server_update_time: 0,
                status: Status::New,
                dirty: false,
            }),
    {
        SyncData { local_update_time: 0, server_update_time: 0, status: Status::New, dirty: false }
    }
}

impl SyncData {
    /// The annotation carried forward across a refresh: the same timestamps
    /// and status, with the dirty flag cleared.
    pub fn new_from(src: &SyncData) -> (r: Self)
        ensures
            r.local_update_time == src.local_update_time,
            r.server_update_time == src.server_update_time,
            r.status == src.status,
            !r.dirty,
    {
        SyncData {
            local_update_time: src.local_update_time,
            server_update_time: src.server_update_time,
            status: src.status,
            dirty: false,
        }
    }

    /// Overwrite timestamps and status from the server's authoritative view;
    /// the dirty flag is left as it was.
    pub fn copy(&mut self, other: &SyncData)
        ensures
            final(self).local_update_time == other.local_update_time,
            final(self).server_update_time == other.server_update_time,
            final(self).status == other.status,
            final(self).dirty == old(self).dirty,
    {
        self.local_update_time = other.local_update_time;
        self.server_update_time = other.server_update_time;
        self.status = other.status;
    }

    /// Record a change acknowledged by the server at the given time.
    pub fn update_time(&mut self, server_update_time: u64)
        ensures
            final(self).local_update_time == server_update_time,
            final(self).server_update_time == server_update_time,
            final(self).status == old(self).status,
            final(self).dirty == old(self).dirty,
    {
        self.local_update_time = server_update_time;
        self.server_update_time = server_update_time;
    }
}

} // verus!
