//! Upkeep that a store on remote services has no need of.

use crate::error::StoreError;
use crate::immutable::statements::PgImmutableStore;
use vstd::prelude::*;

verus! {

impl PgImmutableStore {
    /// Nothing is ever evicted.
    pub fn evict(&self, _max_capacity: usize, _sync_data: bool) -> (evicted: Result<
        usize,
        StoreError,
    >)
        ensures
            evicted == Ok::<usize, StoreError>(0),
    {
        Ok(0)
    }

    /// There is nothing to compact.
    pub fn compact(&self, _max_size: usize, _at: Option<usize>, _sync_data: bool) -> (next: Result<
        Option<usize>,
        StoreError,
    >)
        ensures
            next == Ok::<Option<usize>, StoreError>(None),
    {
        Ok(None)
    }

    /// There is no compaction to resume.
    pub fn compact_resume_at(&self) -> (at: Option<usize>)
        ensures
            at == None::<usize>,
    {
        None
    }

    /// There is nothing to flush: what Postgres and the object store have confirmed is
    /// durable.
    pub fn flush(&self, _sync_data: bool) -> (result: Result<(), StoreError>)
        ensures
            result == Ok::<(), StoreError>(()),
    {
        Ok(())
    }

    /// There is nothing to verify.
    pub fn verify(&self, _heal: bool) -> (result: Result<(), StoreError>)
        ensures
            result == Ok::<(), StoreError>(()),
    {
        Ok(())
    }
}

/// Upkeep succeeds and does nothing, whatever is asked of it.
pub proof fn upkeep_is_idle(
    store: PgImmutableStore,
    capacity: usize,
    at: Option<usize>,
    sync: bool,
    heal: bool,
    evicted: Result<usize, StoreError>,
    compacted: Result<Option<usize>, StoreError>,
    resumed: Option<usize>,
    flushed: Result<(), StoreError>,
    verified: Result<(), StoreError>,
)
    requires
        call_ensures(PgImmutableStore::evict, (&store, capacity, sync), evicted),
        call_ensures(PgImmutableStore::compact, (&store, capacity, at, sync), compacted),
        call_ensures(PgImmutableStore::compact_resume_at, (&store,), resumed),
        call_ensures(PgImmutableStore::flush, (&store, sync), flushed),
        call_ensures(PgImmutableStore::verify, (&store, heal), verified),
    ensures
        evicted == Ok::<usize, StoreError>(0),
        compacted == Ok::<Option<usize>, StoreError>(None),
        resumed is None,
        flushed is Ok,
        verified is Ok,
{
}

} // verus!
