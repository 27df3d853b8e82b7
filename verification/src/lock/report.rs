//! Listing locks.

use crate::error::LockError;
use crate::lock::records::{
    canonical_order, in_canonical_order, locks_view, resources_view, same_resources, LockData,
    LockDataView, LockResource, LockResourceView,
};
use crate::lock::statements::{LockQuery, LockStatement, LockStatementView, PgLockStore};
use crate::sql::{Fault, SqlCall};
use crate::types::{BranchId, ContentHash, RepositoryId};
use vstd::prelude::*;

verus! {

/// A row of the lock table, with the columns that are listed.
#[derive(Debug, PartialEq, Eq)]
pub struct LockRow {
    pub hash: Vec<u8>,
    pub branch: Vec<u8>,
    pub owner_id: String,
    pub description: String,
    pub locked_at: i64,
}

/// A row of the lock table, in terms of what the columns hold.
pub struct LockRowView {
    pub hash: Seq<u8>,
    pub branch: Seq<u8>,
    pub owner_id: Seq<char>,
    pub description: Seq<char>,
    pub locked_at: i64,
}

impl View for LockRow {
    type V = LockRowView;

    open spec fn view(&self) -> LockRowView {
        LockRowView {
            hash: self.hash@,
            branch: self.branch@,
            owner_id: self.owner_id@,
            description: self.description@,
            locked_at: self.locked_at,
        }
    }
}

/// The rows of a list.
pub open spec fn rows_view(rows: Seq<LockRow>) -> Seq<LockRowView> {
    Seq::new(rows.len(), |i: int| rows[i]@)
}

impl LockRowView {
    /// Hash and branch have their proper lengths.
    pub open spec fn well_formed(self) -> bool {
        self.hash.len() == 32 && self.branch.len() == 16
    }

    /// What is wrong with a row that is not well formed; the hash is looked at first.
    pub open spec fn defect(self) -> LockError {
        if self.hash.len() != 32 {
            LockError::HashLength { len: self.hash.len() as usize }
        } else {
            LockError::BranchLength { len: self.branch.len() as usize }
        }
    }

    /// The row holds this lock.
    pub open spec fn holds(self, lock: LockDataView) -> bool {
        &&& lock.resource.hash@ == self.hash
        &&& lock.resource.branch@ == self.branch
        &&& lock.resource.description == self.description
        &&& lock.owner == self.owner_id
        &&& lock.locked_at == self.locked_at as u64
    }
}

/// The hash in a column.
pub fn hash_from_pg(bytes: &[u8]) -> (hash: Result<ContentHash, LockError>)
    ensures
        hash is Ok <==> bytes@.len() == 32,
        hash matches Ok(h) ==> h@ == bytes@,
        hash matches Err(e) ==> e == (LockError::HashLength { len: bytes@.len() as usize }),
{
    match ContentHash::from_slice(bytes) {
        Some(hash) => Ok(hash),
        None => Err(LockError::HashLength { len: bytes.len() }),
    }
}

/// The branch in a column.
pub fn branch_from_pg(bytes: &[u8]) -> (branch: Result<BranchId, LockError>)
    ensures
        branch is Ok <==> bytes@.len() == 16,
        branch matches Ok(b) ==> b@ == bytes@,
        branch matches Err(e) ==> e == (LockError::BranchLength { len: bytes@.len() as usize }),
{
    match BranchId::from_slice(bytes) {
        Some(branch) => Ok(branch),
        None => Err(LockError::BranchLength { len: bytes.len() }),
    }
}

/// The lock in a row.
pub fn lock_data_from_row(row: &LockRow) -> (lock: Result<LockData, LockError>)
    ensures
        lock is Ok <==> row@.well_formed(),
        lock matches Ok(l) ==> row@.holds(l@),
        lock matches Err(e) ==> e == row@.defect(),
{
    let hash = match hash_from_pg(row.hash.as_slice()) {
        Ok(hash) => hash,
        Err(e) => {
            return Err(e);
        },
    };
    let branch = match branch_from_pg(row.branch.as_slice()) {
        Ok(branch) => branch,
        Err(e) => {
            return Err(e);
        },
    };
    Ok(
        LockData {
            resource: LockResource { branch, hash, description: row.description.clone() },
            owner: row.owner_id.clone(),
            locked_at: row.locked_at as u64,
        },
    )
}

/// What a listing makes of the rows it gets: every row is a lock, in the same order; the
/// first row that is not well formed is an error.
pub open spec fn listed(rows: Seq<LockRowView>, result: Result<Seq<LockDataView>, LockError>) -> bool {
    match result {
        Ok(locks) => {
            &&& locks.len() == rows.len()
            &&& forall|i: int|
                0 <= i < rows.len() ==> (#[trigger] rows[i]).well_formed() && rows[i].holds(
                    locks[i],
                )
        },
        Err(e) => exists|i: int|
            {
                &&& 0 <= i < rows.len()
                &&& !(#[trigger] rows[i]).well_formed()
                &&& e == rows[i].defect()
                &&& forall|j: int| 0 <= j < i ==> (#[trigger] rows[j]).well_formed()
            },
    }
}

/// A result of a listing, in terms of the locks it holds.
pub open spec fn lock_list_view(result: Result<Vec<LockData>, LockError>) -> Result<
    Seq<LockDataView>,
    LockError,
> {
    match result {
        Ok(locks) => Ok(locks_view(locks@)),
        Err(e) => Err(e),
    }
}

/// The locks in the rows of a listing, or why there is no listing.
pub fn listed_locks(reply: Result<Vec<LockRow>, Fault>) -> (locks: Result<Vec<LockData>, LockError>)
    ensures
        match reply {
            Ok(rows) => listed(rows_view(rows@), lock_list_view(locks)),
            Err(fault) => locks == Err::<Vec<LockData>, LockError>(
                LockError::of_fault(fault, SqlCall::Query),
            ),
        },
{
    let rows = match reply {
        Ok(rows) => rows,
        Err(fault) => {
            return Err(LockError::from_fault(fault, SqlCall::Query));
        },
    };
    let mut locks: Vec<LockData> = Vec::new();
    let mut i: usize = 0;
    let ghost view = rows_view(rows@);
    while i < rows.len()
        invariant
            0 <= i <= rows@.len(),
            view == rows_view(rows@),
            reply == Ok::<Vec<LockRow>, Fault>(rows),
            locks@.len() == i,
            forall|j: int| 0 <= j < i ==> (#[trigger] view[j]).well_formed(),
            forall|j: int| 0 <= j < i ==> view[j].holds(#[trigger] locks@[j]@),
        decreases rows@.len() - i,
    {
        match lock_data_from_row(&rows[i]) {
            Ok(lock) => {
                assert(view[i as int].holds(lock@));
                locks.push(lock);
            },
            Err(e) => {
                assert(!view[i as int].well_formed());
                return Err(e);
            },
        }
        i = i + 1;
    }
    assert forall|j: int| 0 <= j < view.len() implies (
    #[trigger] view[j]).well_formed() && view[j].holds(locks_view(locks@)[j]) by {
        assert(view[j].holds(locks@[j]@));
    }
    Ok(locks)
}

/// What is to be done about a question which of some resources are locked.
#[derive(Debug, PartialEq, Eq)]
pub enum StatusStep {
    /// Execute the query; [`listed_locks`] makes the result of its rows.
    Query(LockStatement),
    /// Nothing was asked about, so nothing is locked.
    Nothing,
}

/// The branches and hashes of resources, in pairs, are those of this list.
pub open spec fn pairs_of(
    list: Seq<LockResourceView>,
    branches: Seq<BranchId>,
    hashes: Seq<ContentHash>,
) -> bool {
    &&& branches.len() == list.len()
    &&& hashes.len() == list.len()
    &&& forall|i: int| 0 <= i < list.len() ==> #[trigger] branches[i] == list[i].branch
    &&& forall|i: int| 0 <= i < list.len() ==> #[trigger] hashes[i] == list[i].hash
}

/// The statement asks about each of the resources once, in canonical order.
pub open spec fn asks_status(
    statement: LockStatementView,
    repository: RepositoryId,
    resources: Seq<LockResourceView>,
) -> bool {
    exists|list: Seq<LockResourceView>, branches: Seq<BranchId>, hashes: Seq<ContentHash>|
        {
            &&& statement == (LockStatementView::Status { repository, branches, hashes })
            &&& in_canonical_order(list)
            &&& same_resources(list, resources)
            &&& #[trigger] pairs_of(list, branches, hashes)
        }
}

impl PgLockStore {
    /// Asks for the locks that a query selects; [`listed_locks`] makes the result of the
    /// rows.
    pub fn query_locks(&self, query: LockQuery) -> (statement: LockStatement)
        ensures
            statement@ == LockStatementView::Query(query@),
    {
        LockStatement::Query(query)
    }

    /// Asks which of the resources are locked. Each of them is asked about once.
    pub fn check_locks_status(
        &self,
        repository: RepositoryId,
        resources: &[LockResource],
    ) -> (step: StatusStep)
        ensures
            step is Nothing <==> resources@.len() == 0,
            step matches StatusStep::Query(statement) ==> asks_status(
                statement@,
                repository,
                resources_view(resources@),
            ),
    {
        let list = canonical_order(resources);
        let ghost order = resources_view(list@);
        let ghost asked = resources_view(resources@);
        if list.len() == 0 {
            proof {
                if resources@.len() > 0 {
                    assert(asked.contains(asked[0]));
                    assert(order.contains(asked[0]));
                }
            }
            return StatusStep::Nothing;
        }
        proof {
            assert(order.contains(order[0]));
            assert(asked.contains(order[0]));
        }
        let mut branches: Vec<BranchId> = Vec::new();
        let mut hashes: Vec<ContentHash> = Vec::new();
        let mut i: usize = 0;
        while i < list.len()
            invariant
                0 <= i <= list@.len(),
                order == resources_view(list@),
                in_canonical_order(order),
                asked == resources_view(resources@),
                same_resources(order, asked),
                resources@.len() > 0,
                branches@.len() == i,
                hashes@.len() == i,
                forall|j: int| 0 <= j < i ==> #[trigger] branches@[j] == order[j].branch,
                forall|j: int| 0 <= j < i ==> #[trigger] hashes@[j] == order[j].hash,
            decreases list@.len() - i,
        {
            branches.push(list[i].branch);
            hashes.push(list[i].hash);
            i = i + 1;
        }
        assert(pairs_of(order, branches@, hashes@));
        let statement = LockStatement::Status { repository, branches, hashes };
        assert(asks_status(statement@, repository, asked));
        StatusStep::Query(statement)
    }
}

} // verus!
