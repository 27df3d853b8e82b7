//! What comes of the calls to the lock store, once the steps that they lead to are carried out.
//!
//! Each step is asked for its statement, the statement is executed on the table, and the step
//! is told the answer; so it goes on until there is a result.

use crate::error::LockError;
use crate::lock::acquire::{
    clock_shows, AcquireBegin, AcquireCommit, AcquireInsert, AcquireOwner, AcquireRequest,
    AcquireStep, AcquireStepView,
};
use crate::lock::records::{
    canonical_order_unique, in_canonical_order, locks_view, resources_view, same_resources,
    LockData, LockDataView, LockKey, LockResource, LockResourceView,
};
use crate::lock::release::{
    ReleaseBegin, ReleaseCommit, ReleaseDelete, ReleaseOwner, ReleaseRequest, ReleaseStep,
    ReleaseStepView,
};
use crate::lock::report::{
    listed_locks, lock_data_from_row, lock_list_view, rows_view, LockRow, StatusStep,
};
use crate::lock::statements::{LockQuery, LockStatement, LockStatementView, PgLockStore};
use crate::lock::table::{
    acquire_all_or_nothing, acquire_on, answered, conflicts, execute, held_by, held_by_other,
    keys_of, listing_exact, lock_of, locks_added, owner_of, releasable, release_all_or_nothing,
    release_any, release_on, resources_of, run_acquire, run_release, status_selects,
    LockEntry, LockTable,
};
use crate::sql::{Fault, SqlCall};
use crate::types::RepositoryId;
use vstd::prelude::*;

verus! {

/// The owner that a statement asks for.
pub open spec fn owner_asked_for(
    table: LockTable,
    statement: LockStatementView,
) -> Option<Seq<char>> {
    match statement {
        LockStatementView::SelectOwner { key } => owner_of(table, key),
        _ => None,
    }
}

/// An owner, or none, in terms of the name.
pub open spec fn owner_view(owner: Option<String>) -> Option<Seq<char>> {
    match owner {
        Some(name) => Some(name@),
        None => None,
    }
}

/// What is reported is the lock under this key, as it is stored.
pub open spec fn reports(lock: LockData, key: LockKey, entry: LockEntry) -> bool {
    &&& lock.resource.branch == key.branch
    &&& lock.resource.hash == key.hash
    &&& lock.resource.description@ == entry.description
    &&& lock.owner@ == entry.owner_id
    &&& lock.locked_at == entry.locked_at as u64
}

// ---------------------------------------------------------------------------
// Taking locks
// ---------------------------------------------------------------------------

/// A request for locks comes to this end, by at most as many calls: the table then, and the
/// result. `base` is the table as others see it, `table` as the transaction does.
pub open spec fn acquire_leads(
    base: LockTable,
    table: LockTable,
    step: AcquireStep,
    calls: nat,
    after: LockTable,
    result: Result<Vec<LockData>, LockError>,
) -> bool
    decreases calls,
{
    let left = (calls - 1) as nat;
    match step {
        AcquireStep::Begin(s) => calls > 0 && exists|next: AcquireStep|
            {
                &&& #[trigger] call_ensures(AcquireBegin::reply, (s, Ok::<(), String>(())), next)
                &&& acquire_leads(base, base, next, left, after, result)
            },
        AcquireStep::Insert(s) => calls > 0 && exists|statement: LockStatement, next: AcquireStep|
            {
                &&& #[trigger] call_ensures(AcquireInsert::statement, (&s,), statement)
                &&& #[trigger] call_ensures(
                    AcquireInsert::reply,
                    (s, Ok::<u64, String>(execute(table, statement@).1)),
                    next,
                )
                &&& acquire_leads(
                    base,
                    execute(table, statement@).0,
                    next,
                    left,
                    after,
                    result,
                )
            },
        AcquireStep::SelectOwner(s) => calls > 0 && exists|
            statement: LockStatement,
            owner: Option<String>,
            next: AcquireStep,
        |
            {
                &&& #[trigger] call_ensures(AcquireOwner::statement, (&s,), statement)
                &&& owner_view(owner) == owner_asked_for(table, statement@)
                &&& #[trigger] call_ensures(
                    AcquireOwner::reply,
                    (s, Ok::<Option<String>, String>(owner)),
                    next,
                )
                &&& acquire_leads(base, table, next, left, after, result)
            },
        AcquireStep::Commit(s) => calls > 0 && exists|next: AcquireStep|
            {
                &&& #[trigger] call_ensures(AcquireCommit::reply, (s, Ok::<(), String>(())), next)
                &&& acquire_leads(table, table, next, left, after, result)
            },
        AcquireStep::RollBack(e) => after == base && result == Err::<Vec<LockData>, LockError>(e),
        AcquireStep::Finish(known) => after == base && result == known,
    }
}

proof fn lemma_acquire_leads(
    base: LockTable,
    table: LockTable,
    step: AcquireStep,
    calls: nat,
    after: LockTable,
    result: Result<Vec<LockData>, LockError>,
)
    requires
        acquire_leads(base, table, step, calls, after, result),
    ensures
        (after, lock_list_view(result)) == run_acquire(base, table, step@),
    decreases calls,
{
    let left = (calls - 1) as nat;
    match step {
        AcquireStep::Begin(s) => {
            let next = choose|next: AcquireStep|
                {
                    &&& #[trigger] call_ensures(
                        AcquireBegin::reply,
                        (s, Ok::<(), String>(())),
                        next,
                    )
                    &&& acquire_leads(base, base, next, left, after, result)
                };
            lemma_acquire_leads(base, base, next, left, after, result);
        },
        AcquireStep::Insert(s) => {
            let (statement, next) = choose|statement: LockStatement, next: AcquireStep|
                {
                    &&& #[trigger] call_ensures(AcquireInsert::statement, (&s,), statement)
                    &&& #[trigger] call_ensures(
                        AcquireInsert::reply,
                        (s, Ok::<u64, String>(execute(table, statement@).1)),
                        next,
                    )
                    &&& acquire_leads(
                        base,
                        execute(table, statement@).0,
                        next,
                        left,
                        after,
                        result,
                    )
                };
            lemma_acquire_leads(
                base,
                execute(table, statement@).0,
                next,
                left,
                after,
                result,
            );
        },
        AcquireStep::SelectOwner(s) => {
            let (statement, owner, next) = choose|
                statement: LockStatement,
                owner: Option<String>,
                next: AcquireStep,
            |
                {
                    &&& #[trigger] call_ensures(AcquireOwner::statement, (&s,), statement)
                    &&& owner_view(owner) == owner_asked_for(table, statement@)
                    &&& #[trigger] call_ensures(
                        AcquireOwner::reply,
                        (s, Ok::<Option<String>, String>(owner)),
                        next,
                    )
                    &&& acquire_leads(base, table, next, left, after, result)
                };
            lemma_acquire_leads(base, table, next, left, after, result);
        },
        AcquireStep::Commit(s) => {
            let next = choose|next: AcquireStep|
                {
                    &&& #[trigger] call_ensures(
                        AcquireCommit::reply,
                        (s, Ok::<(), String>(())),
                        next,
                    )
                    &&& acquire_leads(table, table, next, left, after, result)
                };
            lemma_acquire_leads(table, table, next, left, after, result);
        },
        _ => {},
    }
}

proof fn lemma_same_conflicts(
    table: LockTable,
    owner: Seq<char>,
    repository: RepositoryId,
    a: Seq<LockResourceView>,
    b: Seq<LockResourceView>,
)
    requires
        same_resources(a, b),
        conflicts(table, owner, repository, a),
    ensures
        conflicts(table, owner, repository, b),
{
    let i = choose|i: int|
        0 <= i < a.len() && held_by_other(table, #[trigger] a[i].key_in(repository), owner);
    assert(a.contains(a[i]));
    let k = choose|k: int| 0 <= k < b.len() && b[k] == a[i];
    assert(held_by_other(table, b[k].key_in(repository), owner));
}

/// Locks are taken all or none. If somebody else holds one of them, the caller is told so and
/// nothing changes; otherwise every one of them is held by the caller then, what was locked is
/// as it was, and the locks that were added are reported, with the time that the clock has
/// shown, in canonical order.
pub proof fn locks_taken(
    store: PgLockStore,
    table: LockTable,
    owner_id: &str,
    repository: RepositoryId,
    resources: &[LockResource],
    request: AcquireRequest,
    step: AcquireStep,
    calls: nat,
    after: LockTable,
    result: Result<Vec<LockData>, LockError>,
)
    requires
        call_ensures(
            PgLockStore::lock_resources,
            (&store, owner_id, repository, resources),
            request,
        ),
        call_ensures(AcquireRequest::connected, (request, Ok::<(), String>(())), step),
        acquire_leads(table, table, step, calls, after, result),
    ensures
        conflicts(table, owner_id@, repository, resources_view(resources@)) ==> after == table
            && result == Err::<Vec<LockData>, LockError>(LockError::LockNotOwned),
        !conflicts(table, owner_id@, repository, resources_view(resources@)) ==> result is Ok && (
        exists|now: i64|
            #[trigger] clock_shows(now) && now >= 0 && locks_added(
                table,
                after,
                owner_id@,
                repository,
                now,
                resources_view(resources@),
                locks_view(result->Ok_0@),
            ) && (forall|i: int|
                0 <= i < result->Ok_0@.len() ==> (#[trigger] result->Ok_0@[i]).locked_at == now)),
        result is Ok ==> in_canonical_order(resources_of(locks_view(result->Ok_0@))),
        result is Ok ==> forall|i: int|
            0 <= i < result->Ok_0@.len() ==> {
                let lock = #[trigger] result->Ok_0@[i];
                let key = LockKey {
                    repository,
                    branch: lock.resource.branch,
                    hash: lock.resource.hash,
                };
                &&& lock.owner@ == owner_id@
                &&& after.contains_key(key)
                &&& reports(lock, key, after[key])
            },
        result is Ok ==> forall|i: int|
            0 <= i < resources@.len() ==> held_by(
                after,
                LockKey {
                    repository,
                    branch: (#[trigger] resources@[i]).branch,
                    hash: resources@[i].hash,
                },
                owner_id@,
            ),
{
    lemma_acquire_leads(table, table, step, calls, after, result);
    let now = choose|now: i64|
        now >= 0 && #[trigger] clock_shows(now) && step@ == request@.connected(Ok(()), now);
    let asked = resources_view(resources@);
    assert((after, lock_list_view(result)) == acquire_on(table, request@, now));
    acquire_all_or_nothing(table, request@, now);
    if conflicts(table, owner_id@, repository, asked) {
        assert(same_resources(asked, request@.resources));
        lemma_same_conflicts(table, owner_id@, repository, asked, request@.resources);
    } else {
        if conflicts(table, owner_id@, repository, request@.resources) {
            lemma_same_conflicts(table, owner_id@, repository, request@.resources, asked);
        }
        let new = locks_view(result->Ok_0@);
        assert(lock_list_view(result) == Ok::<Seq<LockDataView>, LockError>(new));
        assert forall|i: int| 0 <= i < asked.len() implies held_by(
            after,
            #[trigger] asked[i].key_in(repository),
            owner_id@,
        ) by {
            assert(asked.contains(asked[i]));
            assert(request@.resources.contains(asked[i]));
            let k = choose|k: int|
                0 <= k < request@.resources.len() && request@.resources[k] == asked[i];
            assert(held_by(after, request@.resources[k].key_in(repository), owner_id@));
        }
        assert(locks_added(table, after, owner_id@, repository, now, asked, new));
        assert forall|i: int| 0 <= i < result->Ok_0@.len() implies {
            let lock = #[trigger] result->Ok_0@[i];
            let key = LockKey {
                repository,
                branch: lock.resource.branch,
                hash: lock.resource.hash,
            };
            &&& lock.owner@ == owner_id@
            &&& after.contains_key(key)
            &&& reports(lock, key, after[key])
        } by {
            assert(new[i] == result->Ok_0@[i]@);
        }
        assert forall|i: int| 0 <= i < resources@.len() implies held_by(
            after,
            LockKey {
                repository,
                branch: (#[trigger] resources@[i]).branch,
                hash: resources@[i].hash,
            },
            owner_id@,
        ) by {
            assert(held_by(after, asked[i].key_in(repository), owner_id@));
        }
        assert forall|i: int| 0 <= i < result->Ok_0@.len() implies (
        #[trigger] result->Ok_0@[i]).locked_at == now by {
            assert(new[i].locked_at == now);
        }
    }
}

// ---------------------------------------------------------------------------
// Giving locks back
// ---------------------------------------------------------------------------

/// A result of giving locks back, in terms of the resources it lists.
pub open spec fn resource_list_view(result: Result<Vec<LockResource>, LockError>) -> Result<
    Seq<LockResourceView>,
    LockError,
> {
    match result {
        Ok(list) => Ok(resources_view(list@)),
        Err(e) => Err(e),
    }
}

/// A request to give locks back comes to this end, by at most as many calls: the table then,
/// and the result. `base` is the table as others see it, `table` as the transaction does.
pub open spec fn release_leads(
    base: LockTable,
    table: LockTable,
    step: ReleaseStep,
    calls: nat,
    after: LockTable,
    result: Result<Vec<LockResource>, LockError>,
) -> bool
    decreases calls,
{
    let left = (calls - 1) as nat;
    match step {
        ReleaseStep::Begin(s) => calls > 0 && exists|next: ReleaseStep|
            {
                &&& #[trigger] call_ensures(ReleaseBegin::reply, (s, Ok::<(), String>(())), next)
                &&& release_leads(base, base, next, left, after, result)
            },
        ReleaseStep::Delete(s) => calls > 0 && exists|statement: LockStatement, next: ReleaseStep|
            {
                &&& #[trigger] call_ensures(ReleaseDelete::statement, (&s,), statement)
                &&& #[trigger] call_ensures(
                    ReleaseDelete::reply,
                    (s, Ok::<u64, String>(execute(table, statement@).1)),
                    next,
                )
                &&& release_leads(
                    base,
                    execute(table, statement@).0,
                    next,
                    left,
                    after,
                    result,
                )
            },
        ReleaseStep::SelectOwner(s) => calls > 0 && exists|
            statement: LockStatement,
            owner: Option<String>,
            next: ReleaseStep,
        |
            {
                &&& #[trigger] call_ensures(ReleaseOwner::statement, (&s,), statement)
                &&& owner_view(owner) == owner_asked_for(table, statement@)
                &&& #[trigger] call_ensures(
                    ReleaseOwner::reply,
                    (s, Ok::<Option<String>, String>(owner)),
                    next,
                )
                &&& release_leads(base, table, next, left, after, result)
            },
        ReleaseStep::Commit(s) => calls > 0 && exists|next: ReleaseStep|
            {
                &&& #[trigger] call_ensures(ReleaseCommit::reply, (s, Ok::<(), String>(())), next)
                &&& release_leads(table, table, next, left, after, result)
            },
        ReleaseStep::RollBack(e) => after == base && result == Err::<Vec<LockResource>, LockError>(
            e,
        ),
        ReleaseStep::Finish(known) => after == base && result == known,
    }
}

proof fn lemma_release_leads(
    base: LockTable,
    table: LockTable,
    step: ReleaseStep,
    calls: nat,
    after: LockTable,
    result: Result<Vec<LockResource>, LockError>,
)
    requires
        release_leads(base, table, step, calls, after, result),
    ensures
        (after, resource_list_view(result)) == run_release(base, table, step@),
    decreases calls,
{
    let left = (calls - 1) as nat;
    match step {
        ReleaseStep::Begin(s) => {
            let next = choose|next: ReleaseStep|
                {
                    &&& #[trigger] call_ensures(
                        ReleaseBegin::reply,
                        (s, Ok::<(), String>(())),
                        next,
                    )
                    &&& release_leads(base, base, next, left, after, result)
                };
            lemma_release_leads(base, base, next, left, after, result);
        },
        ReleaseStep::Delete(s) => {
            let (statement, next) = choose|statement: LockStatement, next: ReleaseStep|
                {
                    &&& #[trigger] call_ensures(ReleaseDelete::statement, (&s,), statement)
                    &&& #[trigger] call_ensures(
                        ReleaseDelete::reply,
                        (s, Ok::<u64, String>(execute(table, statement@).1)),
                        next,
                    )
                    &&& release_leads(
                        base,
                        execute(table, statement@).0,
                        next,
                        left,
                        after,
                        result,
                    )
                };
            lemma_release_leads(
                base,
                execute(table, statement@).0,
                next,
                left,
                after,
                result,
            );
        },
        ReleaseStep::SelectOwner(s) => {
            let (statement, owner, next) = choose|
                statement: LockStatement,
                owner: Option<String>,
                next: ReleaseStep,
            |
                {
                    &&& #[trigger] call_ensures(ReleaseOwner::statement, (&s,), statement)
                    &&& owner_view(owner) == owner_asked_for(table, statement@)
                    &&& #[trigger] call_ensures(
                        ReleaseOwner::reply,
                        (s, Ok::<Option<String>, String>(owner)),
                        next,
                    )
                    &&& release_leads(base, table, next, left, after, result)
                };
            lemma_release_leads(base, table, next, left, after, result);
        },
        ReleaseStep::Commit(s) => {
            let next = choose|next: ReleaseStep|
                {
                    &&& #[trigger] call_ensures(
                        ReleaseCommit::reply,
                        (s, Ok::<(), String>(())),
                        next,
                    )
                    &&& release_leads(table, table, next, left, after, result)
                };
            lemma_release_leads(table, table, next, left, after, result);
        },
        _ => {},
    }
}

proof fn lemma_same_keys(
    repository: RepositoryId,
    a: Seq<LockResourceView>,
    b: Seq<LockResourceView>,
)
    requires
        same_resources(a, b),
    ensures
        keys_of(repository, a) == keys_of(repository, b),
{
    assert forall|key: LockKey| keys_of(repository, a).contains(key) <==> #[trigger] keys_of(
        repository,
        b,
    ).contains(key) by {
        if keys_of(repository, a).contains(key) {
            let i = choose|i: int| 0 <= i < a.len() && #[trigger] a[i].key_in(repository) == key;
            assert(a.contains(a[i]));
            let k = choose|k: int| 0 <= k < b.len() && b[k] == a[i];
            assert(b[k].key_in(repository) == key);
        }
        if keys_of(repository, b).contains(key) {
            let i = choose|i: int| 0 <= i < b.len() && #[trigger] b[i].key_in(repository) == key;
            assert(b.contains(b[i]));
            assert(a.contains(b[i]));
            let k = choose|k: int| 0 <= k < a.len() && a[k] == b[i];
            assert(a[k].key_in(repository) == key);
        }
    }
    assert(keys_of(repository, a) =~= keys_of(repository, b));
}

/// The lock with this key is one of those on the resources: one of them has its branch and its
/// hash, and it is in the repository.
pub open spec fn named_in(
    repository: RepositoryId,
    resources: Seq<LockResource>,
    key: LockKey,
) -> bool {
    key.repository == repository && exists|i: int|
        0 <= i < resources.len() && (#[trigger] resources[i]).branch == key.branch
            && resources[i].hash == key.hash
}

proof fn lemma_named_in(repository: RepositoryId, resources: Seq<LockResource>)
    ensures
        forall|key: LockKey| #[trigger]
            keys_of(repository, resources_view(resources)).contains(key) <==> named_in(
                repository,
                resources,
                key,
            ),
{
    let view = resources_view(resources);
    assert forall|key: LockKey| #[trigger] keys_of(repository, view).contains(key) <==> named_in(
        repository,
        resources,
        key,
    ) by {
        if keys_of(repository, view).contains(key) {
            let i = choose|i: int|
                0 <= i < view.len() && #[trigger] view[i].key_in(repository) == key;
            assert(resources[i].branch == key.branch && resources[i].hash == key.hash);
        }
        if named_in(repository, resources, key) {
            let i = choose|i: int|
                0 <= i < resources.len() && (#[trigger] resources[i]).branch == key.branch
                    && resources[i].hash == key.hash;
            assert(view[i].key_in(repository) == key);
        }
    }
}

/// Without regard to the owner, locks are given back whoever holds them: those on the
/// resources are gone then, and no others; the resources are reported, in canonical order.
pub proof fn locks_broken(
    store: PgLockStore,
    table: LockTable,
    owner_id: &str,
    repository: RepositoryId,
    resources: &[LockResource],
    request: ReleaseRequest,
    step: ReleaseStep,
    calls: nat,
    after: LockTable,
    result: Result<Vec<LockResource>, LockError>,
)
    requires
        call_ensures(
            PgLockStore::unlock_resources,
            (&store, owner_id, false, repository, resources),
            request,
        ),
        call_ensures(ReleaseRequest::connected, (request, Ok::<(), String>(())), step),
        release_leads(table, table, step, calls, after, result),
    ensures
        after == table.remove_keys(keys_of(repository, resources_view(resources@))),
        forall|key: LockKey| #[trigger]
            after.contains_key(key) <==> table.contains_key(key) && !named_in(
                repository,
                resources@,
                key,
            ),
        result is Ok,
        in_canonical_order(resources_view(result->Ok_0@)),
        same_resources(resources_view(result->Ok_0@), resources_view(resources@)),
{
    lemma_release_leads(table, table, step, calls, after, result);
    assert((after, resource_list_view(result)) == release_on(table, request@));
    release_any(table, request@);
    lemma_same_keys(repository, request@.pending, resources_view(resources@));
    lemma_named_in(repository, resources@);
}

/// Where the owner matters, locks are given back all or none. If the caller holds every one of
/// them, they are gone then, and no others; otherwise nothing changes, and the error says
/// whether the first lock that stands in the way is somebody else's or nobody's.
pub proof fn locks_returned(
    store: PgLockStore,
    table: LockTable,
    owner_id: &str,
    repository: RepositoryId,
    resources: &[LockResource],
    request: ReleaseRequest,
    step: ReleaseStep,
    calls: nat,
    after: LockTable,
    result: Result<Vec<LockResource>, LockError>,
    list: Seq<LockResourceView>,
    first: int,
)
    requires
        call_ensures(
            PgLockStore::unlock_resources,
            (&store, owner_id, true, repository, resources),
            request,
        ),
        call_ensures(ReleaseRequest::connected, (request, Ok::<(), String>(())), step),
        release_leads(table, table, step, calls, after, result),
        in_canonical_order(list),
        same_resources(list, resources_view(resources@)),
        0 <= first <= list.len(),
        forall|j: int|
            0 <= j < first ==> #[trigger] releasable(table, owner_id@, repository, list, j),
        first < list.len() ==> !releasable(table, owner_id@, repository, list, first),
    ensures
        first == list.len() ==> after == table.remove_keys(
            keys_of(repository, resources_view(resources@)),
        ) && result is Ok && resources_view(result->Ok_0@) == list,
        first < list.len() ==> after == table && result == Err::<Vec<LockResource>, LockError>(
            if held_by_other(table, list[first].key_in(repository), owner_id@) {
                LockError::LockNotOwned
            } else {
                LockError::LockNotFound
            },
        ),
{
    lemma_release_leads(table, table, step, calls, after, result);
    assert((after, resource_list_view(result)) == release_on(table, request@));
    assert(same_resources(list, request@.pending)) by {
        assert forall|r: LockResourceView| #[trigger] list.contains(r) <==> request@.pending.contains(
            r,
        ) by {
            assert(resources_view(resources@).contains(r) <==> request@.pending.contains(r));
        }
    }
    canonical_order_unique(list, request@.pending);
    release_all_or_nothing(table, request@, first);
    lemma_same_keys(repository, request@.pending, resources_view(resources@));
}

// ---------------------------------------------------------------------------
// Listing locks
// ---------------------------------------------------------------------------

/// A row is read as the lock that it holds, column by column.
pub proof fn row_read(row: LockRow, lock: LockData)
    requires
        call_ensures(lock_data_from_row, (&row,), Ok::<LockData, LockError>(lock)),
    ensures
        lock.resource.hash@ == row.hash@,
        lock.resource.branch@ == row.branch@,
        lock.resource.description@ == row.description@,
        lock.owner@ == row.owner_id@,
        lock.locked_at == row.locked_at as u64,
{
}

/// The query asks for the lock under this key: it has all that the query names.
pub open spec fn asked_for(query: LockQuery, key: LockKey, entry: LockEntry) -> bool {
    match query {
        LockQuery::Hash(hash) => key.hash == hash,
        LockQuery::HashRepository(hash, repository) => key.hash == hash && key.repository
            == repository,
        LockQuery::HashRepositoryBranch(hash, repository, branch) => key.hash == hash
            && key.repository == repository && key.branch == branch,
        LockQuery::Owner(owner) => entry.owner_id == owner@,
        LockQuery::OwnerRepository(owner, repository) => entry.owner_id == owner@
            && key.repository == repository,
        LockQuery::OwnerRepositoryBranch(owner, repository, branch) => entry.owner_id == owner@
            && key.repository == repository && key.branch == branch,
        LockQuery::Repository(repository) => key.repository == repository,
        LockQuery::RepositoryBranch(repository, branch) => key.repository == repository
            && key.branch == branch,
        LockQuery::RepositoryBranchDescription(repository, branch, description) => key.repository
            == repository && key.branch == branch && entry.description == description@,
    }
}

/// A listing reports the locks that the query selects, as they stand in the table: each of
/// them once, and no others.
pub proof fn locks_listed(
    store: PgLockStore,
    table: LockTable,
    query: LockQuery,
    statement: LockStatement,
    keys: Seq<LockKey>,
    rows: Vec<LockRow>,
    result: Result<Vec<LockData>, LockError>,
)
    requires
        call_ensures(PgLockStore::query_locks, (&store, query), statement),
        answered(table, statement@, keys, rows_view(rows@)),
        call_ensures(listed_locks, (Ok::<Vec<LockRow>, Fault>(rows),), result),
    ensures
        result is Ok,
        result->Ok_0@.len() == keys.len(),
        forall|i: int|
            0 <= i < keys.len() ==> reports(#[trigger] result->Ok_0@[i], keys[i], table[keys[i]]),
        keys.no_duplicates(),
        forall|key: LockKey|
            #[trigger] keys.contains(key) <==> table.contains_key(key) && asked_for(
                query,
                key,
                table[key],
            ),
{
    listing_exact(table, statement@, keys, rows_view(rows@), lock_list_view(result));
    assert forall|i: int| 0 <= i < keys.len() implies reports(
        #[trigger] result->Ok_0@[i],
        keys[i],
        table[keys[i]],
    ) by {
        assert(lock_list_view(result)->Ok_0[i] == lock_of(keys[i], table[keys[i]]));
    }
}

/// Asking which of some resources are locked reports the locks on just these, as they stand
/// in the table: each of them once, and no others.
pub proof fn status_listed(
    store: PgLockStore,
    table: LockTable,
    repository: RepositoryId,
    resources: &[LockResource],
    statement: LockStatement,
    keys: Seq<LockKey>,
    rows: Vec<LockRow>,
    result: Result<Vec<LockData>, LockError>,
)
    requires
        call_ensures(
            PgLockStore::check_locks_status,
            (&store, repository, resources),
            StatusStep::Query(statement),
        ),
        answered(table, statement@, keys, rows_view(rows@)),
        call_ensures(listed_locks, (Ok::<Vec<LockRow>, Fault>(rows),), result),
    ensures
        result is Ok,
        result->Ok_0@.len() == keys.len(),
        forall|i: int|
            0 <= i < keys.len() ==> reports(#[trigger] result->Ok_0@[i], keys[i], table[keys[i]]),
        keys.no_duplicates(),
        forall|key: LockKey|
            #[trigger] keys.contains(key) <==> table.contains_key(key) && named_in(
                repository,
                resources@,
                key,
            ),
{
    listing_exact(table, statement@, keys, rows_view(rows@), lock_list_view(result));
    assert forall|i: int| 0 <= i < keys.len() implies reports(
        #[trigger] result->Ok_0@[i],
        keys[i],
        table[keys[i]],
    ) by {
        assert(lock_list_view(result)->Ok_0[i] == lock_of(keys[i], table[keys[i]]));
    }
    let asked = resources_view(resources@);
    lemma_named_in(repository, resources@);
    assert forall|key: LockKey| #[trigger] keys.contains(key) <==> table.contains_key(key)
        && named_in(repository, resources@, key) by {
        status_selects(statement@, repository, asked, key, table[key]);
        assert(keys_of(repository, asked).contains(key) <==> named_in(
            repository,
            resources@,
            key,
        ));
    }
}

/// Where nothing is asked about, there is nothing to ask; and only there.
pub proof fn status_of_nothing(
    store: PgLockStore,
    repository: RepositoryId,
    resources: &[LockResource],
    step: StatusStep,
)
    requires
        call_ensures(PgLockStore::check_locks_status, (&store, repository, resources), step),
    ensures
        step is Nothing <==> resources@.len() == 0,
{
}


// ---------------------------------------------------------------------------
// Calls that fail
// ---------------------------------------------------------------------------

/// A request for locks ends where a call fails, with an error that names the call and passes
/// the cause on. A lock that was gone before its owner could be looked up is an error too, and
/// what the transaction has done is rolled back.
pub proof fn acquire_failures_named(
    cause: String,
    request: AcquireRequest,
    connected: AcquireStep,
    begin: AcquireBegin,
    begun: AcquireStep,
    insert: AcquireInsert,
    inserted: AcquireStep,
    owner: AcquireOwner,
    selected: AcquireStep,
    gone: AcquireStep,
    commit: AcquireCommit,
    committed: AcquireStep,
)
    requires
        call_ensures(AcquireRequest::connected, (request, Err::<(), String>(cause)), connected),
        call_ensures(AcquireBegin::reply, (begin, Err::<(), String>(cause)), begun),
        call_ensures(AcquireInsert::reply, (insert, Err::<u64, String>(cause)), inserted),
        call_ensures(AcquireOwner::reply, (owner, Err::<Option<String>, String>(cause)), selected),
        call_ensures(AcquireOwner::reply, (owner, Ok::<Option<String>, String>(None)), gone),
        call_ensures(AcquireCommit::reply, (commit, Err::<(), String>(cause)), committed),
    ensures
        connected@ == AcquireStepView::Finish(Err(LockError::Sql { call: SqlCall::Pool, cause })),
        begun@ == AcquireStepView::Finish(Err(LockError::Sql { call: SqlCall::Begin, cause })),
        inserted@ == AcquireStepView::Finish(Err(LockError::Sql { call: SqlCall::Insert, cause })),
        selected@ == AcquireStepView::Finish(Err(LockError::Sql { call: SqlCall::Select, cause })),
        gone@ == AcquireStepView::RollBack(LockError::RowDisappeared),
        committed@ == AcquireStepView::Finish(Err(LockError::Sql { call: SqlCall::Commit, cause })),
{
}

/// A request to give locks back ends where a call fails, with an error that names the call and
/// passes the cause on.
pub proof fn release_failures_named(
    cause: String,
    request: ReleaseRequest,
    connected: ReleaseStep,
    begin: ReleaseBegin,
    begun: ReleaseStep,
    delete: ReleaseDelete,
    deleted: ReleaseStep,
    owner: ReleaseOwner,
    selected: ReleaseStep,
    commit: ReleaseCommit,
    committed: ReleaseStep,
)
    requires
        call_ensures(ReleaseRequest::connected, (request, Err::<(), String>(cause)), connected),
        call_ensures(ReleaseBegin::reply, (begin, Err::<(), String>(cause)), begun),
        call_ensures(ReleaseDelete::reply, (delete, Err::<u64, String>(cause)), deleted),
        call_ensures(ReleaseOwner::reply, (owner, Err::<Option<String>, String>(cause)), selected),
        call_ensures(ReleaseCommit::reply, (commit, Err::<(), String>(cause)), committed),
    ensures
        connected@ == ReleaseStepView::Finish(Err(LockError::Sql { call: SqlCall::Pool, cause })),
        begun@ == ReleaseStepView::Finish(Err(LockError::Sql { call: SqlCall::Begin, cause })),
        deleted@ == ReleaseStepView::Finish(Err(LockError::Sql { call: SqlCall::Delete, cause })),
        selected@ == ReleaseStepView::Finish(Err(LockError::Sql { call: SqlCall::Select, cause })),
        committed@ == ReleaseStepView::Finish(Err(LockError::Sql { call: SqlCall::Commit, cause })),
{
}

/// A listing that fails is an error that names the query, or the pool where no connection was
/// to be had.
pub proof fn listing_failures_named(fault: Fault, result: Result<Vec<LockData>, LockError>)
    requires
        call_ensures(listed_locks, (Err::<Vec<LockRow>, Fault>(fault),), result),
    ensures
        fault matches Fault::Pool(cause) ==> result == Err::<Vec<LockData>, LockError>(
            LockError::Sql { call: SqlCall::Pool, cause },
        ),
        fault matches Fault::Statement(cause) ==> result == Err::<Vec<LockData>, LockError>(
            LockError::Sql { call: SqlCall::Query, cause },
        ),
{
}

/// The first row whose hash or branch has the wrong length makes the listing fail, with the
/// length that was found; the hash is looked at first.
pub proof fn defective_rows_reported(
    rows: Vec<LockRow>,
    i: int,
    result: Result<Vec<LockData>, LockError>,
)
    requires
        0 <= i < rows@.len(),
        forall|j: int|
            0 <= j < i ==> (#[trigger] rows@[j]).hash@.len() == 32 && rows@[j].branch@.len() == 16,
        rows@[i].hash@.len() != 32 || rows@[i].branch@.len() != 16,
        call_ensures(listed_locks, (Ok::<Vec<LockRow>, Fault>(rows),), result),
    ensures
        result == Err::<Vec<LockData>, LockError>(
            if rows@[i].hash@.len() != 32 {
                LockError::HashLength { len: rows@[i].hash@.len() as usize }
            } else {
                LockError::BranchLength { len: rows@[i].branch@.len() as usize }
            },
        ),
{
    let view = rows_view(rows@);
    assert(view[i] == rows@[i]@);
    assert(!view[i].well_formed());
    if result is Err {
        let k = choose|k: int|
            {
                &&& 0 <= k < view.len()
                &&& !(#[trigger] view[k]).well_formed()
                &&& result->Err_0 == view[k].defect()
                &&& forall|j: int| 0 <= j < k ==> (#[trigger] view[j]).well_formed()
            };
        assert(view[k] == rows@[k]@);
        if k < i {
            assert(rows@[k].hash@.len() == 32);
        }
    }
}

/// With a time stamp of the caller's own, every lock that is added has that stamp, where it is
/// stored and where it is reported.
pub proof fn stamped_as_given(
    table: LockTable,
    request: AcquireRequest,
    locked_at: i64,
    step: AcquireStep,
    calls: nat,
    after: LockTable,
    result: Result<Vec<LockData>, LockError>,
)
    requires
        locked_at >= 0,
        call_ensures(
            AcquireRequest::connected_at,
            (request, Ok::<(), String>(()), locked_at),
            step,
        ),
        acquire_leads(table, table, step, calls, after, result),
    ensures
        result matches Ok(locks) ==> forall|i: int|
            0 <= i < locks@.len() ==> {
                let lock = #[trigger] locks@[i];
                &&& lock.locked_at == locked_at
                &&& after[lock.resource@.key_in(request@.repository)].locked_at == locked_at
            },
        result is Err ==> after == table,
{
    lemma_acquire_leads(table, table, step, calls, after, result);
    assert((after, lock_list_view(result)) == acquire_on(table, request@, locked_at));
    acquire_all_or_nothing(table, request@, locked_at);
    if let Ok(locks) = result {
        assert forall|i: int| 0 <= i < locks@.len() implies {
            let lock = #[trigger] locks@[i];
            &&& lock.locked_at == locked_at
            &&& after[lock.resource@.key_in(request@.repository)].locked_at == locked_at
        } by {
            assert(locks_view(locks@)[i] == locks@[i]@);
        }
    }
}

} // verus!
