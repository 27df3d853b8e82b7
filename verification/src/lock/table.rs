//! What the statements of the lock store mean for a table of locks, and what follows for
//! the operations as a whole.
//!
//! The meaning given to a statement here is that of its SQL text, as
//! [`meaning`](crate::lock::meaning) shows. An operation is followed from its first step to its
//! end, each step answered from the table, with nobody else writing to it in the meantime; what
//! a transaction has done counts once it is committed.

use crate::bytes_order::lex_lt;
use crate::error::LockError;
use crate::lock::acquire::{
    clock_shows, AcquireRequest, AcquireRequestView, AcquireStep, AcquireStepView, AcquireView,
};
use crate::lock::records::{
    in_canonical_order, same_resources, LockDataView, LockKey, LockResourceView,
};
use crate::lock::release::{ReleaseStepView, ReleaseView};
use crate::lock::report::{asks_status, listed, pairs_of, LockRowView};
use crate::lock::statements::{LockQueryView, LockStatementView};
use crate::types::{
    lemma_context_bytes, lemma_hash_bytes, BranchId, ContentHash, RepositoryId,
};
use vstd::prelude::*;

verus! {

/// What is stored under the key of a lock.
pub struct LockEntry {
    pub owner_id: Seq<char>,
    pub description: Seq<char>,
    pub locked_at: i64,
}

/// The locks that are held. The primary key admits one lock for a key.
pub type LockTable = Map<LockKey, LockEntry>;

/// The table after a statement, and the number of rows it added or removed.
pub open spec fn execute(table: LockTable, statement: LockStatementView) -> (LockTable, u64) {
    match statement {
        LockStatementView::Insert { key, owner_id, description, locked_at } => {
            if table.contains_key(key) {
                (table, 0)
            } else {
                (table.insert(key, LockEntry { owner_id, description, locked_at }), 1)
            }
        },
        LockStatementView::DeleteOwned { key, owner_id } => {
            if table.contains_key(key) && table[key].owner_id == owner_id {
                (table.remove(key), 1)
            } else {
                (table, 0)
            }
        },
        LockStatementView::Delete { key } => {
            if table.contains_key(key) {
                (table.remove(key), 1)
            } else {
                (table, 0)
            }
        },
        LockStatementView::SelectOwner { .. } => (table, 0),
        LockStatementView::Query(_) => (table, 0),
        LockStatementView::Status { .. } => (table, 0),
    }
}

/// The owner of the lock under a key.
pub open spec fn owner_of(table: LockTable, key: LockKey) -> Option<Seq<char>> {
    if table.contains_key(key) {
        Some(table[key].owner_id)
    } else {
        None
    }
}

/// The lock under the key is held by `owner`.
pub open spec fn held_by(table: LockTable, key: LockKey, owner: Seq<char>) -> bool {
    table.contains_key(key) && table[key].owner_id == owner
}

/// The lock under the key is held by somebody other than `owner`.
pub open spec fn held_by_other(table: LockTable, key: LockKey, owner: Seq<char>) -> bool {
    table.contains_key(key) && table[key].owner_id != owner
}

// ---------------------------------------------------------------------------
// Taking locks
// ---------------------------------------------------------------------------

/// A bound on the steps that are still to come.
pub open spec fn acquire_rank(step: AcquireStepView) -> nat {
    match step {
        AcquireStepView::Begin(s) => 3 * s.pending.len() + 5,
        AcquireStepView::Insert(one) => 3 * one.batch.pending.len() + 4,
        AcquireStepView::SelectOwner(one) => 3 * one.batch.pending.len() + 3,
        AcquireStepView::Commit(_) => 2,
        AcquireStepView::RollBack(_) => 1,
        AcquireStepView::Finish(_) => 0,
    }
}

/// What becomes of a request for locks: the table in the end, and the result. `base` is the
/// table as others see it, `table` as the transaction does.
pub open spec fn run_acquire(
    base: LockTable,
    table: LockTable,
    step: AcquireStepView,
) -> (LockTable, Result<Seq<LockDataView>, LockError>)
    decreases acquire_rank(step),
{
    match step {
        AcquireStepView::Begin(s) => run_acquire(base, base, s.begun(Ok(()))),
        AcquireStepView::Insert(one) => {
            let (after, rows) = execute(table, one.insert());
            run_acquire(base, after, one.inserted(Ok(rows)))
        },
        AcquireStepView::SelectOwner(one) => run_acquire(
            base,
            table,
            one.owner_known(Ok(owner_of(table, one.key()))),
        ),
        AcquireStepView::Commit(s) => run_acquire(table, table, s.committed(Ok(()))),
        AcquireStepView::RollBack(e) => (base, Err(e)),
        AcquireStepView::Finish(result) => (base, result),
    }
}

/// What becomes of a request for locks on a table.
pub open spec fn acquire_on(
    table: LockTable,
    request: AcquireRequestView,
    locked_at: i64,
) -> (LockTable, Result<Seq<LockDataView>, LockError>) {
    run_acquire(table, table, request.connected(Ok(()), locked_at))
}

/// One of the resources is locked by somebody other than `owner`.
pub open spec fn conflicts(
    table: LockTable,
    owner: Seq<char>,
    repository: RepositoryId,
    resources: Seq<LockResourceView>,
) -> bool {
    exists|i: int|
        0 <= i < resources.len() && held_by_other(
            table,
            #[trigger] resources[i].key_in(repository),
            owner,
        )
}

/// `after` is `table` with locks on all of the resources for `owner`: what was locked stays
/// as it was, everything asked for is locked now, nothing else is, and `new` lists the
/// locks that were added, each once, in canonical order where they were asked for so.
pub open spec fn locks_added(
    table: LockTable,
    after: LockTable,
    owner: Seq<char>,
    repository: RepositoryId,
    locked_at: i64,
    resources: Seq<LockResourceView>,
    new: Seq<LockDataView>,
) -> bool {
    &&& forall|key: LockKey|
        #[trigger] table.contains_key(key) ==> after.contains_key(key) && after[key] == table[key]
    &&& forall|i: int|
        0 <= i < resources.len() ==> held_by(
            after,
            #[trigger] resources[i].key_in(repository),
            owner,
        )
    &&& forall|i: int|
        0 <= i < new.len() ==> {
            let lock = #[trigger] new[i];
            let key = lock.resource.key_in(repository);
            &&& resources.contains(lock.resource)
            &&& lock.owner == owner
            &&& lock.locked_at == locked_at as u64
            &&& !table.contains_key(key)
            &&& after.contains_key(key)
            &&& after[key] == (LockEntry {
                owner_id: owner,
                description: lock.resource.description,
                locked_at,
            })
        }
    &&& forall|i: int, j: int|
        0 <= i < j < new.len() ==> (#[trigger] new[i]).resource.key_in(repository) != (
        #[trigger] new[j]).resource.key_in(repository)
    &&& forall|key: LockKey|
        #[trigger] after.contains_key(key) && !table.contains_key(key) ==> exists|i: int|
            0 <= i < new.len() && (#[trigger] new[i]).resource.key_in(repository) == key
    &&& in_canonical_order(resources) ==> in_canonical_order(resources_of(new))
}

/// The resources that are locked.
pub open spec fn resources_of(locks: Seq<LockDataView>) -> Seq<LockResourceView> {
    Seq::new(locks.len(), |i: int| locks[i].resource)
}

proof fn lemma_rest_in_order(list: Seq<LockResourceView>)
    requires
        list.len() > 0,
        in_canonical_order(list),
    ensures
        in_canonical_order(list.drop_first()),
{
    let rest = list.drop_first();
    assert forall|i: int, j: int| 0 <= i < j < rest.len() implies lex_lt(
        #[trigger] rest[i].sort_key(),
        #[trigger] rest[j].sort_key(),
    ) by {
        assert(rest[i] == list[i + 1] && rest[j] == list[j + 1]);
        assert(lex_lt(list[i + 1].sort_key(), list[j + 1].sort_key()));
    }
}

proof fn lemma_acquire_from(base: LockTable, table: LockTable, s: AcquireView)
    ensures
        ({
            let (after, result) = run_acquire(base, table, s.advance());
            if conflicts(table, s.owner_id, s.repository, s.pending) {
                after == base && result == Err::<Seq<LockDataView>, LockError>(
                    LockError::LockNotOwned,
                )
            } else {
                exists|new: Seq<LockDataView>|
                    result == Ok::<Seq<LockDataView>, LockError>(s.newly_locked + new)
                        && #[trigger] locks_added(
                        table,
                        after,
                        s.owner_id,
                        s.repository,
                        s.locked_at,
                        s.pending,
                        new,
                    )
            }
        }),
    decreases s.pending.len(),
{
    reveal_with_fuel(run_acquire, 4);
    let (after, result) = run_acquire(base, table, s.advance());
    if s.pending.len() == 0 {
        let new = Seq::<LockDataView>::empty();
        assert(s.newly_locked + new =~= s.newly_locked);
        assert(locks_added(
            table,
            after,
            s.owner_id,
            s.repository,
            s.locked_at,
            s.pending,
            new,
        ));
    } else {
        let rest = AcquireView { pending: s.pending.drop_first(), ..s };
        let current = s.pending.first();
        let key = current.key_in(s.repository);
        assert(s.pending[0].key_in(s.repository) == key);
        assert forall|i: int| 0 <= i < rest.pending.len() implies (
        #[trigger] rest.pending[i]) == s.pending[i + 1] by {}
        if table.contains_key(key) {
            if table[key].owner_id == s.owner_id {
                lemma_acquire_from(base, table, rest);
                assert(run_acquire(base, table, s.advance()) == run_acquire(
                    base,
                    table,
                    rest.advance(),
                ));
                if conflicts(table, s.owner_id, s.repository, s.pending) {
                    let i = choose|i: int|
                        0 <= i < s.pending.len() && held_by_other(
                            table,
                            #[trigger] s.pending[i].key_in(s.repository),
                            s.owner_id,
                        );
                    assert(rest.pending[i - 1].key_in(s.repository) == s.pending[i].key_in(
                        s.repository,
                    ));
                    assert(conflicts(table, s.owner_id, s.repository, rest.pending));
                } else {
                    assert(!conflicts(table, s.owner_id, s.repository, rest.pending)) by {
                        if conflicts(table, s.owner_id, s.repository, rest.pending) {
                            let i = choose|i: int|
                                0 <= i < rest.pending.len() && held_by_other(
                                    table,
                                    #[trigger] rest.pending[i].key_in(s.repository),
                                    s.owner_id,
                                );
                            assert(held_by_other(
                                table,
                                s.pending[i + 1].key_in(s.repository),
                                s.owner_id,
                            ));
                        }
                    }
                    let new = choose|new: Seq<LockDataView>|
                        result == Ok::<Seq<LockDataView>, LockError>(s.newly_locked + new)
                            && #[trigger] locks_added(
                            table,
                            after,
                            s.owner_id,
                            s.repository,
                            s.locked_at,
                            rest.pending,
                            new,
                        );
                    lemma_extend_added(table, after, s, new);
                }
            } else {
                assert(conflicts(table, s.owner_id, s.repository, s.pending));
            }
        } else {
            let entry = LockEntry {
                owner_id: s.owner_id,
                description: current.description,
                locked_at: s.locked_at,
            };
            let lock = LockDataView {
                resource: current,
                owner: s.owner_id,
                locked_at: s.locked_at as u64,
            };
            let next = AcquireView { newly_locked: s.newly_locked.push(lock), ..rest };
            let table2 = table.insert(key, entry);
            lemma_acquire_from(base, table2, next);
            assert(run_acquire(base, table, s.advance()) == run_acquire(
                base,
                table2,
                next.advance(),
            ));
            if conflicts(table, s.owner_id, s.repository, s.pending) {
                let i = choose|i: int|
                    0 <= i < s.pending.len() && held_by_other(
                        table,
                        #[trigger] s.pending[i].key_in(s.repository),
                        s.owner_id,
                    );
                assert(i > 0);
                assert(rest.pending[i - 1].key_in(s.repository) == s.pending[i].key_in(
                    s.repository,
                ));
                assert(conflicts(table2, s.owner_id, s.repository, rest.pending));
            } else {
                assert(!conflicts(table2, s.owner_id, s.repository, rest.pending)) by {
                    if conflicts(table2, s.owner_id, s.repository, rest.pending) {
                        let i = choose|i: int|
                            0 <= i < rest.pending.len() && held_by_other(
                                table2,
                                #[trigger] rest.pending[i].key_in(s.repository),
                                s.owner_id,
                            );
                        assert(held_by_other(
                            table,
                            s.pending[i + 1].key_in(s.repository),
                            s.owner_id,
                        ));
                    }
                }
                let tail = choose|new: Seq<LockDataView>|
                    result == Ok::<Seq<LockDataView>, LockError>(next.newly_locked + new)
                        && #[trigger] locks_added(
                        table2,
                        after,
                        s.owner_id,
                        s.repository,
                        s.locked_at,
                        rest.pending,
                        new,
                    );
                lemma_prepend_added(table, after, s, tail);
                let new = seq![lock] + tail;
                assert(next.newly_locked + tail =~= s.newly_locked + new);
            }
        }
    }
}

/// A lock that was held already adds nothing.
proof fn lemma_extend_added(
    table: LockTable,
    after: LockTable,
    s: AcquireView,
    new: Seq<LockDataView>,
)
    requires
        s.pending.len() > 0,
        held_by(table, s.pending.first().key_in(s.repository), s.owner_id),
        locks_added(
            table,
            after,
            s.owner_id,
            s.repository,
            s.locked_at,
            s.pending.drop_first(),
            new,
        ),
    ensures
        locks_added(table, after, s.owner_id, s.repository, s.locked_at, s.pending, new),
{
    let rest = s.pending.drop_first();
    assert forall|i: int| 0 <= i < s.pending.len() implies held_by(
        after,
        #[trigger] s.pending[i].key_in(s.repository),
        s.owner_id,
    ) by {
        if i > 0 {
            assert(rest[i - 1].key_in(s.repository) == s.pending[i].key_in(s.repository));
        }
    }
    assert forall|i: int| 0 <= i < new.len() implies s.pending.contains(
        (#[trigger] new[i]).resource,
    ) by {
        let k = choose|k: int| 0 <= k < rest.len() && rest[k] == new[i].resource;
        assert(s.pending[k + 1] == new[i].resource);
    }
    if in_canonical_order(s.pending) {
        lemma_rest_in_order(s.pending);
    }
}

/// A lock that was not held is the first of the new ones.
proof fn lemma_prepend_added(
    table: LockTable,
    after: LockTable,
    s: AcquireView,
    tail: Seq<LockDataView>,
)
    requires
        s.pending.len() > 0,
        !table.contains_key(s.pending.first().key_in(s.repository)),
        locks_added(
            table.insert(
                s.pending.first().key_in(s.repository),
                LockEntry {
                    owner_id: s.owner_id,
                    description: s.pending.first().description,
                    locked_at: s.locked_at,
                },
            ),
            after,
            s.owner_id,
            s.repository,
            s.locked_at,
            s.pending.drop_first(),
            tail,
        ),
    ensures
        locks_added(
            table,
            after,
            s.owner_id,
            s.repository,
            s.locked_at,
            s.pending,
            seq![
                LockDataView {
                    resource: s.pending.first(),
                    owner: s.owner_id,
                    locked_at: s.locked_at as u64,
                },
            ] + tail,
        ),
{
    let rest = s.pending.drop_first();
    let current = s.pending.first();
    let key = current.key_in(s.repository);
    let entry = LockEntry {
        owner_id: s.owner_id,
        description: current.description,
        locked_at: s.locked_at,
    };
    let lock = LockDataView {
        resource: current,
        owner: s.owner_id,
        locked_at: s.locked_at as u64,
    };
    let table2 = table.insert(key, entry);
    let new = seq![lock] + tail;
    assert(table2.contains_key(key));
    assert forall|k: LockKey| #[trigger] table.contains_key(k) implies after.contains_key(k)
        && after[k] == table[k] by {
        assert(table2.contains_key(k));
    }
    assert forall|i: int| 0 <= i < s.pending.len() implies held_by(
        after,
        #[trigger] s.pending[i].key_in(s.repository),
        s.owner_id,
    ) by {
        if i > 0 {
            assert(rest[i - 1].key_in(s.repository) == s.pending[i].key_in(s.repository));
        }
    }
    assert(s.pending[0] == current);
    assert forall|i: int| 0 <= i < new.len() implies {
        let lock = #[trigger] new[i];
        let key = lock.resource.key_in(s.repository);
        &&& s.pending.contains(lock.resource)
        &&& lock.owner == s.owner_id
        &&& lock.locked_at == s.locked_at as u64
        &&& !table.contains_key(key)
        &&& after.contains_key(key)
        &&& after[key] == (LockEntry {
            owner_id: s.owner_id,
            description: lock.resource.description,
            locked_at: s.locked_at,
        })
    } by {
        if i > 0 {
            assert(new[i] == tail[i - 1]);
            let r = new[i].resource;
            let k = choose|k: int| 0 <= k < rest.len() && rest[k] == r;
            assert(s.pending[k + 1] == r);
            assert(!table2.contains_key(r.key_in(s.repository)));
        }
    }
    assert forall|i: int, j: int| 0 <= i < j < new.len() implies (
    #[trigger] new[i]).resource.key_in(s.repository) != (#[trigger] new[j]).resource.key_in(
        s.repository,
    ) by {
        assert(new[j] == tail[j - 1]);
        if i > 0 {
            assert(new[i] == tail[i - 1]);
        } else {
            assert(!table2.contains_key(tail[j - 1].resource.key_in(s.repository)));
        }
    }
    assert forall|k: LockKey| #[trigger]
        after.contains_key(k) && !table.contains_key(k) implies exists|i: int|
        0 <= i < new.len() && (#[trigger] new[i]).resource.key_in(s.repository) == k by {
        if k == key {
            assert(new[0].resource.key_in(s.repository) == k);
        } else {
            assert(!table2.contains_key(k));
            let i = choose|i: int|
                0 <= i < tail.len() && (#[trigger] tail[i]).resource.key_in(s.repository) == k;
            assert(new[i + 1].resource.key_in(s.repository) == k);
        }
    }
    if in_canonical_order(s.pending) {
        lemma_rest_in_order(s.pending);
        let order = resources_of(new);
        assert forall|i: int, j: int| 0 <= i < j < order.len() implies lex_lt(
            #[trigger] order[i].sort_key(),
            #[trigger] order[j].sort_key(),
        ) by {
            let later = tail[j - 1].resource;
            assert(order[j] == later && resources_of(tail)[j - 1] == later);
            if i > 0 {
                assert(order[i] == resources_of(tail)[i - 1]);
            } else {
                assert(rest.contains(later));
                let k = choose|k: int| 0 <= k < rest.len() && rest[k] == later;
                assert(s.pending[k + 1] == later);
                assert(lex_lt(s.pending[0].sort_key(), s.pending[k + 1].sort_key()));
            }
        }
    }
}

/// Taking locks is all or nothing. If somebody else holds one of them, the request fails
/// with [`LockError::LockNotOwned`] and nothing changes. Otherwise all of them are held by
/// `owner_id` afterwards, nothing else has changed, and the result lists exactly the locks
/// that were added, in canonical order where they were asked for so. The time that is
/// reported is the one that is stored.
pub proof fn acquire_all_or_nothing(
    table: LockTable,
    request: AcquireRequestView,
    locked_at: i64,
)
    ensures
        ({
            let (after, result) = acquire_on(table, request, locked_at);
            if conflicts(table, request.owner_id, request.repository, request.resources) {
                after == table && result == Err::<Seq<LockDataView>, LockError>(
                    LockError::LockNotOwned,
                )
            } else {
                result is Ok && locks_added(
                    table,
                    after,
                    request.owner_id,
                    request.repository,
                    locked_at,
                    request.resources,
                    result->Ok_0,
                ) && (locked_at >= 0 ==> forall|i: int|
                    0 <= i < result->Ok_0.len() ==> (#[trigger] result->Ok_0[i]).locked_at
                        == locked_at)
            }
        }),
{
    let s = AcquireView {
        owner_id: request.owner_id,
        repository: request.repository,
        locked_at,
        pending: request.resources,
        newly_locked: Seq::empty(),
    };
    reveal_with_fuel(run_acquire, 2);
    assert(acquire_on(table, request, locked_at) == run_acquire(table, table, s.advance()));
    lemma_acquire_from(table, table, s);
    let (after, result) = acquire_on(table, request, locked_at);
    if !conflicts(table, request.owner_id, request.repository, request.resources) {
        let new = choose|new: Seq<LockDataView>|
            result == Ok::<Seq<LockDataView>, LockError>(s.newly_locked + new)
                && #[trigger] locks_added(
                table,
                after,
                s.owner_id,
                s.repository,
                s.locked_at,
                s.pending,
                new,
            );
        assert(s.newly_locked + new =~= new);
    }
}

/// A request that is carried out stamps its locks with what the clock has shown: the time is
/// stored and reported as it was read, whoever asks and whatever the time is.
pub proof fn stamped_as_read(table: LockTable, request: AcquireRequest, step: AcquireStep)
    requires
        call_ensures(
            AcquireRequest::connected,
            (request, Ok::<(), String>(())),
            step,
        ),
    ensures
        exists|now: i64|
            #[trigger] clock_shows(now) && ({
                let (after, result) = run_acquire(table, table, step@);
                &&& result is Ok ==> forall|i: int|
                    0 <= i < result->Ok_0.len() ==> {
                        let lock = #[trigger] result->Ok_0[i];
                        &&& lock.locked_at == now
                        &&& after[lock.resource.key_in(request@.repository)].locked_at == now
                    }
                &&& forall|key: LockKey|
                    #[trigger] after.contains_key(key) && !table.contains_key(key)
                        ==> after[key].locked_at == now
            }),
{
    let now = choose|now: i64|
        now >= 0 && #[trigger] clock_shows(now) && step@ == request@.connected(Ok(()), now);
    acquire_all_or_nothing(table, request@, now);
    let (after, result) = run_acquire(table, table, step@);
    assert((after, result) == acquire_on(table, request@, now));
    if result is Ok {
        let new = result->Ok_0;
        assert forall|i: int| 0 <= i < new.len() implies {
            let lock = #[trigger] new[i];
            &&& lock.locked_at == now
            &&& after[lock.resource.key_in(request@.repository)].locked_at == now
        } by {
            assert(new[i].locked_at == now as u64);
        }
        assert forall|key: LockKey|
            #[trigger] after.contains_key(key) && !table.contains_key(key) implies
            after[key].locked_at == now by {
            let i = choose|i: int|
                0 <= i < new.len() && (#[trigger] new[i]).resource.key_in(request@.repository)
                    == key;
            assert(new[i].resource.key_in(request@.repository) == key);
        }
    }
}

/// Of two requests that are carried out, the one that has read the later time has the later
/// stamp: stamps are in the order of what the clock has shown.
pub proof fn stamps_in_order(
    first: AcquireRequest,
    second: AcquireRequest,
    one: AcquireStep,
    two: AcquireStep,
)
    requires
        call_ensures(AcquireRequest::connected, (first, Ok::<(), String>(())), one),
        call_ensures(AcquireRequest::connected, (second, Ok::<(), String>(())), two),
    ensures
        one@ is Begin && two@ is Begin,
        exists|earlier: i64, later: i64|
            {
                &&& #[trigger] clock_shows(earlier)
                &&& #[trigger] clock_shows(later)
                &&& one@->Begin_0.locked_at == earlier
                &&& two@->Begin_0.locked_at == later
                &&& earlier < later <==> one@->Begin_0.locked_at < two@->Begin_0.locked_at
            },
{
    let earlier = one@->Begin_0.locked_at;
    let later = two@->Begin_0.locked_at;
    assert(clock_shows(earlier) && clock_shows(later));
}

/// Asking for locks that one holds already changes nothing and reports nothing.
pub proof fn acquire_idempotent(table: LockTable, request: AcquireRequestView, locked_at: i64)
    requires
        forall|i: int|
            0 <= i < request.resources.len() ==> held_by(
                table,
                #[trigger] request.resources[i].key_in(request.repository),
                request.owner_id,
            ),
    ensures
        acquire_on(table, request, locked_at) == (
            table,
            Ok::<Seq<LockDataView>, LockError>(Seq::empty()),
        ),
{
    acquire_all_or_nothing(table, request, locked_at);
    let (after, result) = acquire_on(table, request, locked_at);
    assert(!conflicts(table, request.owner_id, request.repository, request.resources));
    let new = result->Ok_0;
    if new.len() > 0 {
        let r = new[0].resource;
        assert(request.resources.contains(r));
        let i = choose|i: int| 0 <= i < request.resources.len() && request.resources[i] == r;
        assert(held_by(
            table,
            request.resources[i].key_in(request.repository),
            request.owner_id,
        ));
    }
    assert(new =~= Seq::empty());
    assert forall|key: LockKey| after.contains_key(key) implies #[trigger] table.contains_key(
        key,
    ) by {
        if !table.contains_key(key) {
            assert(after.contains_key(key));
        }
    }
    assert(after =~= table);
}

/// Asking twice for the same locks is the same as asking once; the second time nothing is
/// reported.
pub proof fn acquire_twice(
    table: LockTable,
    request: AcquireRequestView,
    locked_at: i64,
    locked_again_at: i64,
)
    requires
        acquire_on(table, request, locked_at).1 is Ok,
    ensures
        acquire_on(acquire_on(table, request, locked_at).0, request, locked_again_at) == (
            acquire_on(table, request, locked_at).0,
            Ok::<Seq<LockDataView>, LockError>(Seq::empty()),
        ),
{
    acquire_all_or_nothing(table, request, locked_at);
    acquire_idempotent(acquire_on(table, request, locked_at).0, request, locked_again_at);
}

/// What becomes of a request for locks when the call to Postgres that comes after `calls`
/// others fails. A commit that fails is taken not to have happened.
pub open spec fn run_acquire_failing(
    base: LockTable,
    table: LockTable,
    step: AcquireStepView,
    calls: nat,
    cause: String,
) -> (LockTable, Result<Seq<LockDataView>, LockError>)
    decreases acquire_rank(step),
{
    let left = (calls - 1) as nat;
    match step {
        AcquireStepView::Begin(s) => if calls == 0 {
            run_acquire(base, base, s.begun(Err(cause)))
        } else {
            run_acquire_failing(base, base, s.begun(Ok(())), left, cause)
        },
        AcquireStepView::Insert(one) => if calls == 0 {
            run_acquire(base, table, one.inserted(Err(cause)))
        } else {
            let (after, rows) = execute(table, one.insert());
            run_acquire_failing(base, after, one.inserted(Ok(rows)), left, cause)
        },
        AcquireStepView::SelectOwner(one) => if calls == 0 {
            run_acquire(base, table, one.owner_known(Err(cause)))
        } else {
            run_acquire_failing(
                base,
                table,
                one.owner_known(Ok(owner_of(table, one.key()))),
                left,
                cause,
            )
        },
        AcquireStepView::Commit(s) => if calls == 0 {
            run_acquire(base, table, s.committed(Err(cause)))
        } else {
            run_acquire(table, table, s.committed(Ok(())))
        },
        AcquireStepView::RollBack(e) => (base, Err(e)),
        AcquireStepView::Finish(result) => (base, result),
    }
}

proof fn lemma_acquire_failing(
    base: LockTable,
    table: LockTable,
    step: AcquireStepView,
    calls: nat,
    cause: String,
)
    ensures
        ({
            let (after, result) = run_acquire_failing(base, table, step, calls, cause);
            (after, result) == run_acquire(base, table, step) || (after == base && result is Err)
        }),
    decreases acquire_rank(step),
{
    reveal_with_fuel(run_acquire, 2);
    if calls > 0 {
        let left = (calls - 1) as nat;
        match step {
            AcquireStepView::Begin(s) => {
                lemma_acquire_failing(base, base, s.begun(Ok(())), left, cause);
            },
            AcquireStepView::Insert(one) => {
                let (after, rows) = execute(table, one.insert());
                lemma_acquire_failing(base, after, one.inserted(Ok(rows)), left, cause);
            },
            AcquireStepView::SelectOwner(one) => {
                lemma_acquire_failing(
                    base,
                    table,
                    one.owner_known(Ok(owner_of(table, one.key()))),
                    left,
                    cause,
                );
            },
            _ => {},
        }
    }
}

/// A failure of Postgres on the way leaves the locks as they were: the request either comes
/// to the end that it would have come to, or changes nothing and reports an error.
pub proof fn acquire_atomic(
    table: LockTable,
    request: AcquireRequestView,
    locked_at: i64,
    calls: nat,
    cause: String,
)
    ensures
        ({
            let (after, result) = run_acquire_failing(
                table,
                table,
                request.connected(Ok(()), locked_at),
                calls,
                cause,
            );
            (after, result) == acquire_on(table, request, locked_at) || (after == table
                && result is Err)
        }),
{
    lemma_acquire_failing(table, table, request.connected(Ok(()), locked_at), calls, cause);
}

// ---------------------------------------------------------------------------
// Giving locks back
// ---------------------------------------------------------------------------

/// A bound on the steps that are still to come.
pub open spec fn release_rank(step: ReleaseStepView) -> nat {
    match step {
        ReleaseStepView::Begin(s) => 3 * s.pending.len() + 5,
        ReleaseStepView::Delete(one) => 3 * one.batch.pending.len() + 4,
        ReleaseStepView::SelectOwner(one) => 3 * one.batch.pending.len() + 3,
        ReleaseStepView::Commit(_) => 2,
        ReleaseStepView::RollBack(_) => 1,
        ReleaseStepView::Finish(_) => 0,
    }
}

/// What becomes of a request to give locks back: the table in the end, and the result.
/// `base` is the table as others see it, `table` as the transaction does.
pub open spec fn run_release(
    base: LockTable,
    table: LockTable,
    step: ReleaseStepView,
) -> (LockTable, Result<Seq<LockResourceView>, LockError>)
    decreases release_rank(step),
{
    match step {
        ReleaseStepView::Begin(s) => run_release(base, base, s.begun(Ok(()))),
        ReleaseStepView::Delete(one) => {
            let (after, rows) = execute(table, one.delete());
            run_release(base, after, one.deleted(Ok(rows)))
        },
        ReleaseStepView::SelectOwner(one) => run_release(
            base,
            table,
            one.owner_known(Ok(owner_of(table, one.key()))),
        ),
        ReleaseStepView::Commit(s) => run_release(table, table, s.committed(Ok(()))),
        ReleaseStepView::RollBack(e) => (base, Err(e)),
        ReleaseStepView::Finish(result) => (base, result),
    }
}

/// What becomes of a request to give locks back on a table.
pub open spec fn release_on(table: LockTable, request: ReleaseView) -> (
    LockTable,
    Result<Seq<LockResourceView>, LockError>,
) {
    run_release(table, table, request.connected(Ok(())))
}

/// The keys of the resources.
pub open spec fn keys_of(repository: RepositoryId, resources: Seq<LockResourceView>) -> Set<LockKey> {
    Set::new(
        |key: LockKey|
            exists|i: int|
                0 <= i < resources.len() && #[trigger] resources[i].key_in(repository) == key,
    )
}

/// The `i`-th of the resources can be given back: `owner` holds the lock, and it has not
/// been given back under another description before.
pub open spec fn releasable(
    table: LockTable,
    owner: Seq<char>,
    repository: RepositoryId,
    resources: Seq<LockResourceView>,
    i: int,
) -> bool {
    &&& held_by(table, resources[i].key_in(repository), owner)
    &&& forall|j: int|
        0 <= j < i ==> #[trigger] resources[j].key_in(repository) != resources[i].key_in(
            repository,
        )
}

proof fn lemma_release_any_from(base: LockTable, table: LockTable, s: ReleaseView)
    requires
        !s.validate_user,
    ensures
        run_release(base, table, s.advance()) == (
            table.remove_keys(keys_of(s.repository, s.pending)),
            Ok::<Seq<LockResourceView>, LockError>(s.released + s.pending),
        ),
    decreases s.pending.len(),
{
    reveal_with_fuel(run_release, 3);
    if s.pending.len() == 0 {
        assert(s.released + s.pending =~= s.released);
        assert(table.remove_keys(keys_of(s.repository, s.pending)) =~= table);
    } else {
        let current = s.pending.first();
        let key = current.key_in(s.repository);
        let rest = s.pending.drop_first();
        let next = ReleaseView { pending: rest, released: s.released.push(current), ..s };
        let after = if table.contains_key(key) {
            table.remove(key)
        } else {
            table
        };
        lemma_release_any_from(base, after, next);
        assert(next.released + next.pending =~= s.released + s.pending);
        lemma_keys_of_first(s.repository, s.pending);
        assert(after.remove_keys(keys_of(s.repository, rest)) =~= table.remove_keys(
            keys_of(s.repository, s.pending),
        ));
    }
}

proof fn lemma_keys_of_first(repository: RepositoryId, resources: Seq<LockResourceView>)
    requires
        resources.len() > 0,
    ensures
        keys_of(repository, resources) == keys_of(repository, resources.drop_first()).insert(
            resources.first().key_in(repository),
        ),
{
    let rest = resources.drop_first();
    assert forall|key: LockKey|
        keys_of(repository, resources).contains(key) <==> #[trigger] keys_of(
            repository,
            rest,
        ).insert(resources.first().key_in(repository)).contains(key) by {
        if keys_of(repository, resources).contains(key) {
            let i = choose|i: int|
                0 <= i < resources.len() && #[trigger] resources[i].key_in(repository) == key;
            if i > 0 {
                assert(rest[i - 1].key_in(repository) == key);
            }
        }
        if keys_of(repository, rest).contains(key) {
            let i = choose|i: int|
                0 <= i < rest.len() && #[trigger] rest[i].key_in(repository) == key;
            assert(resources[i + 1].key_in(repository) == key);
        }
        assert(resources[0].key_in(repository) == resources.first().key_in(repository));
    }
    assert(keys_of(repository, resources) =~= keys_of(repository, rest).insert(
        resources.first().key_in(repository),
    ));
}

/// Giving locks back without regard to the owner removes them all, passes over those that
/// nobody holds, and always succeeds.
pub proof fn release_any(table: LockTable, request: ReleaseView)
    requires
        !request.validate_user,
        request.released == Seq::<LockResourceView>::empty(),
    ensures
        release_on(table, request) == (
            table.remove_keys(keys_of(request.repository, request.pending)),
            Ok::<Seq<LockResourceView>, LockError>(request.pending),
        ),
{
    reveal_with_fuel(run_release, 2);
    lemma_release_any_from(table, table, request);
    assert(release_on(table, request) == run_release(table, table, request.advance()));
    assert(request.released + request.pending =~= request.pending);
}

/// Giving locks back without regard to the owner a second time changes nothing and
/// succeeds.
pub proof fn release_any_idempotent(table: LockTable, request: ReleaseView)
    requires
        !request.validate_user,
        request.released == Seq::<LockResourceView>::empty(),
    ensures
        release_on(release_on(table, request).0, request) == release_on(table, request),
{
    release_any(table, request);
    let after = release_on(table, request).0;
    release_any(after, request);
    let keys = keys_of(request.repository, request.pending);
    assert(after.remove_keys(keys) =~= after);
}

proof fn lemma_release_owned_from(base: LockTable, table: LockTable, s: ReleaseView)
    requires
        s.validate_user,
    ensures
        (forall|i: int|
            0 <= i < s.pending.len() ==> #[trigger] releasable(
                table,
                s.owner_id,
                s.repository,
                s.pending,
                i,
            )) ==> run_release(base, table, s.advance()) == (
            table.remove_keys(keys_of(s.repository, s.pending)),
            Ok::<Seq<LockResourceView>, LockError>(s.released + s.pending),
        ),
        forall|i: int|
            #![trigger releasable(table, s.owner_id, s.repository, s.pending, i)]
            0 <= i < s.pending.len() && !releasable(
                table,
                s.owner_id,
                s.repository,
                s.pending,
                i,
            ) && (forall|j: int|
                0 <= j < i ==> #[trigger] releasable(
                    table,
                    s.owner_id,
                    s.repository,
                    s.pending,
                    j,
                )) ==> run_release(base, table, s.advance()) == (
                base,
                Err::<Seq<LockResourceView>, LockError>(
                    release_error(table, s.owner_id, s.repository, s.pending, i),
                ),
            ),
    decreases s.pending.len(),
{
    reveal_with_fuel(run_release, 4);
    if s.pending.len() == 0 {
        assert(s.released + s.pending =~= s.released);
        assert(table.remove_keys(keys_of(s.repository, s.pending)) =~= table);
    } else {
        let current = s.pending.first();
        let key = current.key_in(s.repository);
        let rest = s.pending.drop_first();
        let next = ReleaseView { pending: rest, released: s.released.push(current), ..s };
        assert(s.pending[0].key_in(s.repository) == key);
        if held_by(table, key, s.owner_id) {
            let after = table.remove(key);
            lemma_release_owned_from(base, after, next);
            assert(run_release(base, table, s.advance()) == run_release(
                base,
                after,
                next.advance(),
            ));
            assert(releasable(table, s.owner_id, s.repository, s.pending, 0));
            assert forall|i: int| 0 <= i < rest.len() implies #[trigger] releasable(
                after,
                s.owner_id,
                s.repository,
                rest,
                i,
            ) == releasable(table, s.owner_id, s.repository, s.pending, i + 1) by {
                lemma_releasable_rest(table, s.owner_id, s.repository, s.pending, i);
            }
            if forall|i: int|
                0 <= i < s.pending.len() ==> #[trigger] releasable(
                    table,
                    s.owner_id,
                    s.repository,
                    s.pending,
                    i,
                ) {
                assert forall|i: int| 0 <= i < rest.len() implies #[trigger] releasable(
                    after,
                    s.owner_id,
                    s.repository,
                    rest,
                    i,
                ) by {
                    assert(releasable(table, s.owner_id, s.repository, s.pending, i + 1));
                }
                assert(next.released + next.pending =~= s.released + s.pending);
                lemma_keys_of_first(s.repository, s.pending);
                assert(after.remove_keys(keys_of(s.repository, rest)) =~= table.remove_keys(
                    keys_of(s.repository, s.pending),
                ));
            }
            assert forall|i: int|
                #![trigger releasable(table, s.owner_id, s.repository, s.pending, i)]
                0 <= i < s.pending.len() && !releasable(
                    table,
                    s.owner_id,
                    s.repository,
                    s.pending,
                    i,
                ) && (forall|j: int|
                    0 <= j < i ==> #[trigger] releasable(
                        table,
                        s.owner_id,
                        s.repository,
                        s.pending,
                        j,
                    )) implies run_release(base, table, s.advance()) == (
                base,
                Err::<Seq<LockResourceView>, LockError>(
                    release_error(table, s.owner_id, s.repository, s.pending, i),
                ),
            ) by {
                assert(i > 0);
                assert(!releasable(after, s.owner_id, s.repository, rest, i - 1));
                assert forall|j: int| 0 <= j < i - 1 implies #[trigger] releasable(
                    after,
                    s.owner_id,
                    s.repository,
                    rest,
                    j,
                ) by {
                    assert(releasable(table, s.owner_id, s.repository, s.pending, j + 1));
                }
                lemma_release_error_rest(table, s.owner_id, s.repository, s.pending, i - 1);
            }
        } else {
            assert(!releasable(table, s.owner_id, s.repository, s.pending, 0));
            assert forall|i: int|
                #![trigger releasable(table, s.owner_id, s.repository, s.pending, i)]
                0 <= i < s.pending.len() && !releasable(
                    table,
                    s.owner_id,
                    s.repository,
                    s.pending,
                    i,
                ) && (forall|j: int|
                    0 <= j < i ==> #[trigger] releasable(
                        table,
                        s.owner_id,
                        s.repository,
                        s.pending,
                        j,
                    )) implies run_release(base, table, s.advance()) == (
                base,
                Err::<Seq<LockResourceView>, LockError>(
                    release_error(table, s.owner_id, s.repository, s.pending, i),
                ),
            ) by {
                assert(i == 0);
            }
        }
    }
}

/// Why the `i`-th of the resources cannot be given back: somebody else holds the lock, or
/// nobody does (any more).
pub open spec fn release_error(
    table: LockTable,
    owner: Seq<char>,
    repository: RepositoryId,
    resources: Seq<LockResourceView>,
    i: int,
) -> LockError {
    if held_by_other(table, resources[i].key_in(repository), owner) {
        LockError::LockNotOwned
    } else {
        LockError::LockNotFound
    }
}

proof fn lemma_releasable_rest(
    table: LockTable,
    owner: Seq<char>,
    repository: RepositoryId,
    resources: Seq<LockResourceView>,
    i: int,
)
    requires
        0 <= i < resources.len() - 1,
        held_by(table, resources.first().key_in(repository), owner),
    ensures
        releasable(
            table.remove(resources.first().key_in(repository)),
            owner,
            repository,
            resources.drop_first(),
            i,
        ) == releasable(table, owner, repository, resources, i + 1),
{
    let rest = resources.drop_first();
    let key = resources.first().key_in(repository);
    let after = table.remove(key);
    assert(rest[i] == resources[i + 1]);
    assert(resources[0].key_in(repository) == key);
    if releasable(after, owner, repository, rest, i) {
        assert forall|j: int| 0 <= j < i + 1 implies #[trigger] resources[j].key_in(repository)
            != resources[i + 1].key_in(repository) by {
            if j > 0 {
                assert(rest[j - 1].key_in(repository) == resources[j].key_in(repository));
            }
        }
    }
    if releasable(table, owner, repository, resources, i + 1) {
        assert forall|j: int| 0 <= j < i implies #[trigger] rest[j].key_in(repository)
            != rest[i].key_in(repository) by {
            assert(rest[j].key_in(repository) == resources[j + 1].key_in(repository));
        }
        assert(resources[0].key_in(repository) != resources[i + 1].key_in(repository));
    }
}

proof fn lemma_release_error_rest(
    table: LockTable,
    owner: Seq<char>,
    repository: RepositoryId,
    resources: Seq<LockResourceView>,
    i: int,
)
    requires
        0 <= i < resources.len() - 1,
        held_by(table, resources.first().key_in(repository), owner),
    ensures
        release_error(
            table.remove(resources.first().key_in(repository)),
            owner,
            repository,
            resources.drop_first(),
            i,
        ) == release_error(table, owner, repository, resources, i + 1),
{
    assert(resources.drop_first()[i] == resources[i + 1]);
}

/// Giving back the locks of one owner is all or nothing. If `owner_id` holds every one of
/// them, they are removed, nothing else changes, and the result lists the resources.
/// Otherwise nothing changes, and the first resource that cannot be given back decides the
/// error: [`LockError::LockNotOwned`] for somebody else's lock, [`LockError::LockNotFound`]
/// for one that nobody holds.
pub proof fn release_all_or_nothing(table: LockTable, request: ReleaseView, first: int)
    requires
        request.validate_user,
        request.released == Seq::<LockResourceView>::empty(),
        0 <= first <= request.pending.len(),
        forall|j: int|
            0 <= j < first ==> #[trigger] releasable(
                table,
                request.owner_id,
                request.repository,
                request.pending,
                j,
            ),
        first < request.pending.len() ==> !releasable(
            table,
            request.owner_id,
            request.repository,
            request.pending,
            first,
        ),
    ensures
        first == request.pending.len() ==> release_on(table, request) == (
            table.remove_keys(keys_of(request.repository, request.pending)),
            Ok::<Seq<LockResourceView>, LockError>(request.pending),
        ),
        first < request.pending.len() ==> release_on(table, request) == (
            table,
            Err::<Seq<LockResourceView>, LockError>(
                release_error(
                    table,
                    request.owner_id,
                    request.repository,
                    request.pending,
                    first,
                ),
            ),
        ),
{
    reveal_with_fuel(run_release, 2);
    lemma_release_owned_from(table, table, request);
    assert(release_on(table, request) == run_release(table, table, request.advance()));
    assert(request.released + request.pending =~= request.pending);
}

/// Giving back the locks that one has just taken brings back the locks as they were, where
/// none of them was held before and no two of the resources share a branch and a hash.
pub proof fn acquire_then_release(
    table: LockTable,
    request: AcquireRequestView,
    locked_at: i64,
    validate_user: bool,
)
    requires
        forall|i: int|
            0 <= i < request.resources.len() ==> !table.contains_key(
                #[trigger] request.resources[i].key_in(request.repository),
            ),
        forall|i: int, j: int|
            0 <= i < j < request.resources.len() ==> #[trigger] request.resources[i].key_in(
                request.repository,
            ) != #[trigger] request.resources[j].key_in(request.repository),
    ensures
        ({
            let release = ReleaseView {
                owner_id: request.owner_id,
                validate_user,
                repository: request.repository,
                pending: request.resources,
                released: Seq::empty(),
            };
            let (taken, result) = acquire_on(table, request, locked_at);
            &&& result is Ok
            &&& release_on(taken, release) == (
                table,
                Ok::<Seq<LockResourceView>, LockError>(request.resources),
            )
        }),
{
    let release = ReleaseView {
        owner_id: request.owner_id,
        validate_user,
        repository: request.repository,
        pending: request.resources,
        released: Seq::empty(),
    };
    acquire_all_or_nothing(table, request, locked_at);
    let (taken, result) = acquire_on(table, request, locked_at);
    assert(!conflicts(table, request.owner_id, request.repository, request.resources));
    let keys = keys_of(request.repository, request.resources);
    assert forall|key: LockKey| #[trigger] taken.remove_keys(keys).contains_key(key)
        <==> table.contains_key(key) by {
        if table.contains_key(key) && keys.contains(key) {
            let i = choose|i: int|
                0 <= i < request.resources.len() && #[trigger] request.resources[i].key_in(
                    request.repository,
                ) == key;
            assert(false);
        }
        if taken.contains_key(key) && !table.contains_key(key) {
            let new = result->Ok_0;
            let i = choose|i: int|
                0 <= i < new.len() && (#[trigger] new[i]).resource.key_in(request.repository)
                    == key;
            let r = new[i].resource;
            assert(request.resources.contains(r));
            let k = choose|k: int| 0 <= k < request.resources.len() && request.resources[k] == r;
            assert(request.resources[k].key_in(request.repository) == key);
            assert(keys.contains(key));
        }
    }
    assert(taken.remove_keys(keys) =~= table);
    if validate_user {
        assert forall|i: int| 0 <= i < request.resources.len() implies #[trigger] releasable(
            taken,
            request.owner_id,
            request.repository,
            request.resources,
            i,
        ) by {
            assert(held_by(
                taken,
                request.resources[i].key_in(request.repository),
                request.owner_id,
            ));
        }
        release_all_or_nothing(taken, release, request.resources.len() as int);
    } else {
        release_any(taken, release);
    }
}

/// What becomes of a request to give locks back when the call to Postgres that comes after
/// `calls` others fails. A commit that fails is taken not to have happened.
pub open spec fn run_release_failing(
    base: LockTable,
    table: LockTable,
    step: ReleaseStepView,
    calls: nat,
    cause: String,
) -> (LockTable, Result<Seq<LockResourceView>, LockError>)
    decreases release_rank(step),
{
    let left = (calls - 1) as nat;
    match step {
        ReleaseStepView::Begin(s) => if calls == 0 {
            run_release(base, base, s.begun(Err(cause)))
        } else {
            run_release_failing(base, base, s.begun(Ok(())), left, cause)
        },
        ReleaseStepView::Delete(one) => if calls == 0 {
            run_release(base, table, one.deleted(Err(cause)))
        } else {
            let (after, rows) = execute(table, one.delete());
            run_release_failing(base, after, one.deleted(Ok(rows)), left, cause)
        },
        ReleaseStepView::SelectOwner(one) => if calls == 0 {
            run_release(base, table, one.owner_known(Err(cause)))
        } else {
            run_release_failing(
                base,
                table,
                one.owner_known(Ok(owner_of(table, one.key()))),
                left,
                cause,
            )
        },
        ReleaseStepView::Commit(s) => if calls == 0 {
            run_release(base, table, s.committed(Err(cause)))
        } else {
            run_release(table, table, s.committed(Ok(())))
        },
        ReleaseStepView::RollBack(e) => (base, Err(e)),
        ReleaseStepView::Finish(result) => (base, result),
    }
}

proof fn lemma_release_failing(
    base: LockTable,
    table: LockTable,
    step: ReleaseStepView,
    calls: nat,
    cause: String,
)
    ensures
        ({
            let (after, result) = run_release_failing(base, table, step, calls, cause);
            (after, result) == run_release(base, table, step) || (after == base && result is Err)
        }),
    decreases release_rank(step),
{
    reveal_with_fuel(run_release, 2);
    if calls > 0 {
        let left = (calls - 1) as nat;
        match step {
            ReleaseStepView::Begin(s) => {
                lemma_release_failing(base, base, s.begun(Ok(())), left, cause);
            },
            ReleaseStepView::Delete(one) => {
                let (after, rows) = execute(table, one.delete());
                lemma_release_failing(base, after, one.deleted(Ok(rows)), left, cause);
            },
            ReleaseStepView::SelectOwner(one) => {
                lemma_release_failing(
                    base,
                    table,
                    one.owner_known(Ok(owner_of(table, one.key()))),
                    left,
                    cause,
                );
            },
            _ => {},
        }
    }
}

/// A failure of Postgres on the way leaves the locks as they were: the request either comes
/// to the end that it would have come to, or changes nothing and reports an error.
pub proof fn release_atomic(table: LockTable, request: ReleaseView, calls: nat, cause: String)
    ensures
        ({
            let (after, result) = run_release_failing(
                table,
                table,
                request.connected(Ok(())),
                calls,
                cause,
            );
            (after, result) == release_on(table, request) || (after == table && result is Err)
        }),
{
    lemma_release_failing(table, table, request.connected(Ok(())), calls, cause);
}

/// Giving back the locks that a request has newly taken brings back the locks as they were,
/// whatever was held before.
pub proof fn acquire_then_undo(
    table: LockTable,
    request: AcquireRequestView,
    locked_at: i64,
    validate_user: bool,
)
    requires
        acquire_on(table, request, locked_at).1 is Ok,
    ensures
        ({
            let (taken, result) = acquire_on(table, request, locked_at);
            let new = resources_of(result->Ok_0);
            let release = ReleaseView {
                owner_id: request.owner_id,
                validate_user,
                repository: request.repository,
                pending: new,
                released: Seq::empty(),
            };
            release_on(taken, release) == (table, Ok::<Seq<LockResourceView>, LockError>(new))
        }),
{
    acquire_all_or_nothing(table, request, locked_at);
    let (taken, result) = acquire_on(table, request, locked_at);
    let locks = result->Ok_0;
    let new = resources_of(locks);
    let release = ReleaseView {
        owner_id: request.owner_id,
        validate_user,
        repository: request.repository,
        pending: new,
        released: Seq::empty(),
    };
    let keys = keys_of(request.repository, new);
    assert forall|key: LockKey| #[trigger] taken.remove_keys(keys).contains_key(key)
        <==> table.contains_key(key) by {
        if keys.contains(key) {
            let i = choose|i: int|
                0 <= i < new.len() && #[trigger] new[i].key_in(request.repository) == key;
            assert(locks[i].resource == new[i]);
        }
        if taken.contains_key(key) && !table.contains_key(key) {
            let i = choose|i: int|
                0 <= i < locks.len() && (#[trigger] locks[i]).resource.key_in(request.repository)
                    == key;
            assert(new[i].key_in(request.repository) == key);
        }
    }
    assert(taken.remove_keys(keys) =~= table);
    if validate_user {
        assert forall|i: int| 0 <= i < new.len() implies #[trigger] releasable(
            taken,
            request.owner_id,
            request.repository,
            new,
            i,
        ) by {
            assert(locks[i].resource == new[i]);
            assert forall|j: int| 0 <= j < i implies #[trigger] new[j].key_in(request.repository)
                != new[i].key_in(request.repository) by {
                assert(locks[j].resource == new[j]);
            }
        }
        release_all_or_nothing(taken, release, new.len() as int);
    } else {
        release_any(taken, release);
    }
}

// ---------------------------------------------------------------------------
// Listing locks
// ---------------------------------------------------------------------------

/// The statement lists the lock under this key.
pub open spec fn selects(statement: LockStatementView, key: LockKey, entry: LockEntry) -> bool {
    match statement {
        LockStatementView::Query(query) => match query {
            LockQueryView::Hash(h) => key.hash == h,
            LockQueryView::HashRepository(h, r) => key.hash == h && key.repository == r,
            LockQueryView::HashRepositoryBranch(h, r, b) => key.hash == h && key.repository == r
                && key.branch == b,
            LockQueryView::Owner(o) => entry.owner_id == o,
            LockQueryView::OwnerRepository(o, r) => entry.owner_id == o && key.repository == r,
            LockQueryView::OwnerRepositoryBranch(o, r, b) => entry.owner_id == o
                && key.repository == r && key.branch == b,
            LockQueryView::Repository(r) => key.repository == r,
            LockQueryView::RepositoryBranch(r, b) => key.repository == r && key.branch == b,
            LockQueryView::RepositoryBranchDescription(r, b, d) => key.repository == r
                && key.branch == b && entry.description == d,
        },
        LockStatementView::Status { repository, branches, hashes } => {
            &&& key.repository == repository
            &&& among_pairs(branches, hashes, key)
        },
        _ => false,
    }
}

/// Branch and hash of the key are one of the pairs.
pub open spec fn among_pairs(
    branches: Seq<BranchId>,
    hashes: Seq<ContentHash>,
    key: LockKey,
) -> bool {
    exists|i: int|
        #![trigger branches[i]]
        0 <= i < branches.len() && branches[i] == key.branch && hashes[i] == key.hash
}

/// The row in which a lock is listed.
pub open spec fn row_of(key: LockKey, entry: LockEntry) -> LockRowView {
    LockRowView {
        hash: key.hash@,
        branch: key.branch@,
        owner_id: entry.owner_id,
        description: entry.description,
        locked_at: entry.locked_at,
    }
}

/// The lock under a key, as it is reported.
pub open spec fn lock_of(key: LockKey, entry: LockEntry) -> LockDataView {
    LockDataView {
        resource: LockResourceView {
            branch: key.branch,
            hash: key.hash,
            description: entry.description,
        },
        owner: entry.owner_id,
        locked_at: entry.locked_at as u64,
    }
}

/// The statement is answered with these rows, which stand under these keys: every lock that
/// it selects, once, in some order.
pub open spec fn answered(
    table: LockTable,
    statement: LockStatementView,
    keys: Seq<LockKey>,
    rows: Seq<LockRowView>,
) -> bool {
    &&& rows.len() == keys.len()
    &&& keys.no_duplicates()
    &&& forall|key: LockKey|
        #[trigger] keys.contains(key) <==> table.contains_key(key) && selects(
            statement,
            key,
            table[key],
        )
    &&& forall|i: int| 0 <= i < keys.len() ==> #[trigger] rows[i] == row_of(keys[i], table[keys[i]])
}

/// A listing succeeds, and reports the locks that the statement selects as they stand in
/// the table: each of them once, and no others.
pub proof fn listing_exact(
    table: LockTable,
    statement: LockStatementView,
    keys: Seq<LockKey>,
    rows: Seq<LockRowView>,
    result: Result<Seq<LockDataView>, LockError>,
)
    requires
        answered(table, statement, keys, rows),
        listed(rows, result),
    ensures
        result is Ok,
        result->Ok_0.len() == keys.len(),
        forall|i: int|
            0 <= i < keys.len() ==> #[trigger] result->Ok_0[i] == lock_of(keys[i], table[keys[i]]),
{
    assert forall|i: int| 0 <= i < rows.len() implies (#[trigger] rows[i]).well_formed() by {}
    assert forall|i: int| 0 <= i < keys.len() implies #[trigger] result->Ok_0[i] == lock_of(
        keys[i],
        table[keys[i]],
    ) by {
        assert(rows[i].holds(result->Ok_0[i]));
        lemma_hash_bytes(result->Ok_0[i].resource.hash, keys[i].hash);
        lemma_context_bytes(result->Ok_0[i].resource.branch, keys[i].branch);
    }
}

/// A question which of some resources are locked selects the locks of just these.
pub proof fn status_selects(
    statement: LockStatementView,
    repository: RepositoryId,
    resources: Seq<LockResourceView>,
    key: LockKey,
    entry: LockEntry,
)
    requires
        asks_status(statement, repository, resources),
    ensures
        selects(statement, key, entry) <==> keys_of(repository, resources).contains(key),
{
    let (list, branches, hashes) = choose|
        list: Seq<LockResourceView>,
        branches: Seq<BranchId>,
        hashes: Seq<ContentHash>,
    |
        {
            &&& statement == (LockStatementView::Status { repository, branches, hashes })
            &&& in_canonical_order(list)
            &&& same_resources(list, resources)
            &&& #[trigger] pairs_of(list, branches, hashes)
        };
    if selects(statement, key, entry) {
        let i = choose|i: int|
            #![trigger branches[i]]
            0 <= i < branches.len() && branches[i] == key.branch && hashes[i] == key.hash;
        assert(list.contains(list[i]));
        assert(resources.contains(list[i]));
        let k = choose|k: int| 0 <= k < resources.len() && resources[k] == list[i];
        assert(hashes[i] == list[i].hash);
        assert(resources[k].key_in(repository) == key);
        assert(keys_of(repository, resources).contains(key));
    }
    if keys_of(repository, resources).contains(key) {
        let i = choose|i: int|
            0 <= i < resources.len() && #[trigger] resources[i].key_in(repository) == key;
        assert(resources.contains(resources[i]));
        assert(list.contains(resources[i]));
        let k = choose|k: int| 0 <= k < list.len() && list[k] == resources[i];
        assert(branches[k] == list[k].branch && hashes[k] == list[k].hash);
        assert(branches[k] == key.branch && hashes[k] == key.hash);
        assert(key.repository == repository);
        assert(among_pairs(branches, hashes, key));
        assert(selects(statement, key, entry));
    }
}

/// Once locks have been taken, asking for their status lists every one of them, held by the
/// one who took them.
pub proof fn acquired_locks_listed(
    table: LockTable,
    request: AcquireRequestView,
    locked_at: i64,
    statement: LockStatementView,
    keys: Seq<LockKey>,
    rows: Seq<LockRowView>,
    result: Result<Seq<LockDataView>, LockError>,
    i: int,
)
    requires
        acquire_on(table, request, locked_at).1 is Ok,
        asks_status(statement, request.repository, request.resources),
        answered(acquire_on(table, request, locked_at).0, statement, keys, rows),
        listed(rows, result),
        0 <= i < request.resources.len(),
    ensures
        result is Ok,
        exists|k: int|
            0 <= k < result->Ok_0.len() && (#[trigger] result->Ok_0[k]).resource.hash
                == request.resources[i].hash && result->Ok_0[k].resource.branch
                == request.resources[i].branch && result->Ok_0[k].owner == request.owner_id,
{
    let after = acquire_on(table, request, locked_at).0;
    acquire_all_or_nothing(table, request, locked_at);
    listing_exact(after, statement, keys, rows, result);
    let key = request.resources[i].key_in(request.repository);
    assert(held_by(after, key, request.owner_id));
    status_selects(statement, request.repository, request.resources, key, after[key]);
    assert(keys.contains(key));
    let k = choose|k: int| 0 <= k < keys.len() && keys[k] == key;
    assert(result->Ok_0[k] == lock_of(keys[k], after[keys[k]]));
}

/// Once locks have been given back, asking for their status lists none.
pub proof fn released_locks_not_listed(
    table: LockTable,
    request: ReleaseView,
    statement: LockStatementView,
    keys: Seq<LockKey>,
    rows: Seq<LockRowView>,
    result: Result<Seq<LockDataView>, LockError>,
)
    requires
        request.released == Seq::<LockResourceView>::empty(),
        release_on(table, request).1 is Ok,
        asks_status(statement, request.repository, request.pending),
        answered(release_on(table, request).0, statement, keys, rows),
        listed(rows, result),
    ensures
        result == Ok::<Seq<LockDataView>, LockError>(Seq::empty()),
{
    let after = release_on(table, request).0;
    lemma_release_ok(table, request);
    listing_exact(after, statement, keys, rows, result);
    if keys.len() > 0 {
        let key = keys[0];
        assert(keys.contains(key));
        status_selects(statement, request.repository, request.pending, key, after[key]);
    }
    assert(result->Ok_0 =~= Seq::empty());
}

/// A request to give locks back that succeeds removes the locks.
proof fn lemma_release_ok(table: LockTable, request: ReleaseView)
    requires
        request.released == Seq::<LockResourceView>::empty(),
        release_on(table, request).1 is Ok,
    ensures
        release_on(table, request).0 == table.remove_keys(
            keys_of(request.repository, request.pending),
        ),
{
    if request.validate_user {
        let first = lemma_first_unreleasable(
            table,
            request.owner_id,
            request.repository,
            request.pending,
            0,
        );
        release_all_or_nothing(table, request, first);
    } else {
        release_any(table, request);
    }
}

proof fn lemma_first_unreleasable(
    table: LockTable,
    owner: Seq<char>,
    repository: RepositoryId,
    resources: Seq<LockResourceView>,
    from: int,
) -> (first: int)
    requires
        0 <= from <= resources.len(),
        forall|j: int|
            0 <= j < from ==> #[trigger] releasable(table, owner, repository, resources, j),
    ensures
        0 <= first <= resources.len(),
        forall|j: int|
            0 <= j < first ==> #[trigger] releasable(table, owner, repository, resources, j),
        first < resources.len() ==> !releasable(table, owner, repository, resources, first),
    decreases resources.len() - from,
{
    if from == resources.len() || !releasable(table, owner, repository, resources, from) {
        from
    } else {
        lemma_first_unreleasable(table, owner, repository, resources, from + 1)
    }
}

} // verus!
